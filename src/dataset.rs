use vstd::prelude::*;

use crate::text::{chars_of, has_prefix};

verus! {

/// One curated catalog entry.
pub struct PackageInfo {
    pub package_name: String,
    pub app_name: String,
    pub description: String,
    pub safe_to_remove: bool,
    pub risk_level: String,
    pub battery_impact: String,
    pub ram_impact: String,
    pub reversible: bool,
    pub notes: String,
}

pub ghost struct EntryView {
    pub package_name: Seq<char>,
    pub app_name: Seq<char>,
    pub description: Seq<char>,
    pub safe_to_remove: bool,
    pub risk_level: Seq<char>,
    pub battery_impact: Seq<char>,
    pub ram_impact: Seq<char>,
    pub reversible: bool,
    pub notes: Seq<char>,
}

impl View for PackageInfo {
    type V = EntryView;

    open spec fn view(&self) -> EntryView {
        EntryView {
            package_name: self.package_name@,
            app_name: self.app_name@,
            description: self.description@,
            safe_to_remove: self.safe_to_remove,
            risk_level: self.risk_level@,
            battery_impact: self.battery_impact@,
            ram_impact: self.ram_impact@,
            reversible: self.reversible,
            notes: self.notes@,
        }
    }
}

impl PackageInfo {
    pub fn duplicate(&self) -> (r: PackageInfo)
        ensures
            r@ == self@,
    {
        PackageInfo {
            package_name: self.package_name.clone(),
            app_name: self.app_name.clone(),
            description: self.description.clone(),
            safe_to_remove: self.safe_to_remove,
            risk_level: self.risk_level.clone(),
            battery_impact: self.battery_impact.clone(),
            ram_impact: self.ram_impact.clone(),
            reversible: self.reversible,
            notes: self.notes.clone(),
        }
    }
}

/// A catalog group: a vendor and the packages it ships.
pub struct CatalogGroup {
    pub group: String,
    pub vendor: String,
    pub packages: Vec<PackageInfo>,
}

pub ghost struct GroupView {
    pub group: Seq<char>,
    pub vendor: Seq<char>,
    pub packages: Seq<EntryView>,
}

impl View for CatalogGroup {
    type V = GroupView;

    open spec fn view(&self) -> GroupView {
        GroupView {
            group: self.group@,
            vendor: self.vendor@,
            packages: self.packages@.map_values(|p: PackageInfo| p@),
        }
    }
}

/// Every entry of the catalog, in order, with the vendor of its group.
pub open spec fn flatten(groups: Seq<GroupView>) -> Seq<(EntryView, Seq<char>)>
    decreases groups.len(),
{
    if groups.len() == 0 {
        Seq::empty()
    } else {
        let g = groups.last();
        flatten(groups.drop_last()) + g.packages.map_values(|e: EntryView| (e, g.vendor))
    }
}

/// The entry that a lookup finds: of several with one identifier, the latest.
pub open spec fn lookup_in(entries: Seq<(EntryView, Seq<char>)>, id: Seq<char>) -> Option<(EntryView, Seq<char>)>
    decreases entries.len(),
{
    if entries.len() == 0 {
        None
    } else if entries.last().0.package_name == id {
        Some(entries.last())
    } else {
        lookup_in(entries.drop_last(), id)
    }
}

struct DatasetEntry {
    key: Vec<char>,
    info: PackageInfo,
    vendor: String,
}

/// The reference dataset: catalog entries, looked up by identifier.
pub struct Dataset {
    entries: Vec<DatasetEntry>,
}

impl View for Dataset {
    type V = Seq<(EntryView, Seq<char>)>;

    closed spec fn view(&self) -> Seq<(EntryView, Seq<char>)> {
        self.entries@.map_values(|e: DatasetEntry| (e.info@, e.vendor@))
    }
}

impl Dataset {
    pub closed spec fn wf(&self) -> bool {
        forall|i: int| 0 <= i < self.entries@.len() ==> #[trigger] self.entries@[i].key@
            == self.entries@[i].info.package_name@
    }

    /// A dataset with no entries.
    pub fn empty() -> (r: Dataset)
        ensures
            r.wf(),
            r@ == Seq::<(EntryView, Seq<char>)>::empty(),
    {
        let r = Dataset { entries: Vec::new() };
        assert(r@ =~= Seq::<(EntryView, Seq<char>)>::empty());
        r
    }

    /// Builds the dataset from a decoded catalog; a catalog that could not be
    /// decoded gives the empty dataset.
    pub fn load(catalog: Option<Vec<CatalogGroup>>) -> (r: Dataset)
        ensures
            r.wf(),
            r@ == match catalog {
                Some(groups) => flatten(groups@.map_values(|g: CatalogGroup| g@)),
                None => Seq::empty(),
            },
    {
        match catalog {
            None => Dataset::empty(),
            Some(groups) => Dataset::from_groups(&groups),
        }
    }

    pub fn from_groups(groups: &Vec<CatalogGroup>) -> (r: Dataset)
        ensures
            r.wf(),
            r@ == flatten(groups@.map_values(|g: CatalogGroup| g@)),
    {
        let mut d = Dataset::empty();
        let ghost gv = groups@.map_values(|g: CatalogGroup| g@);
        let mut gi: usize = 0;
        while gi < groups.len()
            invariant
                gi <= groups.len(),
                gv == groups@.map_values(|g: CatalogGroup| g@),
                d.wf(),
                d@ == flatten(gv.take(gi as int)),
            decreases groups.len() - gi,
        {
            let g = &groups[gi];
            let ghost before = d@;
            let mut pi: usize = 0;
            while pi < g.packages.len()
                invariant
                    pi <= g.packages.len(),
                    d.wf(),
                    d@ == before + g@.packages.take(pi as int).map_values(|e: EntryView| (e, g.vendor@)),
                decreases g.packages.len() - pi,
            {
                let p = &g.packages[pi];
                let e = DatasetEntry {
                    key: chars_of(p.package_name.as_str()),
                    info: p.duplicate(),
                    vendor: g.vendor.clone(),
                };
                let ghost prev = d@;
                let ghost ev = (e.info@, e.vendor@);
                d.entries.push(e);
                proof {
                    assert(d@ =~= prev.push(ev));
                    assert(g@.packages[pi as int] == p@);
                    assert(d@ =~= before + g@.packages.take(pi + 1).map_values(|e: EntryView| (e, g.vendor@)));
                }
                pi = pi + 1;
            }
            proof {
                assert(gv.take(gi + 1).drop_last() =~= gv.take(gi as int));
                assert(g@.packages.take(pi as int) =~= g@.packages);
            }
            gi = gi + 1;
        }
        proof {
            assert(gv.take(gi as int) =~= gv);
        }
        d
    }

    /// The entry for an identifier, matched exactly.
    pub fn lookup(&self, id: &[char]) -> (r: Option<(&PackageInfo, &String)>)
        requires
            self.wf(),
        ensures
            match r {
                Some(e) => lookup_in(self@, id@) == Some((e.0@, e.1@)),
                None => lookup_in(self@, id@) is None,
            },
    {
        let mut i: usize = self.entries.len();
        assert(self@.take(i as int) =~= self@);
        while i > 0
            invariant
                i <= self.entries.len(),
                self.wf(),
                lookup_in(self@, id@) == lookup_in(self@.take(i as int), id@),
            decreases i,
        {
            let e = &self.entries[i - 1];
            proof {
                assert(self@.take(i as int).drop_last() =~= self@.take(i - 1));
            }
            if e.key.len() == id.len() && has_prefix(id, e.key.as_slice()) {
                proof {
                    assert(id@.subrange(0, id@.len() as int) =~= id@);
                }
                return Some((&e.info, &e.vendor));
            }
            proof {
                if e.key@ == id@ {
                    assert(id@.subrange(0, id@.len() as int) =~= id@);
                }
            }
            i = i - 1;
        }
        proof {
            assert(self@.take(0) =~= Seq::<(EntryView, Seq<char>)>::empty());
        }
        None
    }
}

} // verus!
