use vstd::prelude::*;

use crate::classify::{
    bloatware_from_chars, group_from_chars, group_of, heuristic, opt_view, risk_to_safety,
    safety_of, Classification, ClassificationView,
};
use crate::sorting::{by_label, records, sort_by_label, sort_spec};
use crate::dataset::{lookup_in, Dataset, EntryView};
use crate::text::{
    chars_of, contains, contains_str, lines_of, split_lines, starts_with, starts_with_str,
    string_of, trim, trimmed,
};

verus! {

/// An installed package, annotated for the user.
pub struct AppPackage {
    pub package_name: String,
    pub label: String,
    pub is_system_app: bool,
    pub is_enabled: bool,
    pub info: Option<Classification>,
}

pub ghost struct PackageView {
    pub package_name: Seq<char>,
    pub label: Seq<char>,
    pub is_system_app: bool,
    pub is_enabled: bool,
    pub info: Option<ClassificationView>,
}

impl View for AppPackage {
    type V = PackageView;

    open spec fn view(&self) -> PackageView {
        PackageView {
            package_name: self.package_name@,
            label: self.label@,
            is_system_app: self.is_system_app,
            is_enabled: self.is_enabled,
            info: opt_view(self.info),
        }
    }
}

impl AppPackage {
    pub fn duplicate(&self) -> (r: AppPackage)
        ensures
            r@ == self@,
    {
        AppPackage {
            package_name: self.package_name.clone(),
            label: self.label.clone(),
            is_system_app: self.is_system_app,
            is_enabled: self.is_enabled,
            info: match &self.info {
                Some(c) => Some(c.duplicate()),
                None => None,
            },
        }
    }
}

pub open spec fn count_char(s: Seq<char>, c: char) -> nat
    decreases s.len(),
{
    if s.len() == 0 {
        0
    } else {
        count_char(s.drop_last(), c) + if s.last() == c { 1nat } else { 0nat }
    }
}

/// The index of the first `c` at or after `i`, or the length.
pub open spec fn find_char(s: Seq<char>, c: char, i: int) -> int
    decreases s.len() - i,
{
    if i < 0 || i >= s.len() {
        s.len() as int
    } else if s[i] == c {
        i
    } else {
        find_char(s, c, i + 1)
    }
}

/// What follows `prefix` in `s`.
pub open spec fn after(s: Seq<char>, prefix: Seq<char>) -> Seq<char> {
    s.subrange(prefix.len() as int, s.len() as int)
}

/// Whether a line has the shape of a package line: the marker, then text
/// with exactly one `=`.
pub open spec fn package_shape(line: Seq<char>) -> bool {
    starts_with(line, "package:"@) && count_char(after(line, "package:"@), '=') == 1
}

/// The install path and identifier of a package line, if it is one.
pub open spec fn package_line(line: Seq<char>) -> Option<(Seq<char>, Seq<char>)> {
    if !package_shape(line) {
        None
    } else {
        let rest = after(line, "package:"@);
        let k = find_char(rest, '=', 0);
        let id = trim(rest.subrange(k + 1, rest.len() as int));
        if id.len() == 0 {
            None
        } else {
            Some((rest.subrange(0, k), id))
        }
    }
}

/// The identifier of a line of the disabled listing, if it is one.
pub open spec fn disabled_line(line: Seq<char>) -> Option<Seq<char>> {
    if starts_with(line, "package:"@) && trim(after(line, "package:"@)).len() > 0 {
        Some(trim(after(line, "package:"@)))
    } else {
        None
    }
}

/// The identifiers that a disabled listing names, in order.
pub open spec fn disabled_of(lines: Seq<Seq<char>>) -> Seq<Seq<char>>
    decreases lines.len(),
{
    if lines.len() == 0 {
        Seq::empty()
    } else {
        match disabled_line(lines.last()) {
            Some(id) => disabled_of(lines.drop_last()).push(id),
            None => disabled_of(lines.drop_last()),
        }
    }
}

/// Where the last dot-separated segment of `s.take(j)` begins.
pub open spec fn segment_start(s: Seq<char>, j: int) -> int
    decreases j,
{
    if j <= 0 || j > s.len() {
        0
    } else if s[j - 1] == '.' {
        j
    } else {
        segment_start(s, j - 1)
    }
}

/// The last dot-separated segment of an identifier.
pub open spec fn last_segment(id: Seq<char>) -> Seq<char> {
    id.subrange(segment_start(id, id.len() as int), id.len() as int)
}

pub open spec fn system_path(path: Seq<char>) -> bool {
    contains(path, "/system/"@) || contains(path, "/vendor/"@) || contains(path, "/product/"@)
}

/// The classification drawn from a dataset entry.
pub open spec fn from_entry(id: Seq<char>, e: EntryView, vendor: Seq<char>) -> ClassificationView {
    ClassificationView {
        category: vendor,
        description: e.description,
        safety_level: safety_of(e.risk_level),
        safe_to_remove: e.safe_to_remove,
        risk_level: e.risk_level,
        battery_impact: e.battery_impact,
        ram_impact: e.ram_impact,
        reversible: e.reversible,
        notes: e.notes,
        group: group_of(id),
    }
}

/// The dataset first, then the heuristic rules.
pub open spec fn classify_spec(ds: Seq<(EntryView, Seq<char>)>, id: Seq<char>) -> Option<ClassificationView> {
    match lookup_in(ds, id) {
        Some(hit) => Some(from_entry(id, hit.0, hit.1)),
        None => heuristic(id),
    }
}

pub open spec fn label_spec(ds: Seq<(EntryView, Seq<char>)>, id: Seq<char>) -> Seq<char> {
    match lookup_in(ds, id) {
        Some(hit) => hit.0.app_name,
        None => last_segment(id),
    }
}

pub open spec fn record_of(
    ds: Seq<(EntryView, Seq<char>)>,
    disabled: Seq<Seq<char>>,
    path: Seq<char>,
    id: Seq<char>,
) -> PackageView {
    PackageView {
        package_name: id,
        label: label_spec(ds, id),
        is_system_app: system_path(path),
        is_enabled: !disabled.contains(id),
        info: classify_spec(ds, id),
    }
}

pub open spec fn has_id(recs: Seq<PackageView>, id: Seq<char>) -> bool {
    exists|k: int| 0 <= k < recs.len() && recs[k].package_name == id
}

/// The records of the accepted lines, in order; of lines with one
/// identifier the first is kept.
pub open spec fn collect(
    ds: Seq<(EntryView, Seq<char>)>,
    disabled: Seq<Seq<char>>,
    lines: Seq<Seq<char>>,
) -> Seq<PackageView>
    decreases lines.len(),
{
    if lines.len() == 0 {
        Seq::empty()
    } else {
        let prev = collect(ds, disabled, lines.drop_last());
        match package_line(lines.last()) {
            Some(pl) => if has_id(prev, pl.1) {
                prev
            } else {
                prev.push(record_of(ds, disabled, pl.0, pl.1))
            },
            None => prev,
        }
    }
}

fn same_chars(a: &[char], b: &[char]) -> (r: bool)
    ensures
        r == (a@ == b@),
{
    if a.len() != b.len() {
        return false;
    }
    let mut k: usize = 0;
    while k < a.len()
        invariant
            a.len() == b.len(),
            k <= a.len(),
            forall|m: int| 0 <= m < k ==> a@[m] == b@[m],
        decreases a.len() - k,
    {
        if a[k] != b[k] {
            return false;
        }
        k = k + 1;
    }
    assert(a@ =~= b@);
    true
}

/// Splits a package line into install path and identifier; lines of any
/// other shape give `None`.
pub fn parse_package_line(line: &[char]) -> (r: Option<(Vec<char>, Vec<char>)>)
    ensures
        !package_shape(line@) ==> r is None,
        match r {
            Some(pl) => package_line(line@) == Some((pl.0@, pl.1@)),
            None => package_line(line@) is None,
        },
{
    if !starts_with_str(line, "package:") {
        return None;
    }
    let plen = chars_of("package:").len();
    let ghost rest = after(line@, "package:"@);
    let mut cnt: usize = 0;
    let mut pos: usize = line.len();
    let mut i: usize = plen;
    while i < line.len()
        invariant
            plen == "package:"@.len(),
            plen <= i <= line.len(),
            rest == line@.subrange(plen as int, line@.len() as int),
            cnt == count_char(rest.take(i - plen), '='),
            cnt <= i - plen,
            cnt == 0 ==> pos == line.len(),
            cnt == 0 ==> find_char(rest, '=', 0) == find_char(rest, '=', i - plen),
            cnt > 0 ==> plen <= pos < line.len() && pos - plen == find_char(rest, '=', 0),
        decreases line.len() - i,
    {
        proof {
            assert(rest.take(i - plen + 1).drop_last() =~= rest.take(i - plen));
        }
        if line[i] == '=' {
            if cnt == 0 {
                pos = i;
            }
            cnt = cnt + 1;
        }
        i = i + 1;
    }
    proof {
        assert(rest.take(rest.len() as int) =~= rest);
    }
    if cnt != 1 {
        return None;
    }
    let mut path: Vec<char> = Vec::new();
    let mut k: usize = plen;
    while k < pos
        invariant
            plen <= k <= pos < line.len(),
            path@ == line@.subrange(plen as int, k as int),
        decreases pos - k,
    {
        path.push(line[k]);
        k = k + 1;
    }
    let id = trimmed(&line[pos + 1..line.len()]);
    proof {
        assert(line@.subrange(pos + 1, line@.len() as int) =~= rest.subrange(
            pos - plen + 1,
            rest.len() as int,
        ));
        assert(path@ =~= rest.subrange(0, pos - plen));
    }
    if id.len() == 0 {
        return None;
    }
    Some((path, id))
}

/// The identifier of a line of the disabled listing (`package:<id>`).
pub fn parse_disabled_line(line: &[char]) -> (r: Option<Vec<char>>)
    ensures
        match r {
            Some(id) => disabled_line(line@) == Some(id@),
            None => disabled_line(line@) is None,
        },
{
    if !starts_with_str(line, "package:") {
        return None;
    }
    let plen = chars_of("package:").len();
    let id = trimmed(&line[plen..line.len()]);
    assert(line@.subrange(plen as int, line@.len() as int) =~= after(line@, "package:"@));
    if id.len() == 0 {
        None
    } else {
        Some(id)
    }
}

/// The identifiers that a disabled listing names.
pub fn disabled_ids(listing: &str) -> (r: Vec<Vec<char>>)
    ensures
        r@.len() == disabled_of(lines_of(listing@)).len(),
        forall|k: int| 0 <= k < r@.len() ==> #[trigger] r@[k]@ == disabled_of(lines_of(listing@))[k],
{
    let lines = split_lines(&chars_of(listing));
    let ghost ls = lines_of(listing@);
    let mut out: Vec<Vec<char>> = Vec::new();
    let mut i: usize = 0;
    while i < lines.len()
        invariant
            i <= lines.len(),
            lines@.len() == ls.len(),
            forall|k: int| 0 <= k < lines@.len() ==> #[trigger] lines@[k]@ == ls[k],
            out@.len() == disabled_of(ls.take(i as int)).len(),
            forall|k: int| 0 <= k < out@.len() ==> #[trigger] out@[k]@ == disabled_of(ls.take(i as int))[k],
        decreases lines.len() - i,
    {
        proof {
            assert(ls.take(i + 1).drop_last() =~= ls.take(i as int));
            assert(lines@[i as int]@ == ls[i as int]);
        }
        match parse_disabled_line(lines[i].as_slice()) {
            Some(id) => {
                out.push(id);
            },
            None => {},
        }
        i = i + 1;
    }
    assert(ls.take(ls.len() as int) =~= ls);
    out
}

fn in_list(list: &Vec<Vec<char>>, id: &[char]) -> (r: bool)
    ensures
        r == (exists|k: int| 0 <= k < list@.len() && list@[k]@ == id@),
{
    let mut k: usize = 0;
    while k < list.len()
        invariant
            k <= list.len(),
            forall|m: int| 0 <= m < k ==> list@[m]@ != id@,
        decreases list.len() - k,
    {
        if same_chars(list[k].as_slice(), id) {
            return true;
        }
        k = k + 1;
    }
    false
}

/// The last dot-separated segment of an identifier, the label of a package
/// that the dataset does not name.
pub fn fallback_label(id: &[char]) -> (r: String)
    ensures
        r@ == last_segment(id@),
{
    let mut j: usize = id.len();
    while j > 0 && id[j - 1] != '.'
        invariant
            j <= id.len(),
            segment_start(id@, id@.len() as int) == segment_start(id@, j as int),
        decreases j,
    {
        j = j - 1;
    }
    string_of(&id[j..id.len()])
}

fn classification_of_entry(id: &[char], e: &crate::dataset::PackageInfo, vendor: &String) -> (r: Classification)
    ensures
        r@ == from_entry(id@, e@, vendor@),
{
    Classification {
        category: vendor.clone(),
        description: e.description.clone(),
        safety_level: risk_to_safety(chars_of(e.risk_level.as_str()).as_slice()),
        safe_to_remove: e.safe_to_remove,
        risk_level: e.risk_level.clone(),
        battery_impact: e.battery_impact.clone(),
        ram_impact: e.ram_impact.clone(),
        reversible: e.reversible,
        notes: e.notes.clone(),
        group: group_from_chars(id),
    }
}

/// Classifies a package: by its dataset entry if it has one, else by the
/// heuristic rules.
pub fn classify(ds: &Dataset, package_name: &str) -> (r: Option<Classification>)
    requires
        ds.wf(),
    ensures
        opt_view(r) == classify_spec(ds@, package_name@),
{
    let id = chars_of(package_name);
    classify_chars(ds, id.as_slice())
}

fn classify_chars(ds: &Dataset, id: &[char]) -> (r: Option<Classification>)
    requires
        ds.wf(),
    ensures
        opt_view(r) == classify_spec(ds@, id@),
{
    match ds.lookup(id) {
        Some(hit) => Some(classification_of_entry(id, hit.0, hit.1)),
        None => bloatware_from_chars(id),
    }
}

/// The annotated record of one accepted package line.
pub fn make_record(ds: &Dataset, disabled: &Vec<Vec<char>>, path: &[char], id: &[char]) -> (r: AppPackage)
    requires
        ds.wf(),
    ensures
        r@ == record_of(ds@, disabled@.map_values(|d: Vec<char>| d@), path@, id@),
{
    let ghost dv = disabled@.map_values(|d: Vec<char>| d@);
    let is_system_app = contains_str(path, "/system/") || contains_str(path, "/vendor/")
        || contains_str(path, "/product/");
    let listed = in_list(disabled, id);
    proof {
        if listed {
            let k = choose|k: int| 0 <= k < disabled@.len() && disabled@[k]@ == id@;
            assert(dv[k] == id@);
        }
        if dv.contains(id@) {
            let k = choose|k: int| 0 <= k < dv.len() && dv[k] == id@;
            assert(disabled@[k]@ == id@);
        }
    }
    let (label, info) = match ds.lookup(id) {
        Some(hit) => (hit.0.app_name.clone(), Some(classification_of_entry(id, hit.0, hit.1))),
        None => (fallback_label(id), bloatware_from_chars(id)),
    };
    AppPackage {
        package_name: string_of(id),
        label,
        is_system_app,
        is_enabled: !listed,
        info,
    }
}

/// The records of a package listing, in listing order, without sorting.
pub fn collect_records(ds: &Dataset, package_listing: &str, disabled_listing: &str) -> (r: Vec<AppPackage>)
    requires
        ds.wf(),
    ensures
        r@.map_values(|p: AppPackage| p@) == collect(
            ds@,
            disabled_of(lines_of(disabled_listing@)),
            lines_of(package_listing@),
        ),
{
    let disabled = disabled_ids(disabled_listing);
    let ghost dv = disabled_of(lines_of(disabled_listing@));
    assert(disabled@.map_values(|d: Vec<char>| d@) =~= dv);
    let lines = split_lines(&chars_of(package_listing));
    let ghost ls = lines_of(package_listing@);
    let mut out: Vec<AppPackage> = Vec::new();
    let mut seen: Vec<Vec<char>> = Vec::new();
    let mut i: usize = 0;
    while i < lines.len()
        invariant
            ds.wf(),
            i <= lines.len(),
            lines@.len() == ls.len(),
            forall|k: int| 0 <= k < lines@.len() ==> #[trigger] lines@[k]@ == ls[k],
            disabled@.map_values(|d: Vec<char>| d@) == dv,
            out@.map_values(|p: AppPackage| p@) == collect(ds@, dv, ls.take(i as int)),
            seen@.len() == out@.len(),
            forall|k: int| 0 <= k < seen@.len() ==> #[trigger] seen@[k]@ == out@[k]@.package_name,
        decreases lines.len() - i,
    {
        let ghost prev = collect(ds@, dv, ls.take(i as int));
        proof {
            assert(ls.take(i + 1).drop_last() =~= ls.take(i as int));
            assert(lines@[i as int]@ == ls[i as int]);
        }
        match parse_package_line(lines[i].as_slice()) {
            Some(pl) => {
                let dup = in_list(&seen, pl.1.as_slice());
                proof {
                    if dup {
                        let k = choose|k: int| 0 <= k < seen@.len() && seen@[k]@ == pl.1@;
                        assert(prev[k].package_name == pl.1@);
                    }
                    if has_id(prev, pl.1@) {
                        let k = choose|k: int| 0 <= k < prev.len() && prev[k].package_name == pl.1@;
                        assert(seen@[k]@ == pl.1@);
                    }
                }
                if !dup {
                    let rec = make_record(ds, &disabled, pl.0.as_slice(), pl.1.as_slice());
                    let ghost before = out@;
                    out.push(rec);
                    seen.push(pl.1);
                    proof {
                        assert(out@.map_values(|p: AppPackage| p@) =~= before.map_values(|p: AppPackage| p@).push(rec@));
                    }
                }
            },
            None => {},
        }
        i = i + 1;
    }
    assert(ls.take(ls.len() as int) =~= ls);
    out
}

/// The inventory of a package listing: records sorted by label, ignoring case.
pub open spec fn inventory_spec(
    ds: Seq<(EntryView, Seq<char>)>,
    package_listing: Seq<char>,
    disabled_listing: Seq<char>,
) -> Seq<PackageView> {
    records(
        sort_spec(
            by_label(collect(ds, disabled_of(lines_of(disabled_listing)), lines_of(package_listing))),
        ),
    )
}

/// Builds the annotated, sorted inventory from the raw package listing and
/// the raw disabled listing.
pub fn build_inventory(ds: &Dataset, package_listing: &str, disabled_listing: &str) -> (r: Vec<AppPackage>)
    requires
        ds.wf(),
    ensures
        r@.map_values(|p: AppPackage| p@) == inventory_spec(ds@, package_listing@, disabled_listing@),
{
    let recs = collect_records(ds, package_listing, disabled_listing);
    sort_by_label(&recs)
}

} // verus!
