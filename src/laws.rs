use vstd::prelude::*;

use crate::classify::{heuristic, miui_rule, ClassificationView};
use crate::dataset::{lookup_in, EntryView};
use crate::inventory::{classify_spec, inventory_spec, PackageView};
use crate::text::contains;

verus! {

/// With an empty dataset, as a catalog that failed to decode gives, every
/// package is classified by the heuristic rules alone.
pub proof fn lemma_empty_dataset_uses_heuristics(id: Seq<char>)
    ensures
        lookup_in(Seq::<(EntryView, Seq<char>)>::empty(), id) is None,
        classify_spec(Seq::empty(), id) == heuristic(id),
{
}

/// Classification depends on the identifier and the dataset alone: two
/// classifications of one identifier against one dataset agree.
pub proof fn lemma_classify_deterministic(
    ds: Seq<(EntryView, Seq<char>)>,
    id: Seq<char>,
    a: Option<ClassificationView>,
    b: Option<ClassificationView>,
)
    requires
        a == classify_spec(ds, id),
        b == classify_spec(ds, id),
    ensures
        a == b,
{
}

/// The MIUI rule comes first: an identifier absent from the dataset that
/// holds `miui` is classified by it, with caution and medium risk, whatever
/// else it holds.
pub proof fn lemma_miui_rule_first(ds: Seq<(EntryView, Seq<char>)>, id: Seq<char>)
    requires
        lookup_in(ds, id) is None,
        contains(id, "miui"@),
    ensures
        classify_spec(ds, id) == Some(miui_rule(id)),
        classify_spec(ds, id)->0.safety_level == "caution"@,
        classify_spec(ds, id)->0.risk_level == "MEDIUM"@,
{
}

/// Building the inventory twice from the same listings gives the same records.
pub proof fn lemma_inventory_idempotent(
    ds: Seq<(EntryView, Seq<char>)>,
    package_listing: Seq<char>,
    disabled_listing: Seq<char>,
    first: Seq<PackageView>,
    second: Seq<PackageView>,
)
    requires
        first == inventory_spec(ds, package_listing, disabled_listing),
        second == inventory_spec(ds, package_listing, disabled_listing),
    ensures
        first == second,
{
}

} // verus!
