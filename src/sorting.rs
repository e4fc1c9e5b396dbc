use vstd::prelude::*;

use crate::inventory::{AppPackage, PackageView};
use crate::text::chars_of;

verus! {

/// What `str::to_lowercase` gives for a text.
pub uninterp spec fn lower_of(s: Seq<char>) -> Seq<char>;

/// Relies on `str::to_lowercase`: the result depends on the characters alone.
#[verifier::external_body]
fn lowercase(s: &str) -> (r: String)
    ensures
        r@ == lower_of(s@),
{
    s.to_lowercase()
}

/// Lexicographic order by code point, which is the order of `str`'s `cmp`.
pub open spec fn lex_le(a: Seq<char>, b: Seq<char>) -> bool
    decreases a.len(),
{
    if a.len() == 0 {
        true
    } else if b.len() == 0 {
        false
    } else if a[0] != b[0] {
        a[0] < b[0]
    } else {
        lex_le(a.drop_first(), b.drop_first())
    }
}

/// Inserts `x` after every element whose key is not greater than its own.
pub open spec fn insert_sorted(s: Seq<(Seq<char>, PackageView)>, x: (Seq<char>, PackageView)) -> Seq<(Seq<char>, PackageView)>
    decreases s.len(),
{
    if s.len() == 0 || lex_le(s.last().0, x.0) {
        s.push(x)
    } else {
        insert_sorted(s.drop_last(), x).push(s.last())
    }
}

/// The stable sort of keyed records by key.
pub open spec fn sort_spec(s: Seq<(Seq<char>, PackageView)>) -> Seq<(Seq<char>, PackageView)>
    decreases s.len(),
{
    if s.len() == 0 {
        Seq::empty()
    } else {
        insert_sorted(sort_spec(s.drop_last()), s.last())
    }
}

pub open spec fn keyed_view(v: Seq<(Vec<char>, AppPackage)>) -> Seq<(Seq<char>, PackageView)> {
    v.map_values(|e: (Vec<char>, AppPackage)| (e.0@, e.1@))
}

pub open spec fn records(s: Seq<(Seq<char>, PackageView)>) -> Seq<PackageView> {
    s.map_values(|e: (Seq<char>, PackageView)| e.1)
}

/// Records keyed by their label, lowered.
pub open spec fn by_label(s: Seq<PackageView>) -> Seq<(Seq<char>, PackageView)> {
    s.map_values(|p: PackageView| (lower_of(p.label), p))
}

pub proof fn lemma_insert_at(s: Seq<(Seq<char>, PackageView)>, x: (Seq<char>, PackageView), p: int)
    requires
        0 <= p <= s.len(),
        forall|j: int| p <= j < s.len() ==> !lex_le(#[trigger] s[j].0, x.0),
        p == 0 || lex_le(s[p - 1].0, x.0),
    ensures
        insert_sorted(s, x) == s.take(p).push(x) + s.skip(p),
    decreases s.len(),
{
    if s.len() == p {
        assert(s.take(p) =~= s);
        assert(s.skip(p) =~= Seq::<(Seq<char>, PackageView)>::empty());
        assert(s.take(p).push(x) + s.skip(p) =~= s.push(x));
    } else {
        let d = s.drop_last();
        assert(!lex_le(s[s.len() - 1].0, x.0));
        lemma_insert_at(d, x, p);
        assert(d.take(p) =~= s.take(p));
        assert((d.take(p).push(x) + d.skip(p)).push(s.last()) =~= s.take(p).push(x) + s.skip(p));
    }
}

/// Whether `a` comes no later than `b` in code-point order.
pub fn lex_le_exec(a: &[char], b: &[char]) -> (r: bool)
    ensures
        r == lex_le(a@, b@),
{
    let mut i: usize = 0;
    assert(a@.skip(0) =~= a@);
    assert(b@.skip(0) =~= b@);
    while i < a.len() && i < b.len()
        invariant
            i <= a.len(),
            i <= b.len(),
            lex_le(a@, b@) == lex_le(a@.skip(i as int), b@.skip(i as int)),
        decreases a.len() - i,
    {
        proof {
            assert(a@.skip(i as int).drop_first() =~= a@.skip(i + 1));
            assert(b@.skip(i as int).drop_first() =~= b@.skip(i + 1));
        }
        if a[i] != b[i] {
            return a[i] < b[i];
        }
        i = i + 1;
    }
    i == a.len()
}

/// Sorts records by their keys, keeping the order of records with equal keys.
pub fn sort_by_keys(items: &Vec<(Vec<char>, AppPackage)>) -> (r: Vec<AppPackage>)
    ensures
        r@.map_values(|p: AppPackage| p@) == records(sort_spec(keyed_view(items@))),
{
    let ghost orig = keyed_view(items@);
    let mut res: Vec<(Vec<char>, AppPackage)> = Vec::new();
    let mut i: usize = 0;
    while i < items.len()
        invariant
            i <= items.len(),
            orig == keyed_view(items@),
            keyed_view(res@) == sort_spec(orig.take(i as int)),
        decreases items.len() - i,
    {
        let x = (items[i].0.clone(), items[i].1.duplicate());
        let ghost xv = (x.0@, x.1@);
        assert(orig[i as int] == xv);
        let ghost s = keyed_view(res@);
        let mut p: usize = res.len();
        while p > 0 && !lex_le_exec(res[p - 1].0.as_slice(), x.0.as_slice())
            invariant
                p <= res.len(),
                s == keyed_view(res@),
                xv == (x.0@, x.1@),
                forall|j: int| p <= j < s.len() ==> !lex_le(#[trigger] s[j].0, xv.0),
            decreases p,
        {
            assert(s[p - 1].0 == res@[p - 1].0@);
            p = p - 1;
        }
        proof {
            if p > 0 {
                assert(s[p - 1].0 == res@[p - 1].0@);
            }
            lemma_insert_at(s, xv, p as int);
            assert(orig.take(i + 1).drop_last() =~= orig.take(i as int));
        }
        res.insert(p, x);
        assert(keyed_view(res@) =~= s.take(p as int).push(xv) + s.skip(p as int));
        i = i + 1;
    }
    assert(orig.take(i as int) =~= orig);
    let ghost sorted = keyed_view(res@);
    let mut out: Vec<AppPackage> = Vec::new();
    let mut k: usize = 0;
    while k < res.len()
        invariant
            k <= res.len(),
            sorted == keyed_view(res@),
            out@.map_values(|p: AppPackage| p@) == records(sorted.take(k as int)),
        decreases res.len() - k,
    {
        let e = res[k].1.duplicate();
        assert(sorted[k as int].1 == e@);
        let ghost before = out@;
        let ghost ev = e@;
        out.push(e);
        assert(out@.map_values(|p: AppPackage| p@) =~= before.map_values(|p: AppPackage| p@).push(ev));
        assert(records(sorted.take(k + 1)) =~= records(sorted.take(k as int)).push(sorted[k as int].1));
        k = k + 1;
    }
    assert(sorted.take(k as int) =~= sorted);
    out
}

/// Sorts records by label, ignoring case; records with equal labels keep
/// their order.
pub fn sort_by_label(items: &Vec<AppPackage>) -> (r: Vec<AppPackage>)
    ensures
        r@.map_values(|p: AppPackage| p@) == records(sort_spec(by_label(items@.map_values(|p: AppPackage| p@)))),
{
    let ghost iv = items@.map_values(|p: AppPackage| p@);
    let mut keyed: Vec<(Vec<char>, AppPackage)> = Vec::new();
    let mut i: usize = 0;
    while i < items.len()
        invariant
            i <= items.len(),
            iv == items@.map_values(|p: AppPackage| p@),
            keyed_view(keyed@) == by_label(iv.take(i as int)),
        decreases items.len() - i,
    {
        let p = items[i].duplicate();
        let key = chars_of(lowercase(p.label.as_str()).as_str());
        assert(iv[i as int] == p@);
        let ghost before = keyed@;
        let ghost kv = (key@, p@);
        keyed.push((key, p));
        assert(keyed_view(keyed@) =~= keyed_view(before).push(kv));
        assert(by_label(iv.take(i + 1)) =~= by_label(iv.take(i as int)).push((lower_of(iv[i as int].label), iv[i as int])));
        i = i + 1;
    }
    assert(iv.take(i as int) =~= iv);
    sort_by_keys(&keyed)
}

/// Adjacent keys are in order.
pub open spec fn keys_sorted(s: Seq<(Seq<char>, PackageView)>) -> bool {
    forall|i: int| 0 <= i < s.len() - 1 ==> lex_le(#[trigger] s[i].0, s[i + 1].0)
}

/// Any two keys are comparable.
pub proof fn lemma_lex_total(a: Seq<char>, b: Seq<char>)
    ensures
        lex_le(a, b) || lex_le(b, a),
    decreases a.len(),
{
    if a.len() > 0 && b.len() > 0 && a[0] == b[0] {
        lemma_lex_total(a.drop_first(), b.drop_first());
    }
}

proof fn lemma_insert_sorted_keeps_order(s: Seq<(Seq<char>, PackageView)>, x: (Seq<char>, PackageView))
    requires
        keys_sorted(s),
    ensures
        keys_sorted(insert_sorted(s, x)),
        insert_sorted(s, x).len() == s.len() + 1,
        insert_sorted(s, x).last() == x || (s.len() > 0 && insert_sorted(s, x).last() == s.last()),
    decreases s.len(),
{
    if s.len() == 0 || lex_le(s.last().0, x.0) {
        let r = s.push(x);
        assert forall|i: int| 0 <= i < r.len() - 1 implies lex_le(#[trigger] r[i].0, r[i + 1].0) by {
            if i < s.len() - 1 {
                assert(r[i] == s[i] && r[i + 1] == s[i + 1]);
            }
        }
    } else {
        let d = s.drop_last();
        assert(keys_sorted(d)) by {
            assert forall|i: int| 0 <= i < d.len() - 1 implies lex_le(#[trigger] d[i].0, d[i + 1].0) by {
                assert(d[i] == s[i] && d[i + 1] == s[i + 1]);
            }
        }
        lemma_insert_sorted_keeps_order(d, x);
        let m = insert_sorted(d, x);
        let r = m.push(s.last());
        lemma_lex_total(s.last().0, x.0);
        if d.len() > 0 && m.last() == d.last() {
            assert(d.last() == s[s.len() - 2]);
            assert(lex_le(s[s.len() - 2].0, s[s.len() - 1].0));
        }
        assert forall|i: int| 0 <= i < r.len() - 1 implies lex_le(#[trigger] r[i].0, r[i + 1].0) by {
            if i < m.len() - 1 {
                assert(r[i] == m[i] && r[i + 1] == m[i + 1]);
            } else {
                assert(r[i] == m.last());
            }
        }
    }
}

/// The stable sort puts every record in key order and keeps their number.
pub proof fn lemma_sort_orders_keys(s: Seq<(Seq<char>, PackageView)>)
    ensures
        keys_sorted(sort_spec(s)),
        sort_spec(s).len() == s.len(),
    decreases s.len(),
{
    if s.len() > 0 {
        lemma_sort_orders_keys(s.drop_last());
        lemma_insert_sorted_keeps_order(sort_spec(s.drop_last()), s.last());
    }
}

proof fn lemma_insert_sorted_multiset(s: Seq<(Seq<char>, PackageView)>, x: (Seq<char>, PackageView))
    ensures
        insert_sorted(s, x).to_multiset() == s.to_multiset().insert(x),
    decreases s.len(),
{
    broadcast use vstd::seq_lib::group_to_multiset_ensures;

    if s.len() == 0 || lex_le(s.last().0, x.0) {
    } else {
        let d = s.drop_last();
        lemma_insert_sorted_multiset(d, x);
        assert(s == d.push(s.last()));
        assert(insert_sorted(s, x).to_multiset() =~= d.to_multiset().insert(x).insert(s.last()));
        assert(s.to_multiset() =~= d.to_multiset().insert(s.last()));
    }
}

/// The stable sort keeps exactly the records it was given.
pub proof fn lemma_sort_keeps_records(s: Seq<(Seq<char>, PackageView)>)
    ensures
        sort_spec(s).to_multiset() == s.to_multiset(),
    decreases s.len(),
{
    broadcast use vstd::seq_lib::group_to_multiset_ensures;

    if s.len() == 0 {
        assert(sort_spec(s).to_multiset() =~= s.to_multiset());
    } else {
        let d = s.drop_last();
        lemma_sort_keeps_records(d);
        lemma_insert_sorted_multiset(sort_spec(d), s.last());
        assert(s == d.push(s.last()));
    }
}

} // verus!
