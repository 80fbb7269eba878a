//! The filter engine: evaluates each catalog entry against compiled
//! criteria and produces a filtered, order-preserving subsequence. The
//! filter is pure; it never mutates the snapshot.

use vstd::prelude::*;
use crate::criteria::{CriteriaModel, FilterCriteria, Tri};
use crate::entry::{status_name_of, CatalogEntry, EntryModel};
use crate::strutil::{
    contains_sub, has_sub, lower_of, lowercase, seq_intersects, vec_contains_string,
    vecs_intersect,
};

verus! {

/// Whether a boolean facet flag satisfies a tri-state constraint.
pub open spec fn tri_ok(t: Tri, b: bool) -> bool {
    match t {
        Tri::Unset => true,
        Tri::No => !b,
        Tri::Yes => b,
    }
}

pub fn tri_allows(t: Tri, b: bool) -> (r: bool)
    ensures
        r == tri_ok(t, b),
{
    match t {
        Tri::Unset => true,
        Tri::No => !b,
        Tri::Yes => b,
    }
}

/// The predicate of the engine: an entry is kept when every criterion
/// passes — title substring, single-valued facet membership (demographic
/// and status), genre any-of inclusion and intersection-free exclusion,
/// and each tri-state flag.
pub open spec fn entry_matches(e: EntryModel, c: CriteriaModel) -> bool {
    &&& (c.title.len() == 0 || has_sub(lower_of(e.title), c.title))
    &&& (c.demographic_incl.len() == 0 || c.demographic_incl.contains(e.demographic))
    &&& !c.demographic_excl.contains(e.demographic)
    &&& (c.status_incl.len() == 0 || c.status_incl.contains(status_name_of(e.status)))
    &&& !c.status_excl.contains(status_name_of(e.status))
    &&& (c.genre_incl.len() == 0 || seq_intersects(e.genres, c.genre_incl))
    &&& !seq_intersects(e.genres, c.genre_excl)
    &&& tri_ok(c.recent, e.is_recent)
    &&& tri_ok(c.fresh, e.is_new)
    &&& tri_ok(c.exclusive, e.is_exclusive)
}

/// A single-valued facet passes when the inclusion set is empty or holds
/// the value, and the exclusion set does not hold it.
pub fn incl_excl_check(item: &String, incl: &Vec<String>, excl: &Vec<String>) -> (r: bool)
    ensures
        r == ((incl.deep_view().len() == 0 || incl.deep_view().contains(item@))
            && !excl.deep_view().contains(item@)),
{
    if incl.len() > 0 && !vec_contains_string(incl, item) {
        return false;
    }
    if excl.len() > 0 && vec_contains_string(excl, item) {
        return false;
    }
    true
}

/// Evaluates the predicate, rejecting on the first failing criterion.
pub fn entry_passes(e: &CatalogEntry, c: &FilterCriteria) -> (r: bool)
    ensures
        r == entry_matches(e@, c@),
{
    if !c.title_query.as_str().is_empty() {
        let lowered = lowercase(e.title.as_str());
        if !contains_sub(lowered.as_str(), c.title_query.as_str()) {
            return false;
        }
    }
    if !incl_excl_check(&e.demographic, &c.demographic_incl, &c.demographic_excl) {
        return false;
    }
    let sname = e.status.name();
    if !incl_excl_check(&sname, &c.status_incl, &c.status_excl) {
        return false;
    }
    if c.genre_incl.len() > 0 && !vecs_intersect(&e.genres, &c.genre_incl) {
        return false;
    }
    if vecs_intersect(&e.genres, &c.genre_excl) {
        return false;
    }
    if !tri_allows(c.recent, e.is_recent) {
        return false;
    }
    if !tri_allows(c.fresh, e.is_new) {
        return false;
    }
    if !tri_allows(c.exclusive, e.is_exclusive) {
        return false;
    }
    true
}

/// The order-preserving subsequence of entries that match the criteria.
pub open spec fn filtered(s: Seq<EntryModel>, c: CriteriaModel) -> Seq<EntryModel>
    decreases s.len(),
{
    if s.len() == 0 {
        Seq::empty()
    } else {
        let rest = filtered(s.drop_last(), c);
        if entry_matches(s.last(), c) {
            rest.push(s.last())
        } else {
            rest
        }
    }
}

/// Applies the compiled criteria to a snapshot's entries, returning the
/// matching entries in their original order; the input is not changed.
pub fn apply(entries: &Vec<CatalogEntry>, c: &FilterCriteria) -> (r: Vec<CatalogEntry>)
    ensures
        r.deep_view() == filtered(entries.deep_view(), c@),
{
    let ghost dv = entries.deep_view();
    let mut out: Vec<CatalogEntry> = Vec::new();
    let mut i: usize = 0;
    proof {
        assert(dv.take(0) =~= Seq::<EntryModel>::empty());
        assert(out.deep_view() =~= Seq::<EntryModel>::empty());
    }
    while i < entries.len()
        invariant
            i <= entries.len(),
            dv == entries.deep_view(),
            dv.len() == entries@.len(),
            out.deep_view() == filtered(dv.take(i as int), c@),
        decreases entries.len() - i,
    {
        proof {
            assert(dv.take(i + 1).drop_last() =~= dv.take(i as int));
            assert(dv.take(i + 1).last() == dv[i as int]);
        }
        if entry_passes(&entries[i], c) {
            let ghost pre = out.deep_view();
            out.push(entries[i].clone());
            proof {
                assert(out.deep_view() =~= pre.push(dv[i as int]));
            }
        }
        i += 1;
    }
    proof {
        assert(dv.take(entries@.len() as int) =~= dv);
    }
    out
}

/// Everything the filter keeps comes from the input and matches the
/// criteria.
pub proof fn lemma_filtered_elems(s: Seq<EntryModel>, c: CriteriaModel)
    ensures
        forall|k: int|
            0 <= k < filtered(s, c).len() ==> s.contains(#[trigger] filtered(s, c)[k])
                && entry_matches(filtered(s, c)[k], c),
    decreases s.len(),
{
    if s.len() > 0 {
        lemma_filtered_elems(s.drop_last(), c);
        let rest = filtered(s.drop_last(), c);
        assert forall|k: int|
            0 <= k < filtered(s, c).len() implies s.contains(#[trigger] filtered(s, c)[k])
            && entry_matches(filtered(s, c)[k], c) by {
            if k < rest.len() {
                assert(filtered(s, c)[k] == rest[k]);
                let j = choose|j: int| 0 <= j < s.drop_last().len() && s.drop_last()[j] == rest[k];
                assert(s[j] == rest[k]);
            } else {
                assert(filtered(s, c)[k] == s.last());
                assert(s[s.len() - 1] == s.last());
            }
        }
    }
}

/// Exclusion dominates inclusion: an entry whose genre set intersects the
/// exclusion set is absent from every filter result, whatever the
/// inclusion set holds.
pub proof fn lemma_exclusion_dominates(s: Seq<EntryModel>, c: CriteriaModel, e: EntryModel)
    requires
        seq_intersects(e.genres, c.genre_excl),
    ensures
        !entry_matches(e, c),
        !filtered(s, c).contains(e),
{
    lemma_filtered_elems(s, c);
    if filtered(s, c).contains(e) {
        let k = choose|k: int| 0 <= k < filtered(s, c).len() && filtered(s, c)[k] == e;
        assert(entry_matches(filtered(s, c)[k], c));
    }
}

/// Criteria that constrain nothing: no title text, empty inclusion and
/// exclusion sets, every tri-state unset.
pub open spec fn unconstrained(c: CriteriaModel) -> bool {
    &&& c.title.len() == 0
    &&& c.demographic_incl.len() == 0
    &&& c.demographic_excl.len() == 0
    &&& c.status_incl.len() == 0
    &&& c.status_excl.len() == 0
    &&& c.genre_incl.len() == 0
    &&& c.genre_excl.len() == 0
    &&& c.recent == Tri::Unset
    &&& c.fresh == Tri::Unset
    &&& c.exclusive == Tri::Unset
}

/// Unconstrained criteria keep the whole snapshot, in order.
pub proof fn lemma_unconstrained_keeps_all(s: Seq<EntryModel>, c: CriteriaModel)
    requires
        unconstrained(c),
    ensures
        filtered(s, c) == s,
    decreases s.len(),
{
    if s.len() > 0 {
        lemma_unconstrained_keeps_all(s.drop_last(), c);
        assert(entry_matches(s.last(), c));
        assert(s.drop_last().push(s.last()) =~= s);
    }
}

} // verus!
