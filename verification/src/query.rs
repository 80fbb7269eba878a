//! The directory query pipeline: compile the directives, filter the
//! snapshot, slice the requested page.

use vstd::prelude::*;
use crate::criteria::{compile, compile_model, Directive, DirectiveModel};
use crate::entry::{EntryModel, Snapshot};
use crate::filter::{
    apply, filtered, lemma_exclusion_dominates, lemma_unconstrained_keeps_all, unconstrained,
};
use crate::paginate::{page_has_more, page_slice, paginate, PageModel, PageResult};
use crate::strutil::seq_intersects;

verus! {

/// What one directory query denotes: the directives compiled, the
/// snapshot filtered in order, the 1-based page sliced out.
pub open spec fn query_model(s: Seq<EntryModel>, ds: Seq<DirectiveModel>, page: int) -> PageModel {
    let f = filtered(s, compile_model(ds));
    PageModel { entries: page_slice(f, page), has_more: page_has_more(f, page) }
}

/// Evaluates one directory query against a snapshot. The function is
/// pure: the page is a function of snapshot, directives, and page number
/// alone, and the snapshot is never changed.
pub fn query_directory(snapshot: &Snapshot, directives: &Vec<Directive>, page: i64) -> (r:
    PageResult)
    ensures
        r@ == query_model(snapshot.entries.deep_view(), directives.deep_view(), page as int),
{
    let c = compile(directives);
    let kept = apply(&snapshot.entries, &c);
    paginate(&kept, page)
}

/// Identical queries over an unchanged snapshot yield identical pages.
pub proof fn lemma_query_idempotent(
    s: Seq<EntryModel>,
    ds: Seq<DirectiveModel>,
    page: int,
    r1: PageModel,
    r2: PageModel,
)
    requires
        r1 == query_model(s, ds, page),
        r2 == query_model(s, ds, page),
    ensures
        r1 == r2,
{
}

/// When the directives compile to empty criteria and no title text, the
/// query pages the whole snapshot, in its original order. An empty
/// directive list is the plainest such case.
pub proof fn lemma_empty_criteria_page_snapshot(
    s: Seq<EntryModel>,
    ds: Seq<DirectiveModel>,
    page: int,
)
    requires
        unconstrained(compile_model(ds)),
    ensures
        query_model(s, ds, page).entries == page_slice(s, page),
        query_model(s, ds, page).has_more == page_has_more(s, page),
{
    lemma_unconstrained_keeps_all(s, compile_model(ds));
}

/// An entry whose genre set intersects the compiled exclusion set is
/// absent from every page of every query over any snapshot, whatever the
/// inclusion sets hold.
pub proof fn lemma_excluded_entry_absent(
    s: Seq<EntryModel>,
    ds: Seq<DirectiveModel>,
    page: int,
    e: EntryModel,
)
    requires
        seq_intersects(e.genres, compile_model(ds).genre_excl),
    ensures
        !query_model(s, ds, page).entries.contains(e),
{
    let c = compile_model(ds);
    let f = filtered(s, c);
    lemma_exclusion_dominates(s, c, e);
    let entries = query_model(s, ds, page).entries;
    if entries.contains(e) {
        let k = choose|k: int| 0 <= k < entries.len() && entries[k] == e;
        let off = crate::paginate::page_offset(page);
        assert(f[off + k] == e);
        assert(f.contains(e));
    }
}

} // verus!
