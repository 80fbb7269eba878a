//! Behaviour of the directory pipeline: compiling directives, filtering
//! a snapshot, and paginating the result.

use catalog_dir::criteria::{compile, Directive, Facet, Tri, TriFacet};
use catalog_dir::entry::{CatalogEntry, Snapshot, Status};
use catalog_dir::filter::{apply, entry_passes};
use catalog_dir::paginate::paginate;
use catalog_dir::query::query_directory;

fn entry(id: &str, title: &str, demographic: &str, genres: &[&str]) -> CatalogEntry {
    CatalogEntry {
        id: String::from(id),
        title: String::from(title),
        status: Status::Ongoing,
        demographic: String::from(demographic),
        genres: genres.iter().map(|g| String::from(*g)).collect(),
        is_recent: false,
        is_new: false,
        is_exclusive: false,
    }
}

fn numbered_snapshot(n: usize) -> Snapshot {
    let mut entries = Vec::new();
    for i in 0..n {
        entries.push(entry(&format!("e{i}"), &format!("Title {i}"), "Shonen", &["Action"]));
    }
    Snapshot::new(entries)
}

fn tag_on(facet: Facet, id: &str) -> Directive {
    Directive::MultiValuedTag { facet, id: String::from(id), value: 1 }
}

fn tag_off(facet: Facet, id: &str) -> Directive {
    Directive::MultiValuedTag { facet, id: String::from(id), value: 0 }
}

fn ids(page: &catalog_dir::paginate::PageResult) -> Vec<String> {
    page.entries.iter().map(|e| e.id.clone()).collect()
}

#[test]
fn empty_criteria_return_all_in_order() {
    let snapshot = numbered_snapshot(3);
    let page = query_directory(&snapshot, &Vec::new(), 1);
    assert_eq!(ids(&page), vec!["e0", "e1", "e2"]);
    assert!(!page.has_more);
}

#[test]
fn page_length_follows_the_clamp_formula() {
    let snapshot = numbered_snapshot(25);
    let none: Vec<Directive> = Vec::new();
    let p1 = query_directory(&snapshot, &none, 1);
    assert_eq!(p1.entries.len(), 12);
    assert_eq!(ids(&p1)[0], "e0");
    assert!(p1.has_more);
    let p2 = query_directory(&snapshot, &none, 2);
    assert_eq!(p2.entries.len(), 12);
    assert_eq!(ids(&p2)[0], "e12");
    assert!(p2.has_more);
    let p3 = query_directory(&snapshot, &none, 3);
    assert_eq!(ids(&p3), vec!["e24"]);
    assert!(!p3.has_more);
    let p4 = query_directory(&snapshot, &none, 4);
    assert!(p4.entries.is_empty());
    assert!(!p4.has_more);
}

#[test]
fn pages_below_one_clamp_to_the_start() {
    let snapshot = numbered_snapshot(13);
    let none: Vec<Directive> = Vec::new();
    let p0 = query_directory(&snapshot, &none, 0);
    assert_eq!(p0.entries.len(), 12);
    assert_eq!(ids(&p0)[0], "e0");
    assert!(p0.has_more);
    let pneg = query_directory(&snapshot, &none, -7);
    assert_eq!(ids(&pneg), ids(&p0));
}

#[test]
fn identical_queries_yield_identical_pages() {
    let snapshot = numbered_snapshot(25);
    let directives = vec![tag_on(Facet::Genre, "Action"), Directive::FreeText {
        text: String::from("Title"),
    }];
    let first = query_directory(&snapshot, &directives, 2);
    let second = query_directory(&snapshot, &directives, 2);
    assert_eq!(first, second);
}

#[test]
fn demographic_inclusion_keeps_and_rejects() {
    let shonen = entry("a", "A", "Shonen", &[]);
    let keep = compile(&vec![tag_on(Facet::Demographic, "Shonen")]);
    assert!(entry_passes(&shonen, &keep));
    let reject = compile(&vec![tag_on(Facet::Demographic, "Seinen")]);
    assert!(!entry_passes(&shonen, &reject));
}

#[test]
fn genre_exclusion_dominates_inclusion() {
    let e = entry("a", "A", "Shonen", &["Action", "Romance"]);
    let c = compile(&vec![tag_on(Facet::Genre, "Action"), tag_off(Facet::Genre, "Romance")]);
    assert!(!entry_passes(&e, &c));
    let snapshot = Snapshot::new(vec![
        entry("a", "A", "Shonen", &["Action", "Romance"]),
        entry("b", "B", "Shonen", &["Action"]),
    ]);
    let page = query_directory(
        &snapshot,
        &vec![tag_on(Facet::Genre, "Action"), tag_off(Facet::Genre, "Romance")],
        1,
    );
    assert_eq!(ids(&page), vec!["b"]);
}

#[test]
fn genre_inclusion_is_any_of() {
    let e = entry("a", "A", "Shonen", &["Romance", "Drama"]);
    let c = compile(&vec![tag_on(Facet::Genre, "Action"), tag_on(Facet::Genre, "Drama")]);
    assert!(entry_passes(&e, &c));
}

#[test]
fn status_facet_filters_by_canonical_name() {
    let mut e = entry("a", "A", "Shonen", &[]);
    e.status = Status::Completed;
    let keep = compile(&vec![tag_on(Facet::Status, "Completed")]);
    assert!(entry_passes(&e, &keep));
    let reject = compile(&vec![tag_off(Facet::Status, "Completed")]);
    assert!(!entry_passes(&e, &reject));
}

#[test]
fn title_query_is_a_lowercased_substring_match() {
    let e = entry("a", "Solo Leveling", "Shonen", &[]);
    let keep = compile(&vec![Directive::FreeText { text: String::from("LEVEL") }]);
    assert_eq!(keep.title_query, "level");
    assert!(entry_passes(&e, &keep));
    let reject = compile(&vec![Directive::FreeText { text: String::from("punpun") }]);
    assert!(!entry_passes(&e, &reject));
}

#[test]
fn last_free_text_directive_wins() {
    let c = compile(&vec![
        Directive::FreeText { text: String::from("first") },
        Directive::FreeText { text: String::from("Second") },
    ]);
    assert_eq!(c.title_query, "second");
}

#[test]
fn out_of_range_toggle_values_are_ignored() {
    let c = compile(&vec![Directive::MultiValuedTag {
        facet: Facet::Genre,
        id: String::from("Action"),
        value: 2,
    }, Directive::Other]);
    assert!(c.genre_incl.is_empty());
    assert!(c.genre_excl.is_empty());
}

#[test]
fn boolean_facets_compile_to_tri_states() {
    let c = compile(&vec![
        Directive::BooleanFacet { facet: TriFacet::Recent, value: 1 },
        Directive::BooleanFacet { facet: TriFacet::New, value: 0 },
        Directive::BooleanFacet { facet: TriFacet::Exclusive, value: 9 },
    ]);
    assert_eq!(c.recent, Tri::Yes);
    assert_eq!(c.fresh, Tri::No);
    assert_eq!(c.exclusive, Tri::Unset);
}

#[test]
fn tri_state_flags_constrain_entries() {
    let mut e = entry("a", "A", "Shonen", &[]);
    e.is_recent = true;
    let want_recent = compile(&vec![Directive::BooleanFacet { facet: TriFacet::Recent, value: 1 }]);
    assert!(entry_passes(&e, &want_recent));
    let want_stale = compile(&vec![Directive::BooleanFacet { facet: TriFacet::Recent, value: 0 }]);
    assert!(!entry_passes(&e, &want_stale));
    let unset = compile(&vec![Directive::BooleanFacet { facet: TriFacet::Recent, value: -1 }]);
    assert!(entry_passes(&e, &unset));
}

#[test]
fn filtering_preserves_order_and_input() {
    let entries = vec![
        entry("a", "A", "Shonen", &["Action"]),
        entry("b", "B", "Seinen", &["Drama"]),
        entry("c", "C", "Shonen", &["Action"]),
    ];
    let snapshot = Snapshot::new(entries);
    let c = compile(&vec![tag_on(Facet::Demographic, "Shonen")]);
    let kept = apply(&snapshot.entries, &c);
    let kept_ids: Vec<&str> = kept.iter().map(|e| e.id.as_str()).collect();
    assert_eq!(kept_ids, vec!["a", "c"]);
    assert_eq!(snapshot.entries.len(), 3);
}

#[test]
fn paginate_reports_has_more_exactly() {
    let snapshot = numbered_snapshot(12);
    let page = paginate(&snapshot.entries, 1);
    assert_eq!(page.entries.len(), 12);
    assert!(!page.has_more);
    let snapshot13 = numbered_snapshot(13);
    let page13 = paginate(&snapshot13.entries, 1);
    assert!(page13.has_more);
}
