//! Behaviour of the smaller helpers: status mapping, URL encoding,
//! facet checks, caches, and the build-id data link.

use catalog_dir::cache::{get_data_href, KeyedCache, SnapshotCache};
use catalog_dir::encode::urlencode;
use catalog_dir::entry::{status_map, CatalogEntry, Snapshot, Status};
use catalog_dir::filter::incl_excl_check;
use catalog_dir::record::{cubari_guide, ContentRating, Viewer};

#[test]
fn status_map_covers_the_site_vocabulary() {
    assert_eq!(status_map("Ongoing"), Status::Ongoing);
    assert_eq!(status_map("Dropped"), Status::Cancelled);
    assert_eq!(status_map("Completed"), Status::Completed);
    assert_eq!(status_map("Hiatus"), Status::Hiatus);
    assert_eq!(status_map("???"), Status::Unknown);
    assert_eq!(status_map(""), Status::Unknown);
}

#[test]
fn status_names_round_trip() {
    assert_eq!(status_map(Status::Ongoing.name().as_str()), Status::Ongoing);
    assert_eq!(Status::Cancelled.name(), "Cancelled");
}

#[test]
fn urlencode_keeps_alphanumerics() {
    assert_eq!(urlencode(String::from("abcXYZ019")), "abcXYZ019");
}

#[test]
fn urlencode_escapes_everything_else() {
    assert_eq!(urlencode(String::from("a b")), "a%20b");
    assert_eq!(urlencode(String::from("a/b?c")), "a%2fb%3fc");
    assert_eq!(urlencode(String::from("é")), "%c3%a9");
    assert_eq!(urlencode(String::new()), "");
}

#[test]
fn incl_excl_check_is_lenient_when_empty() {
    let item = String::from("Action");
    assert!(incl_excl_check(&item, &Vec::new(), &Vec::new()));
    assert!(incl_excl_check(&item, &vec![String::from("Action")], &Vec::new()));
    assert!(!incl_excl_check(&item, &vec![String::from("Drama")], &Vec::new()));
    assert!(!incl_excl_check(&item, &vec![String::from("Action")], &vec![String::from("Action")]));
}

#[test]
fn snapshot_cache_fills_once() {
    let mut cache = SnapshotCache::new();
    assert!(cache.get().is_none());
    cache.fill(Snapshot::new(Vec::new()));
    match cache.get() {
        Some(s) => assert!(s.entries.is_empty()),
        None => panic!("snapshot should be cached"),
    }
}

#[test]
fn keyed_cache_holds_only_the_latest_key() {
    let mut cache: KeyedCache<String> = KeyedCache::new();
    assert!(cache.lookup("a").is_none());
    cache.store(String::from("a"), String::from("doc-a"));
    assert_eq!(cache.lookup("a"), Some(&String::from("doc-a")));
    assert!(cache.lookup("b").is_none());
    cache.store(String::from("b"), String::from("doc-b"));
    assert!(cache.lookup("a").is_none());
    assert_eq!(cache.lookup("b"), Some(&String::from("doc-b")));
}

#[test]
fn data_href_needs_a_build_id() {
    assert_eq!(get_data_href(&None, "/comics.json"), None);
    assert_eq!(
        get_data_href(&Some(String::from("BUILD1")), "/comics.json"),
        Some(String::from("https://beta.asurascans.com/_next/data/BUILD1/comics.json"))
    );
}

#[test]
fn the_guide_record_is_fixed() {
    let guide = cubari_guide();
    assert_eq!(guide.id, "aidoku/guide");
    assert_eq!(guide.title, "Cubari Guide");
    assert!(guide.author.is_empty());
    assert!(guide.categories.is_empty());
    assert_eq!(guide.status, Status::Unknown);
    assert_eq!(guide.nsfw, ContentRating::Safe);
    assert_eq!(guide.viewer, Viewer::Rtl);
}

#[test]
fn entries_clone_deeply() {
    let e = CatalogEntry {
        id: String::from("x"),
        title: String::from("X"),
        status: Status::Ongoing,
        demographic: String::from("Shonen"),
        genres: vec![String::from("Action")],
        is_recent: true,
        is_new: false,
        is_exclusive: false,
    };
    let copy = e.clone();
    assert_eq!(copy, e);
}
