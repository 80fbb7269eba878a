//! Behaviour of the raw-entry parser: required fields, id fallback, and
//! per-entry tolerance.

use catalog_dir::entry::Status;
use catalog_dir::parse::{i64_dec_string, parse_entries, parse_entry, ParseError, RawEntry};
use catalog_dir::record::{ContentRating, Viewer};

fn raw(slug: &str, numeric_id: Option<i64>, seriesid: Option<&str>) -> RawEntry {
    RawEntry {
        slug: Some(String::from(slug)),
        numeric_id,
        seriesid: seriesid.map(String::from),
        title: Some(String::from("Solo Leveling")),
        image: Some(String::from("https://img.example/cover.jpg")),
        status: Some(String::from("Dropped")),
        author: None,
        description: Some(String::from("desc")),
        genres: vec![String::from("Action"), String::from("Fantasy")],
    }
}

#[test]
fn integers_print_in_decimal() {
    assert_eq!(i64_dec_string(0), "0");
    assert_eq!(i64_dec_string(7), "7");
    assert_eq!(i64_dec_string(1203), "1203");
    assert_eq!(i64_dec_string(-45), "-45");
    assert_eq!(i64_dec_string(i64::MIN), "-9223372036854775808");
}

#[test]
fn numeric_id_forms_the_record_id() {
    let m = parse_entry(&raw("solo-leveling", Some(77), None)).unwrap();
    assert_eq!(m.id, "77-solo-leveling");
    assert_eq!(m.url, "https://beta.asurascans.com/comics/77-solo-leveling");
    assert_eq!(m.title, "Solo Leveling");
    assert_eq!(m.cover, "https://img.example/cover.jpg");
    assert_eq!(m.status, Status::Cancelled);
    assert_eq!(m.author, "");
    assert_eq!(m.artist, "");
    assert_eq!(m.description, "desc");
    assert_eq!(m.categories, vec!["Action", "Fantasy"]);
    assert_eq!(m.nsfw, ContentRating::Safe);
    assert_eq!(m.viewer, Viewer::Scroll);
}

#[test]
fn textual_id_is_the_fallback() {
    let m = parse_entry(&raw("solo-leveling", None, Some("sl"))).unwrap();
    assert_eq!(m.id, "sl-solo-leveling");
    let both = parse_entry(&raw("solo-leveling", Some(9), Some("sl"))).unwrap();
    assert_eq!(both.id, "9-solo-leveling");
}

#[test]
fn missing_required_fields_are_errors() {
    let mut no_slug = raw("x", Some(1), None);
    no_slug.slug = None;
    assert_eq!(parse_entry(&no_slug), Err(ParseError::MissingField));
    let no_ids = raw("x", None, None);
    assert_eq!(parse_entry(&no_ids), Err(ParseError::MissingField));
    let mut no_title = raw("x", Some(1), None);
    no_title.title = None;
    assert_eq!(parse_entry(&no_title), Err(ParseError::MissingField));
}

#[test]
fn a_malformed_entry_is_skipped_alone() {
    let good = raw("a", Some(1), None);
    let mut bad = raw("b", Some(2), None);
    bad.image = None;
    let also_good = raw("c", None, Some("cc"));
    let records = parse_entries(&vec![good, bad, also_good]);
    let ids: Vec<&str> = records.iter().map(|m| m.id.as_str()).collect();
    assert_eq!(ids, vec!["1-a", "cc-c"]);
}
