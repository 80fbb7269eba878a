//! Behaviour of the slug canonicalizer's decision table, rule by rule.

use catalog_dir::slug::{img_url_handler, url_to_slug};

#[test]
fn mangadex_title_uses_third_segment() {
    assert_eq!(
        url_to_slug("https://mangadex.org/title/abcd-1234/some-title"),
        "mangadex/abcd-1234"
    );
}

#[test]
fn git_io_maps_to_gist() {
    assert_eq!(url_to_slug("https://git.io/shortcode"), "gist/shortcode");
}

#[test]
fn cubari_read_takes_source_and_slug() {
    assert_eq!(url_to_slug("https://cubari.moe/read/source1/slug1/"), "source1/slug1");
}

#[test]
fn imgur_album_maps_to_gallery_slug() {
    assert_eq!(url_to_slug("https://imgur.com/a/xyz"), "imgur/xyz");
}

#[test]
fn unmatched_url_passes_through() {
    assert_eq!(url_to_slug("https://example.org/foo"), "example.org/foo");
}

#[test]
fn imgur_mobile_host_is_stripped() {
    assert_eq!(url_to_slug("https://m.imgur.com/a/xyz"), "imgur/xyz");
    assert_eq!(url_to_slug("https://imgur.com/gallery/abc"), "imgur/abc");
}

#[test]
fn gist_raw_url_is_base64_wrapped() {
    assert_eq!(
        url_to_slug("https://gist.githubusercontent.com/user/abc/raw/file.json"),
        "gist/Z2lzdC91c2VyL2FiYy9yYXcvZmlsZS5qc29u"
    );
}

#[test]
fn gist_web_url_needs_the_raw_marker() {
    assert_eq!(
        url_to_slug("https://gist.github.com/user/abc/raw"),
        "gist/Z2lzdC91c2VyL2FiYy9yYXc"
    );
    assert_eq!(url_to_slug("https://gist.github.com/user/abc"), "gist.github.com/user/abc");
}

#[test]
fn last_segment_sources_take_last_path_segment() {
    assert_eq!(url_to_slug("https://imgbox.com/g/AbCd"), "imgbox/AbCd");
    assert_eq!(url_to_slug("https://nhentai.net/g/123456"), "nhentai/123456");
    assert_eq!(
        url_to_slug("https://readmanhwa.com/en/webtoon/some-slug"),
        "readmanhwa/some-slug"
    );
}

#[test]
fn mangasee_aliases_collapse() {
    assert_eq!(
        url_to_slug("https://mangasee123.com/manga/Oyasumi-Punpun"),
        "mangasee/Oyasumi-Punpun"
    );
    assert_eq!(url_to_slug("https://manga4life.com/manga/Oyasumi-Punpun"), "mangasee/Oyasumi-Punpun");
}

#[test]
fn mangakatana_encodes_whole_query() {
    assert_eq!(
        url_to_slug("https://mangakatana.com/manga/solo-leveling"),
        "mangakatana/bWFuZ2FrYXRhbmEuY29tL21hbmdhL3NvbG8tbGV2ZWxpbmc"
    );
}

#[test]
fn mangadventure_encodes_scheme_host_and_slug() {
    assert_eq!(
        url_to_slug("https://assortedscans.com/reader/s1/5"),
        "mangadventure/aHR0cHMvYXNzb3J0ZWRzY2Fucy5jb20vczE"
    );
}

#[test]
fn mangadex_without_slug_segment_passes_through() {
    assert_eq!(url_to_slug("https://mangadex.org/title"), "mangadex.org/title");
}

#[test]
fn scheme_and_trailing_slash_are_normalized_away() {
    assert_eq!(url_to_slug("http://example.org/foo/"), "example.org/foo");
    assert_eq!(url_to_slug("example.org/bar"), "example.org/bar");
}

#[test]
fn imgbox_thumbs_become_images() {
    assert_eq!(
        img_url_handler(String::from("https://thumbs2.imgbox.com/aa/bb/thumbs_x.jpg")),
        "https://images2.imgbox.com/aa/bb/images_x.jpg"
    );
}

#[test]
fn other_image_urls_pass_through() {
    assert_eq!(
        img_url_handler(String::from("https://cdn.example.org/thumbs/x.jpg")),
        "https://cdn.example.org/thumbs/x.jpg"
    );
}
