//! The slug canonicalizer: maps an arbitrary external URL to a canonical
//! `{source}/{slug}` key through an ordered, host-specific decision
//! table. It never fails; an unrecognized shape passes through.

use vstd::prelude::*;
use vstd::string::{StrSliceExecFns, StringExecFns};
use crate::strutil::{
    contains_sub, has_sub, lemma_split_char_nonempty, lemma_split_char_segment_len,
    lemma_trim_end_char_len, lemma_trim_start_len, replace_seq, replace_str, split_all,
    split_char, trim_end_char, trim_end_matches_char, trim_start, trim_start_matches_str,
};

verus! {

/// URL-safe, unpadded base64 of a string's UTF-8 bytes. The alphabet is
/// the crate's business; the wrapper below is its sole source of truth.
pub uninterp spec fn b64_url_of(s: Seq<char>) -> Seq<char>;

/// Relies on base64::encode_config with URL_SAFE_NO_PAD: encodes the
/// input's bytes over the URL-safe alphabet without padding; the result
/// depends on the input alone. The length bound stays far below the
/// crate's buffer-size arithmetic overflow.
#[verifier::external_body]
pub fn base64_encode(s: &str) -> (r: String)
    requires
        s@.len() <= 0x1000_0000,
    ensures
        r@ == b64_url_of(s@),
{
    base64::encode_config(s, base64::URL_SAFE_NO_PAD)
}

/// A URL with its protocol scheme and trailing slashes stripped.
pub open spec fn normalized_query(url: Seq<char>) -> Seq<char> {
    trim_end_char(trim_start(trim_start(trim_start(url, "http"@), "s"@), "://"@), '/')
}

pub proof fn lemma_normalized_query_len(url: Seq<char>)
    ensures
        normalized_query(url).len() <= url.len(),
{
    let t1 = trim_start(url, "http"@);
    let t2 = trim_start(t1, "s"@);
    let t3 = trim_start(t2, "://"@);
    lemma_trim_start_len(url, "http"@);
    lemma_trim_start_len(t1, "s"@);
    lemma_trim_start_len(t2, "://"@);
    lemma_trim_end_char_len(t3, '/');
}

/// The decision table: the first matching rule of the normalized query
/// decides the canonical key; no rule means passthrough. Rules that
/// index path segments apply only when those segments exist, so the
/// mapping is total.
pub open spec fn canonical_of(url: Seq<char>) -> Seq<char> {
    let q = normalized_query(url);
    if has_sub(q, "imgur"@) && has_sub(replace_seq(q, "/a/"@, "/gallery/"@), "/gallery/"@) {
        "imgur/"@ + trim_start(
            trim_start(
                trim_start(
                    trim_start(trim_start(replace_seq(q, "/a/"@, "/gallery/"@), "m."@), "imgur"@),
                    ".com"@,
                ),
                ".io"@,
            ),
            "/gallery/"@,
        )
    } else if has_sub(q, "git.io"@) {
        "gist/"@ + trim_start(q, "git.io/"@)
    } else if has_sub(q, "gist.githubusercontent.com/"@) || (has_sub(q, "gist.github.com/"@)
        && has_sub(q, "raw"@)) {
        "gist/"@ + b64_url_of(
            "gist/"@ + trim_start(
                trim_start(q, "gist.githubusercontent.com/"@),
                "gist.github.com/"@,
            ),
        )
    } else if has_sub(q, "imgbox.com/g/"@) || has_sub(q, "readmanhwa.com"@) || has_sub(
        q,
        "nhentai.net/g/"@,
    ) {
        split_char(split_char(q, '/')[0], '.')[0] + "/"@ + split_char(q, '/').last()
    } else if has_sub(q, "mangasee123.com/manga"@) || has_sub(q, "manga4life.com/manga"@) {
        "mangasee/"@ + trim_start(
            trim_start(trim_start(trim_start(q, "manga"@), "see123"@), "4life"@),
            ".com/manga/"@,
        )
    } else if has_sub(q, "mangadex.org/title"@) && split_char(q, '/').len() >= 3 {
        "mangadex/"@ + split_char(q, '/')[2]
    } else if has_sub(q, "mangakatana"@) {
        split_char(split_char(q, '/')[0], '.')[0] + "/"@ + b64_url_of(q)
    } else if (has_sub(q, "assortedscans.com"@) || has_sub(q, "arc-relight.com"@)) && split_char(
        url,
        '/',
    ).len() >= 5 {
        "mangadventure/"@ + b64_url_of(
            trim_end_char(split_char(url, '/')[0], ':') + "/"@ + split_char(url, '/')[2] + "/"@
                + split_char(url, '/')[4],
        )
    } else if has_sub(q, "cubari.moe/read"@) && split_char(url, '/').len() >= 4 && split_char(
        trim_end_char(trim_start(q, "cubari.moe/read/"@), '/'),
        '/',
    ).len() >= 2 {
        let parts = split_char(trim_end_char(trim_start(q, "cubari.moe/read/"@), '/'), '/');
        parts[0] + "/"@ + parts[1]
    } else {
        q
    }
}

/// Canonicalizes an external URL into a `{source}/{slug}` key by the
/// decision table above. Lenient by design: it always succeeds, and an
/// unrecognized URL comes back as its own normalized query.
pub fn url_to_slug(url: &str) -> (r: String)
    requires
        url@.len() <= 0x100_0000,
    ensures
        r@ == canonical_of(url@),
{
    let q = trim_end_matches_char(
        trim_start_matches_str(trim_start_matches_str(trim_start_matches_str(url, "http"), "s"), "://"),
        '/',
    );
    proof {
        lemma_normalized_query_len(url@);
    }
    proof {
        reveal_strlit("/a/");
    }
    let imgur_rep = replace_str(q, "/a/", "/gallery/");
    let segs_q = split_all(q, '/');
    let url_parts = split_all(url, '/');
    proof {
        lemma_split_char_nonempty(q@, '/');
    }
    if contains_sub(q, "imgur") && contains_sub(imgur_rep.as_str(), "/gallery/") {
        let t = trim_start_matches_str(imgur_rep.as_str(), "m.");
        let t = trim_start_matches_str(t, "imgur");
        let t = trim_start_matches_str(t, ".com");
        let t = trim_start_matches_str(t, ".io");
        let t = trim_start_matches_str(t, "/gallery/");
        let mut out = String::from_str("imgur/");
        out.append(t);
        out
    } else if contains_sub(q, "git.io") {
        let t = trim_start_matches_str(q, "git.io/");
        let mut out = String::from_str("gist/");
        out.append(t);
        out
    } else if contains_sub(q, "gist.githubusercontent.com/") || (contains_sub(
        q,
        "gist.github.com/",
    ) && contains_sub(q, "raw")) {
        let t = trim_start_matches_str(
            trim_start_matches_str(q, "gist.githubusercontent.com/"),
            "gist.github.com/",
        );
        let mut inner = String::from_str("gist/");
        inner.append(t);
        proof {
            reveal_strlit("gist/");
            lemma_trim_start_len(q@, "gist.githubusercontent.com/"@);
            lemma_trim_start_len(
                trim_start(q@, "gist.githubusercontent.com/"@),
                "gist.github.com/"@,
            );
        }
        let enc = base64_encode(inner.as_str());
        let mut out = String::from_str("gist/");
        out.append(enc.as_str());
        out
    } else if contains_sub(q, "imgbox.com/g/") || contains_sub(q, "readmanhwa.com") || contains_sub(
        q,
        "nhentai.net/g/",
    ) {
        let host = &segs_q[0];
        proof {
            assert(segs_q.deep_view()[0] == segs_q@[0]@);
            lemma_split_char_nonempty(host@, '.');
        }
        let host_parts = split_all(host.as_str(), '.');
        let mut out = host_parts[0].clone();
        proof {
            assert(host_parts.deep_view()[0] == host_parts@[0]@);
            assert(segs_q.deep_view().last() == segs_q@[segs_q@.len() - 1]@);
        }
        out.append("/");
        out.append(segs_q[segs_q.len() - 1].as_str());
        out
    } else if contains_sub(q, "mangasee123.com/manga") || contains_sub(q, "manga4life.com/manga") {
        let t = trim_start_matches_str(q, "manga");
        let t = trim_start_matches_str(t, "see123");
        let t = trim_start_matches_str(t, "4life");
        let t = trim_start_matches_str(t, ".com/manga/");
        let mut out = String::from_str("mangasee/");
        out.append(t);
        out
    } else if contains_sub(q, "mangadex.org/title") && segs_q.len() >= 3 {
        proof {
            assert(segs_q.deep_view()[2] == segs_q@[2]@);
        }
        let mut out = String::from_str("mangadex/");
        out.append(segs_q[2].as_str());
        out
    } else if contains_sub(q, "mangakatana") {
        let host = &segs_q[0];
        proof {
            assert(segs_q.deep_view()[0] == segs_q@[0]@);
            lemma_split_char_nonempty(host@, '.');
        }
        let host_parts = split_all(host.as_str(), '.');
        let mut out = host_parts[0].clone();
        proof {
            assert(host_parts.deep_view()[0] == host_parts@[0]@);
        }
        let enc = base64_encode(q);
        out.append("/");
        out.append(enc.as_str());
        out
    } else if (contains_sub(q, "assortedscans.com") || contains_sub(q, "arc-relight.com"))
        && url_parts.len() >= 5 {
        proof {
            assert(url_parts.deep_view()[0] == url_parts@[0]@);
            assert(url_parts.deep_view()[2] == url_parts@[2]@);
            assert(url_parts.deep_view()[4] == url_parts@[4]@);
            lemma_split_char_segment_len(url@, '/');
        }
        let p0 = trim_end_matches_char(url_parts[0].as_str(), ':');
        proof {
            lemma_trim_end_char_len(url_parts.deep_view()[0], ':');
        }
        let mut inner = p0.to_owned();
        inner.append("/");
        inner.append(url_parts[2].as_str());
        inner.append("/");
        inner.append(url_parts[4].as_str());
        proof {
            reveal_strlit("/");
        }
        let enc = base64_encode(inner.as_str());
        let mut out = String::from_str("mangadventure/");
        out.append(enc.as_str());
        out
    } else {
        let cub = trim_end_matches_char(trim_start_matches_str(q, "cubari.moe/read/"), '/');
        let cub_parts = split_all(cub, '/');
        if contains_sub(q, "cubari.moe/read") && url_parts.len() >= 4 && cub_parts.len() >= 2 {
            proof {
                assert(cub_parts.deep_view()[0] == cub_parts@[0]@);
                assert(cub_parts.deep_view()[1] == cub_parts@[1]@);
            }
            let mut out = cub_parts[0].clone();
            out.append("/");
            out.append(cub_parts[1].as_str());
            out
        } else {
            q.to_owned()
        }
    }
}

/// Rewrites an image-box thumbnail URL to its full-size form; any other
/// URL passes through unchanged.
pub fn img_url_handler(url: String) -> (r: String)
    ensures
        r@ == if has_sub(url@, ".imgbox.com"@) {
            replace_seq(url@, "thumbs"@, "images"@)
        } else {
            url@
        },
{
    if contains_sub(url.as_str(), ".imgbox.com") {
        proof {
            reveal_strlit("thumbs");
        }
        replace_str(url.as_str(), "thumbs", "images")
    } else {
        url
    }
}

} // verus!
