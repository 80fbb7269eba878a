//! Assembles a full manga record from the plain decoded fields of one
//! directory entry. The document reader only splits the raw JSON into
//! optional plain values; which fields are required, how the two id
//! spellings fall back on one another, and how the id and URL are formed
//! is decided — and verified — here.

use vstd::prelude::*;
use vstd::string::{StrSliceExecFns, StringExecFns};
use crate::entry::{status_of_str, status_map};
use crate::record::{ContentRating, MangaRecord, RecordModel, Viewer};
use crate::entry::clone_string_vec;

verus! {

/// The plain decoded fields of one directory entry, as the host's
/// document reader hands them over; a field the document lacks is None.
pub struct RawEntry {
    pub slug: Option<String>,
    pub numeric_id: Option<i64>,
    pub seriesid: Option<String>,
    pub title: Option<String>,
    pub image: Option<String>,
    pub status: Option<String>,
    pub author: Option<String>,
    pub description: Option<String>,
    pub genres: Vec<String>,
}

/// A raw entry that lacks a required field cannot become a record.
#[derive(Clone, Copy, Debug, PartialEq, Eq, Structural)]
pub enum ParseError {
    MissingField,
}

/// The decimal digit character of a value below ten.
pub open spec fn digit_char(n: nat) -> char {
    ((48 + n) as u8) as char
}

/// The decimal numeral of a natural number, most significant digit
/// first.
pub open spec fn dec_chars(n: nat) -> Seq<char>
    decreases n,
{
    if n < 10 {
        seq![digit_char(n)]
    } else {
        dec_chars(n / 10) + seq![digit_char(n % 10)]
    }
}

/// The decimal numeral of an integer, with a leading minus sign when
/// negative.
pub open spec fn dec_chars_i64(n: int) -> Seq<char> {
    if n < 0 {
        seq!['-'] + dec_chars((-n) as nat)
    } else {
        dec_chars(n as nat)
    }
}

fn push_digit(d: u64, out: &mut String)
    requires
        d < 10,
    ensures
        final(out)@ == old(out)@ + seq![digit_char(d as nat)],
{
    match d {
        0 => out.append("0"),
        1 => out.append("1"),
        2 => out.append("2"),
        3 => out.append("3"),
        4 => out.append("4"),
        5 => out.append("5"),
        6 => out.append("6"),
        7 => out.append("7"),
        8 => out.append("8"),
        _ => out.append("9"),
    }
    proof {
        reveal_strlit("0");
        reveal_strlit("1");
        reveal_strlit("2");
        reveal_strlit("3");
        reveal_strlit("4");
        reveal_strlit("5");
        reveal_strlit("6");
        reveal_strlit("7");
        reveal_strlit("8");
        reveal_strlit("9");
        assert(out@ =~= old(out)@ + seq![digit_char(d as nat)]);
    }
}

fn push_dec(x: u64, out: &mut String)
    ensures
        final(out)@ == old(out)@ + dec_chars(x as nat),
    decreases x,
{
    if x >= 10 {
        push_dec(x / 10, out);
        push_digit(x % 10, out);
        proof {
            assert(out@ =~= old(out)@ + (dec_chars((x / 10) as nat) + seq![
                digit_char((x % 10) as nat),
            ]));
        }
    } else {
        push_digit(x, out);
    }
}

/// The decimal numeral of an integer as a string.
pub fn i64_dec_string(n: i64) -> (r: String)
    ensures
        r@ == dec_chars_i64(n as int),
{
    let mut out = String::new();
    if n >= 0 {
        push_dec(n as u64, &mut out);
        proof {
            assert(Seq::<char>::empty() + dec_chars(n as nat) =~= dec_chars(n as nat));
        }
    } else {
        out.append("-");
        let mag: u64 = ((-(n + 1)) as u64) + 1;
        proof {
            assert(mag == -(n as int));
        }
        push_dec(mag, &mut out);
        proof {
            reveal_strlit("-");
            assert("-"@ =~= seq!['-']);
            assert(Seq::<char>::empty() + seq!['-'] + dec_chars(mag as nat) =~= seq!['-']
                + dec_chars((-(n as int)) as nat));
        }
    }
    out
}

/// A raw entry parses exactly when the required fields are present: the
/// slug, the title, the cover image, the status, and at least one of the
/// two id spellings.
pub open spec fn entry_parses(raw: RawEntry) -> bool {
    &&& raw.slug is Some
    &&& raw.title is Some
    &&& raw.image is Some
    &&& raw.status is Some
    &&& (raw.numeric_id is Some || raw.seriesid is Some)
}

/// The series id half of the record id: the numeric id in decimal when
/// the document has one, else the textual id.
pub open spec fn series_id_of(raw: RawEntry) -> Seq<char> {
    match raw.numeric_id {
        Some(n) => dec_chars_i64(n as int),
        None => match raw.seriesid {
            Some(s) => s@,
            None => Seq::empty(),
        },
    }
}

/// What an optional field contributes: its text, or nothing.
pub open spec fn opt_str_of(o: Option<String>) -> Seq<char> {
    match o {
        Some(s) => s@,
        None => Seq::empty(),
    }
}

/// The record a parsing raw entry denotes: the id is `{seriesid}-{slug}`,
/// the URL is that id's detail page, optional fields default to empty,
/// and the viewer is the site's long-strip layout.
pub open spec fn record_of(raw: RawEntry) -> RecordModel {
    RecordModel {
        id: series_id_of(raw) + "-"@ + opt_str_of(raw.slug),
        cover: opt_str_of(raw.image),
        title: opt_str_of(raw.title),
        author: opt_str_of(raw.author),
        artist: Seq::empty(),
        description: opt_str_of(raw.description),
        url: "https://beta.asurascans.com/comics/"@ + series_id_of(raw) + "-"@ + opt_str_of(
            raw.slug,
        ),
        categories: raw.genres.deep_view(),
        status: status_of_str(opt_str_of(raw.status)),
        nsfw: ContentRating::Safe,
        viewer: Viewer::Scroll,
    }
}

/// Builds the full record from one raw directory entry, or reports the
/// missing required field.
pub fn parse_entry(raw: &RawEntry) -> (r: Result<MangaRecord, ParseError>)
    ensures
        r is Ok <==> entry_parses(*raw),
        r matches Ok(m) ==> m@ == record_of(*raw),
{
    let slug = match &raw.slug {
        Some(s) => s,
        None => {
            return Err(ParseError::MissingField);
        },
    };
    let sid: String = match &raw.numeric_id {
        Some(n) => i64_dec_string(*n),
        None => match &raw.seriesid {
            Some(s) => s.clone(),
            None => {
                return Err(ParseError::MissingField);
            },
        },
    };
    let title = match &raw.title {
        Some(s) => s.clone(),
        None => {
            return Err(ParseError::MissingField);
        },
    };
    let cover = match &raw.image {
        Some(s) => s.clone(),
        None => {
            return Err(ParseError::MissingField);
        },
    };
    let status = match &raw.status {
        Some(s) => status_map(s.as_str()),
        None => {
            return Err(ParseError::MissingField);
        },
    };
    let author = match &raw.author {
        Some(s) => s.clone(),
        None => String::new(),
    };
    let description = match &raw.description {
        Some(s) => s.clone(),
        None => String::new(),
    };
    let mut id = sid;
    id.append("-");
    id.append(slug.as_str());
    let mut url = String::from_str("https://beta.asurascans.com/comics/");
    url.append(id.as_str());
    proof {
        assert(url@ =~= "https://beta.asurascans.com/comics/"@ + series_id_of(*raw) + "-"@
            + opt_str_of(raw.slug));
    }
    Ok(
        MangaRecord {
            id,
            cover,
            title,
            author,
            artist: String::new(),
            description,
            url,
            categories: clone_string_vec(&raw.genres),
            status,
            nsfw: ContentRating::Safe,
            viewer: Viewer::Scroll,
        },
    )
}

/// The records of the raw entries that parse, in order: a malformed
/// entry is skipped on its own, never the whole sequence.
pub open spec fn parsed_records(s: Seq<RawEntry>) -> Seq<RecordModel>
    decreases s.len(),
{
    if s.len() == 0 {
        Seq::empty()
    } else {
        let rest = parsed_records(s.drop_last());
        if entry_parses(s.last()) {
            rest.push(record_of(s.last()))
        } else {
            rest
        }
    }
}

/// Parses a whole directory document: every well-formed entry becomes a
/// record, in the document's order; each malformed entry is dropped by
/// itself.
pub fn parse_entries(raws: &Vec<RawEntry>) -> (r: Vec<MangaRecord>)
    ensures
        r.deep_view() == parsed_records(raws@),
{
    let mut out: Vec<MangaRecord> = Vec::new();
    let mut i: usize = 0;
    proof {
        assert(raws@.take(0) =~= Seq::<RawEntry>::empty());
        assert(out.deep_view() =~= Seq::<RecordModel>::empty());
    }
    while i < raws.len()
        invariant
            i <= raws.len(),
            out.deep_view() == parsed_records(raws@.take(i as int)),
        decreases raws.len() - i,
    {
        proof {
            assert(raws@.take(i + 1).drop_last() =~= raws@.take(i as int));
            assert(raws@.take(i + 1).last() == raws@[i as int]);
        }
        match parse_entry(&raws[i]) {
            Ok(record) => {
                let ghost pre = out.deep_view();
                out.push(record);
                proof {
                    assert(out.deep_view() =~= pre.push(record_of(raws@[i as int])));
                }
            },
            Err(_) => {},
        }
        i += 1;
    }
    proof {
        assert(raws@.take(raws@.len() as int) =~= raws@);
    }
    out
}

} // verus!
