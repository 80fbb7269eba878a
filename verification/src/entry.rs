//! The catalog data model: publication status, catalog entries, and the
//! snapshot (one fetched copy of a catalog) that the filter engine reads.

use vstd::prelude::*;
use vstd::string::StringExecFns;
use crate::strutil::str_eq;

verus! {

/// Publication status of a catalog entry.
#[derive(Clone, Copy, Debug, PartialEq, Eq, Structural)]
pub enum Status {
    Ongoing,
    Completed,
    Hiatus,
    Cancelled,
    Unknown,
}

/// The canonical textual id of a status, used by single-valued facet
/// criteria.
pub open spec fn status_name_of(s: Status) -> Seq<char> {
    match s {
        Status::Ongoing => "Ongoing"@,
        Status::Completed => "Completed"@,
        Status::Hiatus => "Hiatus"@,
        Status::Cancelled => "Cancelled"@,
        Status::Unknown => "Unknown"@,
    }
}

impl Status {
    /// The canonical textual id of this status.
    pub fn name(&self) -> (r: String)
        ensures
            r@ == status_name_of(*self),
    {
        match self {
            Status::Ongoing => String::from_str("Ongoing"),
            Status::Completed => String::from_str("Completed"),
            Status::Hiatus => String::from_str("Hiatus"),
            Status::Cancelled => String::from_str("Cancelled"),
            Status::Unknown => String::from_str("Unknown"),
        }
    }
}

/// How a raw status string from a catalog document maps to a status:
/// the site reports "Dropped" for a cancelled series; anything
/// unrecognized is unknown.
pub open spec fn status_of_str(s: Seq<char>) -> Status {
    if s == "Ongoing"@ {
        Status::Ongoing
    } else if s == "Dropped"@ {
        Status::Cancelled
    } else if s == "Completed"@ {
        Status::Completed
    } else if s == "Hiatus"@ {
        Status::Hiatus
    } else {
        Status::Unknown
    }
}

/// Maps a raw status string from a catalog document to a status value.
pub fn status_map(status: &str) -> (r: Status)
    ensures
        r == status_of_str(status@),
{
    if str_eq(status, "Ongoing") {
        Status::Ongoing
    } else if str_eq(status, "Dropped") {
        Status::Cancelled
    } else if str_eq(status, "Completed") {
        Status::Completed
    } else if str_eq(status, "Hiatus") {
        Status::Hiatus
    } else {
        Status::Unknown
    }
}

/// The mathematical value of a catalog entry.
pub struct EntryModel {
    pub id: Seq<char>,
    pub title: Seq<char>,
    pub status: Status,
    pub demographic: Seq<char>,
    pub genres: Seq<Seq<char>>,
    pub is_recent: bool,
    pub is_new: bool,
    pub is_exclusive: bool,
}

/// One immutable catalog record, as the external extractor supplies it:
/// a unique slug, a title, a status, a demographic tag, a set of genre
/// ids, and the boolean facet flags the directory exposes.
#[derive(Debug, PartialEq, Eq)]
pub struct CatalogEntry {
    pub id: String,
    pub title: String,
    pub status: Status,
    pub demographic: String,
    pub genres: Vec<String>,
    pub is_recent: bool,
    pub is_new: bool,
    pub is_exclusive: bool,
}

impl View for CatalogEntry {
    type V = EntryModel;

    open spec fn view(&self) -> EntryModel {
        EntryModel {
            id: self.id@,
            title: self.title@,
            status: self.status,
            demographic: self.demographic@,
            genres: self.genres.deep_view(),
            is_recent: self.is_recent,
            is_new: self.is_new,
            is_exclusive: self.is_exclusive,
        }
    }
}

impl DeepView for CatalogEntry {
    type V = EntryModel;

    open spec fn deep_view(&self) -> EntryModel {
        self.view()
    }
}

/// An element-for-element copy of a vector of strings.
pub fn clone_string_vec(v: &Vec<String>) -> (r: Vec<String>)
    ensures
        r.deep_view() == v.deep_view(),
{
    let mut out: Vec<String> = Vec::new();
    let mut i: usize = 0;
    while i < v.len()
        invariant
            i <= v.len(),
            out@.len() == i,
            forall|j: int| 0 <= j < i ==> out.deep_view()[j] == v.deep_view()[j],
        decreases v.len() - i,
    {
        out.push(v[i].clone());
        i += 1;
    }
    proof {
        assert(out.deep_view() =~= v.deep_view());
    }
    out
}

impl Clone for CatalogEntry {
    /// Copies the record; the copy denotes the same entry.
    fn clone(&self) -> (r: Self)
        ensures
            r@ == self@,
    {
        CatalogEntry {
            id: self.id.clone(),
            title: self.title.clone(),
            status: self.status,
            demographic: self.demographic.clone(),
            genres: clone_string_vec(&self.genres),
            is_recent: self.is_recent,
            is_new: self.is_new,
            is_exclusive: self.is_exclusive,
        }
    }
}

/// One fetched-and-decoded copy of a catalog: an ordered sequence of
/// entries, held for the session and never mutated by the engine.
pub struct Snapshot {
    pub entries: Vec<CatalogEntry>,
}

impl Snapshot {
    /// Entry ids are unique within one snapshot.
    pub open spec fn ids_unique(&self) -> bool {
        forall|i: int, j: int|
            0 <= i < j < self.entries.deep_view().len() ==> (#[trigger] self.entries.deep_view()[i]).id
                != (#[trigger] self.entries.deep_view()[j]).id
    }

    pub fn new(entries: Vec<CatalogEntry>) -> (s: Snapshot)
        ensures
            s.entries == entries,
    {
        Snapshot { entries }
    }
}

} // verus!
