//! The full manga record handed to the host: what a detail page shows,
//! as opposed to the lean directory entries the filter engine reads.

use vstd::prelude::*;
use vstd::string::StringExecFns;
use crate::entry::Status;

verus! {

/// Content rating of a record.
#[derive(Clone, Copy, Debug, PartialEq, Eq, Structural)]
pub enum ContentRating {
    Safe,
    Suggestive,
    Nsfw,
}

/// Reading direction or layout the host should use.
#[derive(Clone, Copy, Debug, PartialEq, Eq, Structural)]
pub enum Viewer {
    Rtl,
    Ltr,
    Vertical,
    Scroll,
}

/// The mathematical value of a full record.
pub struct RecordModel {
    pub id: Seq<char>,
    pub cover: Seq<char>,
    pub title: Seq<char>,
    pub author: Seq<char>,
    pub artist: Seq<char>,
    pub description: Seq<char>,
    pub url: Seq<char>,
    pub categories: Seq<Seq<char>>,
    pub status: Status,
    pub nsfw: ContentRating,
    pub viewer: Viewer,
}

/// One complete catalog record.
#[derive(Debug, PartialEq, Eq)]
pub struct MangaRecord {
    pub id: String,
    pub cover: String,
    pub title: String,
    pub author: String,
    pub artist: String,
    pub description: String,
    pub url: String,
    pub categories: Vec<String>,
    pub status: Status,
    pub nsfw: ContentRating,
    pub viewer: Viewer,
}

impl View for MangaRecord {
    type V = RecordModel;

    open spec fn view(&self) -> RecordModel {
        RecordModel {
            id: self.id@,
            cover: self.cover@,
            title: self.title@,
            author: self.author@,
            artist: self.artist@,
            description: self.description@,
            url: self.url@,
            categories: self.categories.deep_view(),
            status: self.status,
            nsfw: self.nsfw,
            viewer: self.viewer,
        }
    }
}

impl DeepView for MangaRecord {
    type V = RecordModel;

    open spec fn deep_view(&self) -> RecordModel {
        self.view()
    }
}

/// The static guide record the cubari directory serves as its one
/// built-in entry.
pub fn cubari_guide() -> (m: MangaRecord)
    ensures
        m.id@ == "aidoku/guide"@,
        m.cover@ == "https://fakeimg.pl/550x780/ffffff/6e7b91/?font=museo&text=Guide"@,
        m.title@ == "Cubari Guide"@,
        m.author@.len() == 0,
        m.artist@.len() == 0,
        m.description@.len() == 0,
        m.url@.len() == 0,
        m.categories@.len() == 0,
        m.status == Status::Unknown,
        m.nsfw == ContentRating::Safe,
        m.viewer == Viewer::Rtl,
{
    MangaRecord {
        id: String::from_str("aidoku/guide"),
        cover: String::from_str("https://fakeimg.pl/550x780/ffffff/6e7b91/?font=museo&text=Guide"),
        title: String::from_str("Cubari Guide"),
        author: String::new(),
        artist: String::new(),
        description: String::new(),
        url: String::new(),
        categories: Vec::new(),
        status: Status::Unknown,
        nsfw: ContentRating::Safe,
        viewer: Viewer::Rtl,
    }
}

} // verus!
