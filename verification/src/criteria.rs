//! The filter-directive compiler: turns a heterogeneous list of filter
//! directives (free text, tag toggles, tri-state checkboxes) into one
//! typed query object. Malformed or unsupported directives degrade to
//! "no constraint" instead of failing.

use vstd::prelude::*;
use crate::strutil::{lower_of, lowercase, push_str_clone};

verus! {

/// A three-valued constraint on a boolean facet flag.
#[derive(Clone, Copy, Debug, PartialEq, Eq, Structural)]
pub enum Tri {
    Unset,
    No,
    Yes,
}

/// The multi-valued facets a tag toggle can address.
#[derive(Clone, Copy, Debug, PartialEq, Eq, Structural)]
pub enum Facet {
    Demographic,
    Status,
    Genre,
}

/// The boolean facet flags a tri-state checkbox can address.
#[derive(Clone, Copy, Debug, PartialEq, Eq, Structural)]
pub enum TriFacet {
    Recent,
    New,
    Exclusive,
}

/// One unit of filter input supplied by the caller. Toggle values follow
/// the host convention: 0 excludes, 1 includes, anything else is ignored.
#[allow(inconsistent_fields)]
pub enum Directive {
    FreeText { text: String },
    MultiValuedTag { facet: Facet, id: String, value: i64 },
    BooleanFacet { facet: TriFacet, value: i64 },
    Other,
}

/// The mathematical value of a directive.
#[allow(inconsistent_fields)]
pub enum DirectiveModel {
    FreeText { text: Seq<char> },
    MultiValuedTag { facet: Facet, id: Seq<char>, value: int },
    BooleanFacet { facet: TriFacet, value: int },
    Other,
}

impl View for Directive {
    type V = DirectiveModel;

    open spec fn view(&self) -> DirectiveModel {
        match self {
            Directive::FreeText { text } => DirectiveModel::FreeText { text: text@ },
            Directive::MultiValuedTag { facet, id, value } => DirectiveModel::MultiValuedTag {
                facet: *facet,
                id: id@,
                value: *value as int,
            },
            Directive::BooleanFacet { facet, value } => DirectiveModel::BooleanFacet {
                facet: *facet,
                value: *value as int,
            },
            Directive::Other => DirectiveModel::Other,
        }
    }
}

impl DeepView for Directive {
    type V = DirectiveModel;

    open spec fn deep_view(&self) -> DirectiveModel {
        self.view()
    }
}

/// The mathematical value of a compiled query.
pub struct CriteriaModel {
    pub title: Seq<char>,
    pub demographic_incl: Seq<Seq<char>>,
    pub demographic_excl: Seq<Seq<char>>,
    pub status_incl: Seq<Seq<char>>,
    pub status_excl: Seq<Seq<char>>,
    pub genre_incl: Seq<Seq<char>>,
    pub genre_excl: Seq<Seq<char>>,
    pub recent: Tri,
    pub fresh: Tri,
    pub exclusive: Tri,
}

/// The compiled, transient query state: a lowercased title substring,
/// an inclusion and an exclusion set per multi-valued facet, and a
/// tri-state per boolean facet flag.
pub struct FilterCriteria {
    pub title_query: String,
    pub demographic_incl: Vec<String>,
    pub demographic_excl: Vec<String>,
    pub status_incl: Vec<String>,
    pub status_excl: Vec<String>,
    pub genre_incl: Vec<String>,
    pub genre_excl: Vec<String>,
    pub recent: Tri,
    pub fresh: Tri,
    pub exclusive: Tri,
}

impl View for FilterCriteria {
    type V = CriteriaModel;

    open spec fn view(&self) -> CriteriaModel {
        CriteriaModel {
            title: self.title_query@,
            demographic_incl: self.demographic_incl.deep_view(),
            demographic_excl: self.demographic_excl.deep_view(),
            status_incl: self.status_incl.deep_view(),
            status_excl: self.status_excl.deep_view(),
            genre_incl: self.genre_incl.deep_view(),
            genre_excl: self.genre_excl.deep_view(),
            recent: self.recent,
            fresh: self.fresh,
            exclusive: self.exclusive,
        }
    }
}

/// The lowercased text of the last free-text directive, or empty.
pub open spec fn last_title(ds: Seq<DirectiveModel>) -> Seq<char>
    decreases ds.len(),
{
    if ds.len() == 0 {
        Seq::empty()
    } else {
        match ds.last() {
            DirectiveModel::FreeText { text } => lower_of(text),
            _ => last_title(ds.drop_last()),
        }
    }
}

/// The tag ids appended, in order, by toggles of `facet` with toggle
/// value `value` (0 collects the exclusion set, 1 the inclusion set).
pub open spec fn tag_set(ds: Seq<DirectiveModel>, facet: Facet, value: int) -> Seq<Seq<char>>
    decreases ds.len(),
{
    if ds.len() == 0 {
        Seq::empty()
    } else {
        let rest = tag_set(ds.drop_last(), facet, value);
        match ds.last() {
            DirectiveModel::MultiValuedTag { facet: f, id, value: v } => if f == facet && v
                == value {
                rest.push(id)
            } else {
                rest
            },
            _ => rest,
        }
    }
}

/// The tri-state left by the last in-range checkbox directive of `facet`:
/// 0 requires false, 1 requires true, anything else leaves it unset.
pub open spec fn tri_value(ds: Seq<DirectiveModel>, facet: TriFacet) -> Tri
    decreases ds.len(),
{
    if ds.len() == 0 {
        Tri::Unset
    } else {
        match ds.last() {
            DirectiveModel::BooleanFacet { facet: f, value: v } => if f == facet && (v == 0 || v
                == 1) {
                if v == 1 {
                    Tri::Yes
                } else {
                    Tri::No
                }
            } else {
                tri_value(ds.drop_last(), facet)
            },
            _ => tri_value(ds.drop_last(), facet),
        }
    }
}

/// What compilation produces for a directive list.
pub open spec fn compile_model(ds: Seq<DirectiveModel>) -> CriteriaModel {
    CriteriaModel {
        title: last_title(ds),
        demographic_incl: tag_set(ds, Facet::Demographic, 1),
        demographic_excl: tag_set(ds, Facet::Demographic, 0),
        status_incl: tag_set(ds, Facet::Status, 1),
        status_excl: tag_set(ds, Facet::Status, 0),
        genre_incl: tag_set(ds, Facet::Genre, 1),
        genre_excl: tag_set(ds, Facet::Genre, 0),
        recent: tri_value(ds, TriFacet::Recent),
        fresh: tri_value(ds, TriFacet::New),
        exclusive: tri_value(ds, TriFacet::Exclusive),
    }
}

/// Compiles a directive list into one validated query object. Free text
/// is lowercased, last one wins; toggle value 0 excludes and 1 includes a
/// tag id; checkbox value 0 or 1 pins a flag; anything else is ignored.
pub fn compile(directives: &Vec<Directive>) -> (c: FilterCriteria)
    ensures
        c@ == compile_model(directives.deep_view()),
{
    let ghost dv = directives.deep_view();
    let mut title_query = String::new();
    let mut demographic_incl: Vec<String> = Vec::new();
    let mut demographic_excl: Vec<String> = Vec::new();
    let mut status_incl: Vec<String> = Vec::new();
    let mut status_excl: Vec<String> = Vec::new();
    let mut genre_incl: Vec<String> = Vec::new();
    let mut genre_excl: Vec<String> = Vec::new();
    let mut recent = Tri::Unset;
    let mut fresh = Tri::Unset;
    let mut exclusive = Tri::Unset;
    let mut i: usize = 0;
    proof {
        assert(dv.take(0) =~= Seq::<DirectiveModel>::empty());
        assert(demographic_incl.deep_view() =~= Seq::<Seq<char>>::empty());
    }
    while i < directives.len()
        invariant
            i <= directives.len(),
            dv == directives.deep_view(),
            dv.len() == directives@.len(),
            title_query@ == last_title(dv.take(i as int)),
            demographic_incl.deep_view() == tag_set(dv.take(i as int), Facet::Demographic, 1),
            demographic_excl.deep_view() == tag_set(dv.take(i as int), Facet::Demographic, 0),
            status_incl.deep_view() == tag_set(dv.take(i as int), Facet::Status, 1),
            status_excl.deep_view() == tag_set(dv.take(i as int), Facet::Status, 0),
            genre_incl.deep_view() == tag_set(dv.take(i as int), Facet::Genre, 1),
            genre_excl.deep_view() == tag_set(dv.take(i as int), Facet::Genre, 0),
            recent == tri_value(dv.take(i as int), TriFacet::Recent),
            fresh == tri_value(dv.take(i as int), TriFacet::New),
            exclusive == tri_value(dv.take(i as int), TriFacet::Exclusive),
        decreases directives.len() - i,
    {
        proof {
            assert(dv.take(i + 1).drop_last() =~= dv.take(i as int));
            assert(dv.take(i + 1).last() == dv[i as int]);
        }
        match &directives[i] {
            Directive::FreeText { text } => {
                title_query = lowercase(text.as_str());
            },
            Directive::MultiValuedTag { facet, id, value } => {
                if *value == 0 || *value == 1 {
                    let incl = *value == 1;
                    match facet {
                        Facet::Demographic => if incl {
                            push_str_clone(&mut demographic_incl, id);
                        } else {
                            push_str_clone(&mut demographic_excl, id);
                        },
                        Facet::Status => if incl {
                            push_str_clone(&mut status_incl, id);
                        } else {
                            push_str_clone(&mut status_excl, id);
                        },
                        Facet::Genre => if incl {
                            push_str_clone(&mut genre_incl, id);
                        } else {
                            push_str_clone(&mut genre_excl, id);
                        },
                    }
                }
            },
            Directive::BooleanFacet { facet, value } => {
                if *value == 0 || *value == 1 {
                    let t = if *value == 1 {
                        Tri::Yes
                    } else {
                        Tri::No
                    };
                    match facet {
                        TriFacet::Recent => recent = t,
                        TriFacet::New => fresh = t,
                        TriFacet::Exclusive => exclusive = t,
                    }
                }
            },
            Directive::Other => {},
        }
        i += 1;
    }
    proof {
        assert(dv.take(directives@.len() as int) =~= dv);
    }
    FilterCriteria {
        title_query,
        demographic_incl,
        demographic_excl,
        status_incl,
        status_excl,
        genre_incl,
        genre_excl,
        recent,
        fresh,
        exclusive,
    }
}

} // verus!
