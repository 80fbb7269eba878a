//! Session caches: a fetch-once snapshot cache, a keyed cache of size
//! one for per-item documents, and the build-id dependent data link.
//! Fetching itself is the host's business; these types only decide and
//! remember, so a failed fetch simply never reaches `fill` or `store`
//! and the cache stays empty.

use vstd::prelude::*;
use vstd::string::{StrSliceExecFns, StringExecFns};
use crate::entry::Snapshot;
use crate::strutil::str_eq;

verus! {

/// Memoizes one catalog snapshot for the life of a session: empty until
/// filled exactly once, then cached until the session ends.
pub struct SnapshotCache {
    pub value: Option<Snapshot>,
}

impl SnapshotCache {
    pub fn new() -> (c: Self)
        ensures
            c.value is None,
    {
        SnapshotCache { value: None }
    }

    /// The cached snapshot, if one was stored.
    pub fn get(&self) -> (r: &Option<Snapshot>)
        ensures
            r == &self.value,
    {
        &self.value
    }

    /// Stores the snapshot of the first successful fetch; at most one
    /// fill per session.
    pub fn fill(&mut self, snapshot: Snapshot)
        requires
            old(self).value is None,
        ensures
            final(self).value == Some(snapshot),
    {
        self.value = Some(snapshot);
    }
}

/// A cache of size one, keyed: holds the single most recently stored
/// key and value; storing a new key evicts the previous value.
pub struct KeyedCache<V> {
    pub entry: Option<(String, V)>,
}

impl<V> KeyedCache<V> {
    pub fn new() -> (c: Self)
        ensures
            c.entry is None,
    {
        KeyedCache { entry: None }
    }

    /// The cached value, exactly when the stored key is `key`.
    pub fn lookup<'a>(&'a self, key: &str) -> (r: Option<&'a V>)
        ensures
            match self.entry {
                Some(p) => if p.0@ == key@ {
                    r matches Some(v) && *v == p.1
                } else {
                    r is None
                },
                None => r is None,
            },
    {
        match &self.entry {
            Some(p) => {
                if str_eq(p.0.as_str(), key) {
                    Some(&p.1)
                } else {
                    None
                }
            },
            None => None,
        }
    }

    /// Replaces whatever was cached with this key and value.
    pub fn store(&mut self, key: String, value: V)
        ensures
            final(self).entry == Some((key, value)),
    {
        self.entry = Some((key, value));
    }
}

/// The data URL for a site link under the currently known build id, or
/// nothing while no build id is populated.
pub fn get_data_href(build_id: &Option<String>, link: &str) -> (r: Option<String>)
    ensures
        match build_id {
            Some(b) => r matches Some(u) && u@ == "https://beta.asurascans.com/_next/data/"@ + b@
                + link@,
            None => r is None,
        },
{
    match build_id {
        Some(b) => {
            let mut u = String::from_str("https://beta.asurascans.com/_next/data/");
            u.append(b.as_str());
            u.append(link);
            Some(u)
        },
        None => None,
    }
}

} // verus!
