//! The discovered-entry model: one record per matched directory.

use vstd::prelude::*;

use crate::classify::spec_is_dangerous;

verus! {

/// One discovered directory. Path, size, age and sensitivity are frozen
/// at construction; only the `deleted` flag mutates afterwards.
#[derive(Debug, Clone)]
pub struct NodeModule {
    /// Absolute path, in textual form.
    pub path: String,
    /// Size in bytes; zero when the metadata probe failed.
    pub size: u64,
    /// Age in seconds since the parent directory was last modified,
    /// frozen at discovery time; zero when the probe failed.
    pub modified: i64,
    /// Whether a deletion has been dispatched for this entry. The flag is
    /// set optimistically when the deletion is dispatched and is never
    /// reconciled against the outcome of the removal.
    pub deleted: bool,
    /// Whether the path lies under a hidden or system-like location.
    pub is_dangerous: bool,
}

impl NodeModule {
    /// Builds an entry from the probed details: size in bytes and age in
    /// seconds. A missing probe result degrades to a zero-size,
    /// zero-age entry rather than dropping the match.
    pub fn new(path: String, details: Option<(u64, i64)>) -> (r: NodeModule)
        ensures
            r.path@ == path@,
            r.size == (match details {
                Some((size, _)) => size,
                None => 0u64,
            }),
            r.modified == (match details {
                Some((_, age)) => age,
                None => 0i64,
            }),
            r.deleted == false,
            r.is_dangerous == spec_is_dangerous(path@),
    {
        let (size, modified): (u64, i64) = match details {
            Some((size, age)) => (size, age),
            None => (0, 0),
        };
        let is_dangerous: bool = crate::classify::is_dangerous(path.as_str());
        NodeModule { path, size, modified, deleted: false, is_dangerous }
    }
}

} // verus!
