//! Scan configuration: the values the excluded command-line layer hands
//! to the core, and the available result orderings.

use vstd::prelude::*;

verus! {

/// The key by which the merged result set may be ordered.
#[derive(Clone, Copy, Debug, PartialEq, Eq, Structural)]
pub enum SortBy {
    /// Largest size first.
    Size,
    /// Lexicographically non-decreasing textual path.
    Path,
    /// Most recently modified first: smallest stored age first.
    LastMod,
}

/// The scan configuration, as plain values.
#[derive(Debug, Clone)]
pub struct Args {
    /// Directory from which to begin searching.
    pub directory: String,
    /// Prune sensitive (hidden or system-like) locations from traversal.
    pub exclude_hidden: bool,
    /// Name of the directories to search for.
    pub target: String,
    /// Start from the user's home directory instead of `directory`.
    pub full: bool,
    /// Display sizes in gigabytes instead of megabytes.
    pub in_gb: bool,
    /// Comma-separated substrings excluding paths from the search.
    pub exclude_paths: Option<String>,
    /// Optional ordering of the results.
    pub sort: Option<SortBy>,
    /// Delete every match, after one interactive confirmation.
    pub delete_all: bool,
}

} // verus!
