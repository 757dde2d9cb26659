//! Verified core of a small playlist synchroniser.
//!
//! The library decides, for each configured playlist, which remote items
//! still have to be fetched: it parses the remote listing, derives the
//! filename each item would have on disk, and diffs that against a snapshot
//! of the target directory.  All I/O (the configuration file, the external
//! downloader process, the directory scan) lives outside the library and
//! hands in plain values.

use vstd::prelude::*;

pub mod config;
pub mod listing;
pub mod reconcile;
pub mod sanitize;

verus! {

/// The character sequences of a sequence of strings.
pub open spec fn seq_views(s: Seq<String>) -> Seq<Seq<char>> {
    s.map_values(|x: String| x@)
}

} // verus!
