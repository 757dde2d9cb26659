//! The run's configuration: which playlists to sync, and where to.
//!
//! The configuration is loaded once at process start and is immutable for
//! the run.  Reading and writing the file is I/O and happens outside the
//! library; this module holds the data and the default seeded on first run.

use vstd::prelude::*;
use vstd::string::*;

verus! {

/// One configured playlist: the opaque remote identifier and the local
/// directory it syncs to.
#[derive(Debug, Clone)]
pub struct Item {
    pub id: String,
    pub location: String,
}

/// The whole configuration: the playlists, synced in order.
#[derive(Debug, Clone)]
pub struct Config {
    pub items: Vec<Item>,
}

/// The configuration seeded when none exists yet: two placeholder
/// entries the user is meant to replace.
pub fn create_default_config() -> (c: Config)
    ensures
        c.items@.len() == 2,
        c.items@[0].id@ == "aaaaaaaaaaaaaaaaaaaaaaaaaaaaaaaaaa"@,
        c.items@[0].location@ == "/home/user/Downloads/file_output"@,
        c.items@[1].id@ == "bbbbbbbbbbbbbbbbbbbbbbbbbbbbbbbbbb"@,
        c.items@[1].location@ == "/home/user/Downloads/file_output2"@,
{
    let mut items: Vec<Item> = Vec::new();
    items.push(
        Item {
            id: String::from_str("aaaaaaaaaaaaaaaaaaaaaaaaaaaaaaaaaa"),
            location: String::from_str("/home/user/Downloads/file_output"),
        },
    );
    items.push(
        Item {
            id: String::from_str("bbbbbbbbbbbbbbbbbbbbbbbbbbbbbbbbbb"),
            location: String::from_str("/home/user/Downloads/file_output2"),
        },
    );
    Config { items }
}

} // verus!
