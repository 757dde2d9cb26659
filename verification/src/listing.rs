//! Remote listing interpretation.
//!
//! The remote service answers one listing request with the whole playlist,
//! one JSON object per line; each record carries at least the string
//! fields `id` and `title`.  This module turns the captured exit status
//! and output lines into items, in the order the service returned them,
//! failing fast on the first record that does not parse.

use vstd::prelude::*;

use crate::seq_views;

verus! {

/// One entry of a remote playlist listing: an opaque identifier and the
/// display title, both exactly as the remote service returned them.
#[derive(Debug, Clone, PartialEq, Eq)]
pub struct RemoteItem {
    pub id: String,
    pub title: String,
}

/// Why a listing pass failed.  Either error aborts the current playlist's
/// sync before any fetch is attempted.
#[derive(Debug, Clone, Copy, PartialEq, Eq, Structural)]
pub enum ListError {
    /// The remote listing call itself failed (nonzero exit).
    ServiceFailure,
    /// Some returned record is not a JSON object with string fields
    /// `id` and `title`.
    ParseFailure,
}

/// The string member `name` of the JSON document written in `line`, if
/// `line` parses and that member is a string.
pub uninterp spec fn json_string_field_of(line: Seq<char>, name: Seq<char>) -> Option<Seq<char>>;

/// Relies on serde_json (`from_str`, `Value::get`, `Value::as_str`): the
/// string member `name` of the JSON document in `line`, `None` when the
/// line does not parse or has no such string member.  The result depends
/// on the two arguments alone.
#[verifier::external_body]
fn json_string_field(line: &str, name: &str) -> (r: Option<String>)
    ensures
        r is Some <==> json_string_field_of(line@, name@) is Some,
        r matches Some(s) ==> json_string_field_of(line@, name@) == Some(s@),
{
    match serde_json::from_str::<serde_json::Value>(line) {
        Ok(v) => match v.get(name) {
            Some(f) => f.as_str().map(|s| s.to_string()),
            None => None,
        },
        Err(_) => None,
    }
}

/// The id field of one listing record.
pub open spec fn record_id_of(line: Seq<char>) -> Option<Seq<char>> {
    json_string_field_of(line, "id"@)
}

/// The title field of one listing record.
pub open spec fn record_title_of(line: Seq<char>) -> Option<Seq<char>> {
    json_string_field_of(line, "title"@)
}

/// Whether one listing record parses: both fields are present.
pub open spec fn record_ok(line: Seq<char>) -> bool {
    record_id_of(line) is Some && record_title_of(line) is Some
}

/// Whether every record of the listing parses.
pub open spec fn all_records_ok(lines: Seq<Seq<char>>) -> bool {
    forall|i: int| 0 <= i < lines.len() ==> record_ok(#[trigger] lines[i])
}

/// The `(id, title)` pairs of a listing, in listing order.  Meaningful
/// only where `all_records_ok` holds.
pub open spec fn records_of(lines: Seq<Seq<char>>) -> Seq<(Seq<char>, Seq<char>)> {
    lines.map_values(|l: Seq<char>| (record_id_of(l).unwrap(), record_title_of(l).unwrap()))
}

/// The `(id, title)` pairs of a vector of items.
pub open spec fn item_views(items: Seq<RemoteItem>) -> Seq<(Seq<char>, Seq<char>)> {
    items.map_values(|it: RemoteItem| (it.id@, it.title@))
}

/// Parses the captured output lines of a listing call, in order.  A
/// record that fails to parse aborts the whole call: no partial results.
pub fn parse_listing(lines: &Vec<String>) -> (r: Result<Vec<RemoteItem>, ListError>)
    ensures
        r is Ok <==> all_records_ok(seq_views(lines@)),
        r matches Ok(items) ==> items@.len() == lines@.len() && item_views(items@)
            == records_of(seq_views(lines@)),
        r is Err ==> r == Err::<Vec<RemoteItem>, ListError>(ListError::ParseFailure),
{
    let mut out: Vec<RemoteItem> = Vec::new();
    let mut i: usize = 0;
    while i < lines.len()
        invariant
            i <= lines@.len(),
            out@.len() == i,
            forall|k: int| 0 <= k < i ==> record_ok(#[trigger] seq_views(lines@)[k]),
            forall|k: int|
                0 <= k < i ==> (#[trigger] out@[k]).id@ == record_id_of(
                    seq_views(lines@)[k],
                ).unwrap() && out@[k].title@ == record_title_of(seq_views(lines@)[k]).unwrap(),
        decreases lines@.len() - i,
    {
        let id_field = json_string_field(lines[i].as_str(), "id");
        let title_field = json_string_field(lines[i].as_str(), "title");
        match (id_field, title_field) {
            (Some(id), Some(title)) => {
                out.push(RemoteItem { id, title });
                proof {
                    assert(seq_views(lines@)[i as int] == lines@[i as int]@);
                }
            },
            _ => {
                proof {
                    assert(!record_ok(seq_views(lines@)[i as int]));
                }
                return Err(ListError::ParseFailure);
            },
        }
        i = i + 1;
    }
    proof {
        assert(item_views(out@) =~= records_of(seq_views(lines@)));
    }
    Ok(out)
}

/// The whole Remote Lister decision, from the captured outcome of the
/// listing call: a nonzero exit is a service failure; otherwise the
/// output lines are parsed record by record.
pub fn interpret_listing(exit_ok: bool, lines: &Vec<String>) -> (r: Result<
    Vec<RemoteItem>,
    ListError,
>)
    ensures
        !exit_ok ==> r == Err::<Vec<RemoteItem>, ListError>(ListError::ServiceFailure),
        exit_ok ==> (r is Ok <==> all_records_ok(seq_views(lines@))),
        exit_ok ==> (r matches Ok(items) ==> items@.len() == lines@.len() && item_views(items@)
            == records_of(seq_views(lines@))),
        exit_ok && r is Err ==> r == Err::<Vec<RemoteItem>, ListError>(ListError::ParseFailure),
{
    if !exit_ok {
        return Err(ListError::ServiceFailure);
    }
    parse_listing(lines)
}

} // verus!
