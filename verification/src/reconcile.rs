//! The sync reconciliation algorithm.
//!
//! Given the remote item list and a snapshot of the filenames already in
//! the target directory, this module derives the filename each item would
//! have on disk, and keeps, in listing order, exactly the items whose
//! expected filename the normalized snapshot does not yet hold.  The
//! fetches themselves happen outside the library; the tally of successful
//! ones becomes the pass's report.

use vstd::prelude::*;
use vstd::string::*;

use crate::listing::{
    all_records_ok,
    interpret_listing,
    item_views,
    records_of,
    ListError,
    RemoteItem,
};
use crate::sanitize::{
    lemma_sanitize_add,
    lemma_sanitize_idempotent,
    sanitize_filename,
    sanitize_seq,
};
use crate::seq_views;

verus! {

/// The filename the item `(id, title)` would have on disk once fetched:
/// the sanitized title, then the id in square brackets, then the audio
/// extension.
pub open spec fn expected_name_of(item: (Seq<char>, Seq<char>)) -> Seq<char> {
    sanitize_seq(item.1) + " ["@ + item.0 + "].opus"@
}

/// A directory snapshot after normalization: every entry sanitized, so
/// that the comparison with expected names is symmetric.
pub open spec fn normalize_of(local: Seq<Seq<char>>) -> Seq<Seq<char>> {
    local.map_values(|n: Seq<char>| sanitize_seq(n))
}

/// Whether the snapshot `local`, once normalized, already holds the
/// expected filename of `item`.
pub open spec fn item_present(item: (Seq<char>, Seq<char>), local: Seq<Seq<char>>) -> bool {
    normalize_of(local).contains(expected_name_of(item))
}

/// The ids to fetch: the ids of the items of `items`, in order, whose
/// expected filename is not yet in the normalized snapshot.
pub open spec fn fetch_ids_of(items: Seq<(Seq<char>, Seq<char>)>, local: Seq<Seq<char>>) -> Seq<
    Seq<char>,
>
    decreases items.len(),
{
    if items.len() == 0 {
        Seq::empty()
    } else {
        let rest = fetch_ids_of(items.drop_last(), local);
        if item_present(items.last(), local) {
            rest
        } else {
            rest.push(items.last().0)
        }
    }
}

/// Builds the expected on-disk filename of one item.
pub fn expected_filename(id: &str, title: &str) -> (r: String)
    ensures
        r@ == expected_name_of((id@, title@)),
{
    let mut out = sanitize_filename(title);
    out.append(" [");
    out.append(id);
    out.append("].opus");
    out
}

/// Sanitizes every entry of a directory snapshot.
pub fn normalize_snapshot(local: &Vec<String>) -> (r: Vec<String>)
    ensures
        seq_views(r@) == normalize_of(seq_views(local@)),
{
    let mut out: Vec<String> = Vec::new();
    let mut i: usize = 0;
    while i < local.len()
        invariant
            i <= local@.len(),
            out@.len() == i,
            forall|k: int| 0 <= k < i ==> (#[trigger] out@[k])@ == sanitize_seq(local@[k]@),
        decreases local@.len() - i,
    {
        out.push(sanitize_filename(local[i].as_str()));
        i = i + 1;
    }
    proof {
        assert(seq_views(out@) =~= normalize_of(seq_views(local@)));
    }
    out
}

/// Whether `target` is one of `names`.
fn contains_name(names: &Vec<String>, target: &String) -> (r: bool)
    ensures
        r == seq_views(names@).contains(target@),
{
    let mut i: usize = 0;
    while i < names.len()
        invariant
            i <= names@.len(),
            forall|k: int| 0 <= k < i ==> (#[trigger] names@[k])@ != target@,
        decreases names@.len() - i,
    {
        if names[i].eq(target) {
            proof {
                assert(seq_views(names@)[i as int] == target@);
            }
            return true;
        }
        i = i + 1;
    }
    proof {
        assert forall|k: int| 0 <= k < seq_views(names@).len() implies #[trigger] seq_views(
            names@,
        )[k] != target@ by {
            assert(seq_views(names@)[k] == names@[k]@);
        }
    }
    false
}

/// One unfolding of `fetch_ids_of` at the front of the listing.
proof fn lemma_fetch_step(items: Seq<(Seq<char>, Seq<char>)>, local: Seq<Seq<char>>, i: int)
    requires
        0 <= i < items.len(),
    ensures
        fetch_ids_of(items.subrange(0, i + 1), local) == if item_present(items[i], local) {
            fetch_ids_of(items.subrange(0, i), local)
        } else {
            fetch_ids_of(items.subrange(0, i), local).push(items[i].0)
        },
{
    let s = items.subrange(0, i + 1);
    assert(s.drop_last() =~= items.subrange(0, i));
    assert(s.last() == items[i]);
}

/// Computes, in listing order, the ids of the items that still have to be
/// fetched: exactly those whose expected filename is not in the
/// normalized snapshot.
pub fn compute_fetch_list(items: &Vec<RemoteItem>, local: &Vec<String>) -> (r: Vec<String>)
    ensures
        seq_views(r@) == fetch_ids_of(item_views(items@), seq_views(local@)),
{
    let normalized = normalize_snapshot(local);
    let mut out: Vec<String> = Vec::new();
    let mut i: usize = 0;
    while i < items.len()
        invariant
            i <= items@.len(),
            seq_views(normalized@) == normalize_of(seq_views(local@)),
            seq_views(out@) == fetch_ids_of(
                item_views(items@).subrange(0, i as int),
                seq_views(local@),
            ),
        decreases items@.len() - i,
    {
        let name = expected_filename(items[i].id.as_str(), items[i].title.as_str());
        proof {
            lemma_fetch_step(item_views(items@), seq_views(local@), i as int);
            assert(item_views(items@)[i as int] == (items@[i as int].id@, items@[i as int].title@));
        }
        if !contains_name(&normalized, &name) {
            out.push(items[i].id.clone());
            proof {
                assert(seq_views(out@) =~= fetch_ids_of(
                    item_views(items@).subrange(0, i + 1),
                    seq_views(local@),
                ));
            }
        }
        i = i + 1;
    }
    proof {
        assert(item_views(items@).subrange(0, items@.len() as int) =~= item_views(items@));
    }
    out
}

/// The whole decision content of one sync pass: interprets the listing
/// call's outcome, then diffs the listed items against the snapshot.  The
/// caller performs the fetches, one per returned id, in order.
pub fn plan_sync(listing_ok: bool, lines: &Vec<String>, local: &Vec<String>) -> (r: Result<
    Vec<String>,
    ListError,
>)
    ensures
        !listing_ok ==> r == Err::<Vec<String>, ListError>(ListError::ServiceFailure),
        listing_ok && !all_records_ok(seq_views(lines@)) ==> r == Err::<Vec<String>, ListError>(
            ListError::ParseFailure,
        ),
        listing_ok && all_records_ok(seq_views(lines@)) ==> (r matches Ok(ids) && seq_views(ids@)
            == fetch_ids_of(records_of(seq_views(lines@)), seq_views(local@))),
{
    match interpret_listing(listing_ok, lines) {
        Ok(items) => Ok(compute_fetch_list(&items, local)),
        Err(e) => Err(e),
    }
}

/// The items of the listing whose expected filename the normalized
/// snapshot does not hold.
pub open spec fn missing_items(items: Seq<(Seq<char>, Seq<char>)>, local: Seq<Seq<char>>) -> Seq<
    (Seq<char>, Seq<char>),
> {
    items.filter(|it: (Seq<char>, Seq<char>)| !item_present(it, local))
}

/// The ids of a sequence of items, in order.
pub open spec fn ids_of(items: Seq<(Seq<char>, Seq<char>)>) -> Seq<Seq<char>> {
    items.map_values(|it: (Seq<char>, Seq<char>)| it.0)
}

/// The fetch set is the remote listing minus the items already present:
/// it keeps, in listing order, the id of exactly every item whose
/// expected filename is not in the normalized snapshot.
pub proof fn lemma_fetch_set_is_difference(
    items: Seq<(Seq<char>, Seq<char>)>,
    local: Seq<Seq<char>>,
)
    ensures
        fetch_ids_of(items, local) == ids_of(missing_items(items, local)),
    decreases items.len(),
{
    reveal(Seq::<(Seq<char>, Seq<char>)>::filter);
    if items.len() == 0 {
        assert(fetch_ids_of(items, local) =~= ids_of(missing_items(items, local)));
    } else {
        lemma_fetch_set_is_difference(items.drop_last(), local);
        let rest = missing_items(items.drop_last(), local);
        if !item_present(items.last(), local) {
            assert(missing_items(items, local) == rest.push(items.last()));
            assert(ids_of(rest.push(items.last())) =~= ids_of(rest).push(items.last().0));
        } else {
            assert(missing_items(items, local) == rest);
        }
    }
}

/// Sanitizing an expected name is a no-op when the id holds no reserved
/// character: the title part is already sanitized, and the fixed parts
/// hold no reserved character.
pub proof fn lemma_expected_name_sanitized(item: (Seq<char>, Seq<char>))
    requires
        sanitize_seq(item.0) == item.0,
    ensures
        sanitize_seq(expected_name_of(item)) == expected_name_of(item),
{
    reveal_strlit(" [");
    reveal_strlit("].opus");
    let t = sanitize_seq(item.1);
    lemma_sanitize_add(t + " ["@ + item.0, "].opus"@);
    lemma_sanitize_add(t + " ["@, item.0);
    lemma_sanitize_add(t, " ["@);
    lemma_sanitize_idempotent(item.1);
    assert(sanitize_seq(" ["@) =~= " ["@);
    assert(sanitize_seq("].opus"@) =~= "].opus"@);
}

/// A snapshot entry that is byte-identical to the expected name makes the
/// item present, for ids without reserved characters.
proof fn lemma_raw_entry_present(item: (Seq<char>, Seq<char>), local: Seq<Seq<char>>)
    requires
        local.contains(expected_name_of(item)),
        sanitize_seq(item.0) == item.0,
    ensures
        item_present(item, local),
{
    lemma_expected_name_sanitized(item);
    let e = expected_name_of(item);
    let j = choose|j: int| 0 <= j < local.len() && local[j] == e;
    assert(normalize_of(local)[j] == sanitize_seq(e));
    assert(normalize_of(local).contains(e));
}

/// Removing a present item leaves the fetch set unchanged.
proof fn lemma_present_removed(items: Seq<(Seq<char>, Seq<char>)>, local: Seq<Seq<char>>, i: int)
    requires
        0 <= i < items.len(),
        item_present(items[i], local),
    ensures
        fetch_ids_of(items, local) == fetch_ids_of(items.remove(i), local),
    decreases items.len(),
{
    if i == items.len() - 1 {
        assert(items.remove(i) =~= items.drop_last());
    } else {
        lemma_present_removed(items.drop_last(), local, i);
        let shorter = items.remove(i);
        assert(shorter.drop_last() =~= items.drop_last().remove(i));
        assert(shorter.last() == items.last());
    }
}

/// Exact-match mode never fetches an item whose composed filename is
/// byte-identical to an existing snapshot entry: the membership test
/// succeeds for it, and the fetch set is the same with or without the
/// item.  An id holding a reserved character is left out: its file would
/// stand on disk under a different, sanitized name.
pub proof fn lemma_identical_entry_not_fetched(
    items: Seq<(Seq<char>, Seq<char>)>,
    local: Seq<Seq<char>>,
    i: int,
)
    requires
        0 <= i < items.len(),
        local.contains(expected_name_of(items[i])),
        sanitize_seq(items[i].0) == items[i].0,
    ensures
        item_present(items[i], local),
        fetch_ids_of(items, local) == fetch_ids_of(items.remove(i), local),
{
    lemma_raw_entry_present(items[i], local);
    lemma_present_removed(items, local, i);
}

/// Presence survives growing the snapshot.
proof fn lemma_present_in_superset(
    item: (Seq<char>, Seq<char>),
    before: Seq<Seq<char>>,
    after: Seq<Seq<char>>,
)
    requires
        item_present(item, before),
        forall|n: Seq<char>| #[trigger] before.contains(n) ==> after.contains(n),
    ensures
        item_present(item, after),
{
    let e = expected_name_of(item);
    let j = choose|j: int| 0 <= j < before.len() && normalize_of(before)[j] == e;
    assert(before.contains(before[j]));
    let k = choose|k: int| 0 <= k < after.len() && after[k] == before[j];
    assert(normalize_of(after)[k] == e);
    assert(normalize_of(after).contains(e));
}

/// With every item present, nothing is fetched.
proof fn lemma_all_present_empty(items: Seq<(Seq<char>, Seq<char>)>, local: Seq<Seq<char>>)
    requires
        forall|j: int| 0 <= j < items.len() ==> item_present(#[trigger] items[j], local),
    ensures
        fetch_ids_of(items, local) == Seq::<Seq<char>>::empty(),
    decreases items.len(),
{
    if items.len() == 0 {
        assert(fetch_ids_of(items, local) =~= Seq::<Seq<char>>::empty());
    } else {
        assert(items.last() == items[items.len() - 1]);
        lemma_all_present_empty(items.drop_last(), local);
    }
}

/// Idempotence of a sync pass: if the first pass removed no file and
/// deposited, under its expected name, the file of every item it decided
/// to fetch, then a second pass over an unchanged listing fetches
/// nothing.  Ids holding a reserved character are left out: their files
/// land on disk under a different, sanitized name.
pub proof fn lemma_second_pass_fetches_nothing(
    items: Seq<(Seq<char>, Seq<char>)>,
    before: Seq<Seq<char>>,
    after: Seq<Seq<char>>,
)
    requires
        forall|j: int| 0 <= j < items.len() ==> sanitize_seq((#[trigger] items[j]).0) == items[j].0,
        forall|n: Seq<char>| #[trigger] before.contains(n) ==> after.contains(n),
        forall|j: int|
            0 <= j < items.len() && !item_present(#[trigger] items[j], before) ==> after.contains(
                expected_name_of(items[j]),
            ),
    ensures
        fetch_ids_of(items, after) == Seq::<Seq<char>>::empty(),
{
    assert forall|j: int| 0 <= j < items.len() implies item_present(
        #[trigger] items[j],
        after,
    ) by {
        if item_present(items[j], before) {
            lemma_present_in_superset(items[j], before, after);
        } else {
            lemma_raw_entry_present(items[j], after);
        }
    }
    lemma_all_present_empty(items, after);
}

/// What one sync pass reports: how many items were newly fetched.
#[derive(Debug, Clone, Copy, PartialEq, Eq, Structural)]
pub struct SyncReport {
    pub fetched_count: usize,
}

/// How many fetches of a pass succeeded.
pub open spec fn count_true(s: Seq<bool>) -> int
    decreases s.len(),
{
    if s.len() == 0 {
        0
    } else {
        count_true(s.drop_last()) + if s.last() {
            1int
        } else {
            0int
        }
    }
}

/// Tallies the per-item fetch outcomes of one pass into its report.  A
/// failed fetch is counted as not fetched and stops nothing.
pub fn make_report(results: &Vec<bool>) -> (r: SyncReport)
    ensures
        r.fetched_count == count_true(results@),
{
    let mut count: usize = 0;
    let mut i: usize = 0;
    while i < results.len()
        invariant
            i <= results@.len(),
            count <= i,
            count == count_true(results@.subrange(0, i as int)),
        decreases results@.len() - i,
    {
        proof {
            assert(results@.subrange(0, i + 1).drop_last() =~= results@.subrange(0, i as int));
            assert(results@.subrange(0, i + 1).last() == results@[i as int]);
        }
        if results[i] {
            count = count + 1;
        }
        i = i + 1;
    }
    proof {
        assert(results@.subrange(0, results@.len() as int) =~= results@);
    }
    SyncReport { fetched_count: count }
}

} // verus!
