//! The Raft log: entries by their index.
use crate::entry::{snapshot_pointer, Entry, EntryView};
use crate::membership::{initial_membership, MembershipConfig, MembershipView, NodeId};
use crate::ordered::{in_order, lists_in_order};
use std::collections::BTreeMap;
use vstd::prelude::*;

verus! {

/// What a log holds.
pub open spec fn log_view(log: Map<u64, Entry>) -> Map<u64, EntryView> {
    log.map_values(|entry: Entry| entry@)
}

/// The greatest number of a set, if the set holds any.
pub open spec fn greatest(numbers: Set<u64>) -> Option<u64> {
    if exists|k: u64| numbers.contains(k) {
        Some(choose|k: u64| is_greatest(numbers, k))
    } else {
        None
    }
}

/// `k` is in the set, and nothing in the set is greater.
pub open spec fn is_greatest(numbers: Set<u64>, k: u64) -> bool {
    &&& numbers.contains(k)
    &&& forall|j: u64| numbers.contains(j) ==> j <= k
}

/// There is one greatest number at most.
pub proof fn lemma_greatest_is(numbers: Set<u64>, k: u64)
    requires
        is_greatest(numbers, k),
    ensures
        greatest(numbers) == Some(k),
{
    let other = choose|j: u64| is_greatest(numbers, j);
    assert(is_greatest(numbers, other));
}

/// A set that is not empty has a greatest number.
pub proof fn lemma_greatest_exists(numbers: Set<u64>, k: u64)
    requires
        numbers.contains(k),
    ensures
        greatest(numbers) is Some,
        is_greatest(numbers, greatest(numbers)->0),
    decreases u64::MAX - k,
{
    if is_greatest(numbers, k) {
        lemma_greatest_is(numbers, k);
    } else {
        let j = choose|j: u64| numbers.contains(j) && j > k;
        lemma_greatest_exists(numbers, j);
    }
}

/// The keys of the entries that carry a membership config.
pub open spec fn membership_keys(log: Map<u64, EntryView>) -> Set<u64> {
    Set::new(|k: u64| log.contains_key(k) && log[k].membership() is Some)
}

/// The latest membership config found in the log, else that of a pristine node.
pub open spec fn latest_membership(log: Map<u64, EntryView>, id: NodeId) -> MembershipView {
    match greatest(membership_keys(log)) {
        Some(k) => log[k].membership()->0,
        None => initial_membership(id),
    }
}

/// The keys of the entries that carry a membership config and whose index is at most `through`.
pub open spec fn config_keys(log: Map<u64, EntryView>, through: u64) -> Set<u64> {
    Set::new(
        |k: u64| log.contains_key(k) && log[k].index <= through && log[k].membership() is Some,
    )
}

/// The most recent membership config of the entries whose index is at most `through`, else that of
/// a pristine node.
pub open spec fn config_through(
    log: Map<u64, EntryView>,
    through: u64,
    id: NodeId,
) -> MembershipView {
    match greatest(config_keys(log, through)) {
        Some(k) => log[k].membership()->0,
        None => initial_membership(id),
    }
}

/// The log without the entries before `first`.
pub open spec fn from_key(log: Map<u64, EntryView>, first: u64) -> Map<u64, EntryView> {
    Map::new(|k: u64| log.contains_key(k) && k >= first, |k: u64| log[k])
}

/// The log without the entries in `[start, stop)`; without `stop`, none from `start` on.
pub open spec fn without_keys(
    log: Map<u64, EntryView>,
    start: u64,
    stop: Option<u64>,
) -> Map<u64, EntryView> {
    Map::new(
        |k: u64| log.contains_key(k) && !(start <= k && (stop is Some ==> k < stop->0)),
        |k: u64| log[k],
    )
}

/// The entries in `[start, stop)`, in the order of their keys.
pub open spec fn entries_between(log: Map<u64, EntryView>, start: int, stop: int) -> Seq<EntryView>
    decreases stop - start,
{
    if start >= stop {
        Seq::empty()
    } else if 0 <= start <= u64::MAX && log.contains_key(start as u64) {
        seq![log[start as u64]] + entries_between(log, start + 1, stop)
    } else {
        entries_between(log, start + 1, stop)
    }
}

/// The log after `entries` have been written to it, each at its index, the first one first.
pub open spec fn with_entries(
    log: Map<u64, EntryView>,
    entries: Seq<EntryView>,
) -> Map<u64, EntryView>
    decreases entries.len(),
{
    if entries.len() == 0 {
        log
    } else {
        with_entries(log, entries.drop_last()).insert(entries.last().index, entries.last())
    }
}

/// The index and the term of the last entry, zero where there is none.
pub open spec fn last_index_and_term(log: Map<u64, EntryView>) -> (u64, u64) {
    match greatest(log.dom()) {
        Some(k) => (log[k].index, log[k].term),
        None => (0, 0),
    }
}

/// Reads the latest membership config off the log.
pub fn find_membership(log: &BTreeMap<u64, Entry>, id: NodeId) -> (config: MembershipConfig)
    ensures
        config@ == latest_membership(log_view(log@), id),
{
    let ghost view = log_view(log@);
    let items = in_order(log);
    let mut i: usize = items.len();
    while i > 0
        invariant
            i <= items@.len(),
            view == log_view(log@),
            lists_in_order(log@, items@),
            forall|j: int| i <= j < items@.len() ==> (#[trigger] items@[j]).1@.membership() is None,
        decreases i,
    {
        i -= 1;
        if let Some(config) = items[i].1.membership() {
            proof {
                let k = items@[i as int].0;
                assert(log@.contains_pair(k, *items@[i as int].1));
                assert forall|j: u64| membership_keys(view).contains(j) implies j <= k by {
                    let p = choose|p: int| 0 <= p < items@.len() && (#[trigger] items@[p]).0 == j;
                    assert(log@.contains_pair(items@[p].0, *items@[p].1));
                }
                lemma_greatest_is(membership_keys(view), k);
            }
            return config.clone();
        }
    }
    proof {
        assert forall|j: u64| !membership_keys(view).contains(j) by {
            if log@.contains_key(j) {
                let p = choose|p: int| 0 <= p < items@.len() && (#[trigger] items@[p]).0 == j;
                assert(log@.contains_pair(items@[p].0, *items@[p].1));
            }
        }
    }
    MembershipConfig::new_initial(id)
}

/// The log after compaction through `at`: the entries from `at` on, with a pointer to the snapshot
/// in the place of the entry at `at`.
pub open spec fn compacted(log: Map<u64, EntryView>, at: u64, id: NodeId) -> Map<u64, EntryView> {
    from_key(log, at).insert(
        at,
        snapshot_pointer(at, log[at].term, Seq::empty(), config_through(log, at, id)),
    )
}

/// The log after the installation of a snapshot: what `delete_through` leaves of it, with a pointer
/// to the snapshot at `index`.
pub open spec fn installed(
    log: Map<u64, EntryView>,
    index: u64,
    term: u64,
    delete_through: Option<u64>,
    snapshot_id: Seq<char>,
    id: NodeId,
) -> Map<u64, EntryView> {
    let kept = match delete_through {
        Some(through) => Map::new(|k: u64| log.contains_key(k) && k > through, |k: u64| log[k]),
        None => Map::empty(),
    };
    kept.insert(index, snapshot_pointer(index, term, snapshot_id, config_through(log, index, id)))
}

/// What a list of entries holds.
pub open spec fn entries_view(entries: Seq<Entry>) -> Seq<EntryView> {
    entries.map_values(|entry: Entry| entry@)
}

/// What stands between two keys is what stands before and after a key between them.
pub proof fn lemma_entries_between_split(log: Map<u64, EntryView>, start: int, mid: int, stop: int)
    requires
        start <= mid <= stop,
    ensures
        entries_between(log, start, stop) == entries_between(log, start, mid)
            + entries_between(log, mid, stop),
    decreases mid - start,
{
    if start < mid {
        lemma_entries_between_split(log, start + 1, mid, stop);
    }
    assert(entries_between(log, start, stop) =~= entries_between(log, start, mid)
        + entries_between(log, mid, stop));
}

/// Where the log has no key in a range, no entry stands there.
pub proof fn lemma_no_entries_between(log: Map<u64, EntryView>, start: int, stop: int)
    requires
        forall|k: u64| #[trigger] log.contains_key(k) ==> !(start <= k < stop),
    ensures
        entries_between(log, start, stop) == Seq::<EntryView>::empty(),
    decreases stop - start,
{
    if start < stop {
        if 0 <= start <= u64::MAX {
            assert(!log.contains_key(start as u64));
        }
        lemma_no_entries_between(log, start + 1, stop);
    }
}

/// The key that a walk through `items` comes to at place `i`, kept within `[start, stop]`.
spec fn reached(items: Seq<(u64, &Entry)>, i: int, start: u64, stop: u64) -> int {
    if i >= items.len() || items[i].0 > stop {
        stop as int
    } else if items[i].0 < start {
        start as int
    } else {
        items[i].0 as int
    }
}

/// Calls `std::collections::BTreeMap::split_off`, which moves what stands at the given key and
/// after it into a map of its own and leaves the rest.
#[verifier::external_body]
fn split_off<V>(map: &mut BTreeMap<u64, V>, key: u64) -> (tail: BTreeMap<u64, V>)
    ensures
        final(map)@ == Map::new(|k: u64| old(map)@.contains_key(k) && k < key, |k: u64| old(map)@[k]),
        tail@ == Map::new(|k: u64| old(map)@.contains_key(k) && k >= key, |k: u64| old(map)@[k]),
{
    map.split_off(&key)
}

/// Goes backwards through the log to the most recent membership config of an entry whose index is
/// at most `through`.
pub fn find_config_through(
    log: &BTreeMap<u64, Entry>,
    through: u64,
    id: NodeId,
) -> (config: MembershipConfig)
    ensures
        config@ == config_through(log_view(log@), through, id),
{
    let ghost view = log_view(log@);
    let items = in_order(log);
    let mut i: usize = items.len();
    while i > 0
        invariant
            i <= items@.len(),
            view == log_view(log@),
            lists_in_order(log@, items@),
            forall|j: int|
                i <= j < items@.len() ==> (#[trigger] items@[j]).1@.index > through
                    || items@[j].1@.membership() is None,
        decreases i,
    {
        i -= 1;
        let entry = items[i].1;
        if entry.index <= through {
            if let Some(config) = entry.membership() {
                proof {
                    let k = items@[i as int].0;
                    assert(log@.contains_pair(k, *items@[i as int].1));
                    assert forall|j: u64| config_keys(view, through).contains(j) implies j <= k by {
                        let p = choose|p: int| 0 <= p < items@.len() && (#[trigger] items@[p]).0 == j;
                        assert(log@.contains_pair(items@[p].0, *items@[p].1));
                    }
                    lemma_greatest_is(config_keys(view, through), k);
                }
                return config.clone();
            }
        }
    }
    proof {
        assert forall|j: u64| !config_keys(view, through).contains(j) by {
            if log@.contains_key(j) {
                let p = choose|p: int| 0 <= p < items@.len() && (#[trigger] items@[p]).0 == j;
                assert(log@.contains_pair(items@[p].0, *items@[p].1));
            }
        }
    }
    MembershipConfig::new_initial(id)
}

/// Reads the index and the term of the last entry.
pub fn last_entry(log: &BTreeMap<u64, Entry>) -> (position: (u64, u64))
    ensures
        position == last_index_and_term(log_view(log@)),
{
    let ghost view = log_view(log@);
    let items = in_order(log);
    if items.len() == 0 {
        assert forall|k: u64| !view.dom().contains(k) by {}
        (0, 0)
    } else {
        let (key, entry) = items[items.len() - 1];
        proof {
            assert(log@.contains_pair(items@.last().0, *items@.last().1));
            assert forall|k: u64| view.dom().contains(k) implies k <= key by {
                let p = choose|p: int| 0 <= p < items@.len() && (#[trigger] items@[p]).0 == k;
            }
            lemma_greatest_is(view.dom(), key);
        }
        (entry.index, entry.term)
    }
}

/// Copies the entries in `[start, stop)`, in the order of their keys.
pub fn read_entries(log: &BTreeMap<u64, Entry>, start: u64, stop: u64) -> (entries: Vec<Entry>)
    ensures
        entries_view(entries@) == entries_between(log_view(log@), start as int, stop as int),
{
    if start > stop {
        let none: Vec<Entry> = Vec::new();
        assert(entries_view(none@) =~= Seq::<EntryView>::empty());
        return none;
    }
    let ghost view = log_view(log@);
    let items = in_order(log);
    let mut entries: Vec<Entry> = Vec::new();
    let mut i: usize = 0;
    proof {
        assert(entries_view(entries@) =~= Seq::<EntryView>::empty());
        assert forall|k: u64| #[trigger] view.contains_key(k) implies !(start <= k < reached(
            items@,
            0,
            start,
            stop,
        )) by {
            let p = choose|p: int| 0 <= p < items@.len() && (#[trigger] items@[p]).0 == k;
        }
        lemma_no_entries_between(view, start as int, reached(items@, 0, start, stop));
    }
    while i < items.len()
        invariant
            i <= items@.len(),
            start <= stop,
            view == log_view(log@),
            lists_in_order(log@, items@),
            entries_view(entries@) == entries_between(
                view,
                start as int,
                reached(items@, i as int, start, stop),
            ),
        decreases items@.len() - i,
    {
        let (key, entry) = items[i];
        let ghost before = entries@;
        if start <= key && key < stop {
            entries.push(entry.clone());
        }
        proof {
            let from = reached(items@, i as int, start, stop);
            let to = reached(items@, i + 1, start, stop);
            assert(log@.contains_pair(items@[i as int].0, *items@[i as int].1));
            lemma_entries_between_split(view, start as int, from, to);
            assert forall|k: u64| #[trigger] view.contains_key(k) && k != key implies !(from <= k
                < to) by {
                let p = choose|p: int| 0 <= p < items@.len() && (#[trigger] items@[p]).0 == k;
                assert(p < i || p == i || p > i);
                if p > i + 1 {
                    assert(items@[i + 1].0 < items@[p].0);
                }
            }
            if start <= key && key < stop {
                assert(from == key);
                lemma_no_entries_between(view, from + 1, to);
                assert(entries_between(view, from, to) =~= seq![view[key]]);
                assert(entries_view(entries@) =~= entries_view(before).push(entry@));
            } else {
                assert forall|k: u64| #[trigger] view.contains_key(k) implies !(from <= k < to) by {}
                lemma_no_entries_between(view, from, to);
            }
        }
        i += 1;
    }
    entries
}

/// Deletes the entries in `[start, stop)`; without `stop`, all entries from `start` on.
///
/// Where `start` comes after `stop`, nothing is deleted.
pub fn delete_entries(log: &mut BTreeMap<u64, Entry>, start: u64, stop: Option<u64>)
    ensures
        log_view(final(log)@) == without_keys(log_view(old(log)@), start, stop),
{
    let ghost view = log_view(log@);
    match stop {
        Some(stop) => {
            let mut key: u64 = start;
            assert(log_view(log@) =~= without_keys(view, start, Some(key)));
            while key < stop
                invariant
                    start <= key,
                    start <= stop ==> key <= stop,
                    start > stop ==> key == start,
                    log_view(log@) == without_keys(view, start, Some(key)),
                decreases stop - key,
            {
                let ghost before = log@;
                log.remove(&key);
                assert(log@ == before.remove(key));
                assert(log_view(log@) =~= log_view(before).remove(key));
                key += 1;
                assert(log_view(log@) =~= without_keys(view, start, Some(key)));
            }
            assert(log_view(log@) =~= without_keys(view, start, Some(stop)));
        },
        None => {
            split_off(log, start);
            assert(log_view(log@) =~= without_keys(view, start, None));
        },
    }
}

/// Writes an entry at its index.
pub fn write_entry(log: &mut BTreeMap<u64, Entry>, entry: &Entry)
    ensures
        log_view(final(log)@) == log_view(old(log)@).insert(entry.index, entry@),
{
    let copy = entry.clone();
    log.insert(entry.index, copy);
    assert(log_view(log@) =~= log_view(old(log)@).insert(entry.index, entry@));
}

/// Compacts the log through the entry at `at`, and gives the term of that entry and the membership
/// config that the snapshot covers. Without an entry at `at` the log stays as it is.
pub fn compact(log: &mut BTreeMap<u64, Entry>, at: u64, id: NodeId) -> (covered: Option<
    (u64, MembershipConfig),
>)
    ensures
        match covered {
            Some((term, membership)) => {
                &&& log_view(old(log)@).contains_key(at)
                &&& term == log_view(old(log)@)[at].term
                &&& membership@ == config_through(log_view(old(log)@), at, id)
                &&& log_view(final(log)@) == compacted(log_view(old(log)@), at, id)
            },
            None => {
                &&& !log_view(old(log)@).contains_key(at)
                &&& final(log)@ == old(log)@
            },
        },
{
    let ghost view = log_view(log@);
    let membership = find_config_through(log, at, id);
    let term: u64 = match log.get(&at) {
        Some(entry) => entry.term,
        None => {
            return None;
        },
    };
    let mut tail = split_off(log, at);
    tail.insert(at, Entry::new_snapshot_pointer(at, term, String::new(), membership.clone()));
    *log = tail;
    assert(log_view(log@) =~= compacted(view, at, id));
    Some((term, membership))
}

/// Replaces what `delete_through` covers by a pointer to a snapshot at `index`.
pub fn install_pointer(
    log: &mut BTreeMap<u64, Entry>,
    index: u64,
    term: u64,
    delete_through: Option<u64>,
    snapshot_id: String,
    id: NodeId,
)
    requires
        delete_through != Some(u64::MAX),
    ensures
        log_view(final(log)@) == installed(
            log_view(old(log)@),
            index,
            term,
            delete_through,
            snapshot_id@,
            id,
        ),
{
    let ghost view = log_view(log@);
    let membership = find_config_through(log, index, id);
    match delete_through {
        Some(through) => {
            let tail = split_off(log, through + 1);
            *log = tail;
        },
        None => log.clear(),
    }
    log.insert(index, Entry::new_snapshot_pointer(index, term, snapshot_id, membership));
    assert(log_view(log@) =~= installed(view, index, term, delete_through, snapshot_id@, id));
}

} // verus!
