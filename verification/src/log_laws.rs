//! Laws of the log.
use crate::entry::{snapshot_pointer, EntryView, PayloadView};
use crate::log::{
    compacted, config_keys, config_through, entries_between, greatest, installed,
    is_greatest, last_index_and_term, latest_membership, lemma_entries_between_split,
    lemma_greatest_exists, lemma_greatest_is, lemma_no_entries_between, membership_keys,
    with_entries, without_keys,
};
use crate::membership::{MembershipView, NodeId};
use vstd::prelude::*;

verus! {

/// Each entry stands at its index.
pub open spec fn indexed(log: Map<u64, EntryView>) -> bool {
    forall|k: u64| #[trigger] log.contains_key(k) ==> log[k].index == k
}

/// An entry that was written is read back from its index.
pub proof fn law_written_entry_is_read_back(log: Map<u64, EntryView>, entry: EntryView)
    ensures
        entries_between(log.insert(entry.index, entry), entry.index as int, entry.index + 1)
            == seq![entry],
{
    let after = log.insert(entry.index, entry);
    assert(entries_between(after, entry.index + 1, entry.index + 1) =~= Seq::<EntryView>::empty());
    assert(entries_between(after, entry.index as int, entry.index + 1) =~= seq![entry]);
}

/// What is read from a range is what the log holds there.
pub proof fn law_reads_depend_on_the_range_alone(
    log: Map<u64, EntryView>,
    other: Map<u64, EntryView>,
    start: int,
    stop: int,
)
    requires
        forall|k: u64|
            start <= k < stop ==> (#[trigger] log.contains_key(k) == other.contains_key(k) && (
            log.contains_key(k) ==> log[k] == other[k])),
    ensures
        entries_between(log, start, stop) == entries_between(other, start, stop),
    decreases stop - start,
{
    if start < stop {
        law_reads_depend_on_the_range_alone(log, other, start + 1, stop);
        if 0 <= start <= u64::MAX {
            assert(log.contains_key(start as u64) == other.contains_key(start as u64));
        }
    }
}

/// The entry stands in the log at a key of the range.
pub open spec fn stands_between(
    log: Map<u64, EntryView>,
    start: int,
    stop: int,
    entry: EntryView,
) -> bool {
    exists|k: u64| start <= k < stop && #[trigger] log.contains_key(k) && log[k] == entry
}

/// Every entry of the log whose key lies in the range is read, and no other.
pub proof fn law_reads_are_complete(log: Map<u64, EntryView>, start: int, stop: int)
    ensures
        forall|k: u64|
            start <= k < stop && #[trigger] log.contains_key(k) ==> entries_between(
                log,
                start,
                stop,
            ).contains(log[k]),
        forall|i: int|
            0 <= i < entries_between(log, start, stop).len() ==> stands_between(
                log,
                start,
                stop,
                #[trigger] entries_between(log, start, stop)[i],
            ),
    decreases stop - start,
{
    if start < stop {
        law_reads_are_complete(log, start + 1, stop);
        let all = entries_between(log, start, stop);
        let rest = entries_between(log, start + 1, stop);
        let here = 0 <= start <= u64::MAX && log.contains_key(start as u64);
        assert forall|k: u64| start <= k < stop && #[trigger] log.contains_key(k) implies all.contains(
            log[k],
        ) by {
            if k == start {
                assert(all[0] == log[k]);
            } else {
                assert(rest.contains(log[k]));
                let i = choose|i: int| 0 <= i < rest.len() && rest[i] == log[k];
                if here {
                    assert(all[i + 1] == rest[i]);
                }
            }
        }
        assert forall|i: int| 0 <= i < all.len() implies stands_between(
            log,
            start,
            stop,
            #[trigger] all[i],
        ) by {
            if here && i == 0 {
                assert(log.contains_key(start as u64) && log[start as u64] == all[i]);
            } else {
                let j = if here { i - 1 } else { i };
                assert(all[i] == rest[j]);
                assert(stands_between(log, start + 1, stop, rest[j]));
                let k = choose|k: u64|
                    start + 1 <= k < stop && #[trigger] log.contains_key(k) && log[k] == rest[j];
                assert(log.contains_key(k) && log[k] == all[i]);
            }
        }
    }
}

/// Of a log in which each entry stands at its index, entries are read in the order of their
/// indexes, and their indexes lie in the range.
pub proof fn law_reads_are_in_order(log: Map<u64, EntryView>, start: int, stop: int)
    requires
        indexed(log),
    ensures
        forall|i: int|
            0 <= i < entries_between(log, start, stop).len() ==> start <= (
            #[trigger] entries_between(log, start, stop)[i]).index < stop,
        forall|i: int, j: int|
            0 <= i < j < entries_between(log, start, stop).len() ==> (#[trigger] entries_between(
                log,
                start,
                stop,
            )[i]).index < (#[trigger] entries_between(log, start, stop)[j]).index,
    decreases stop - start,
{
    if start < stop {
        law_reads_are_in_order(log, start + 1, stop);
        let all = entries_between(log, start, stop);
        let rest = entries_between(log, start + 1, stop);
        if 0 <= start <= u64::MAX && log.contains_key(start as u64) {
            assert(forall|i: int| 0 < i < all.len() ==> #[trigger] all[i] == rest[i - 1]);
        }
    }
}

/// Deletion leaves no entry in its range, and leaves what is outside of it.
pub proof fn law_deleted_entries_are_gone(
    log: Map<u64, EntryView>,
    start: u64,
    stop: Option<u64>,
    from: int,
    to: int,
)
    ensures
        stop is Some ==> entries_between(
            without_keys(log, start, stop),
            start as int,
            stop->0 as int,
        ) == Seq::<EntryView>::empty(),
        stop is None ==> entries_between(without_keys(log, start, stop), start as int, to)
            == Seq::<EntryView>::empty(),
        to <= start ==> entries_between(without_keys(log, start, stop), from, to)
            == entries_between(log, from, to),
        stop is Some && start <= stop->0 <= from ==> entries_between(
            without_keys(log, start, stop),
            from,
            to,
        ) == entries_between(log, from, to),
{
    let after = without_keys(log, start, stop);
    match stop {
        Some(end) => {
            lemma_no_entries_between(after, start as int, end as int);
            if start <= end <= from {
                law_reads_depend_on_the_range_alone(after, log, from, to);
            }
        },
        None => {
            lemma_no_entries_between(after, start as int, to);
        },
    }
    if to <= start {
        law_reads_depend_on_the_range_alone(after, log, from, to);
    }
}

/// A range that ends before it starts is empty: nothing is read from it, and nothing is deleted.
pub proof fn law_reversed_range_is_empty(log: Map<u64, EntryView>, start: u64, stop: u64)
    requires
        start > stop,
    ensures
        entries_between(log, start as int, stop as int) == Seq::<EntryView>::empty(),
        without_keys(log, start, Some(stop)) == log,
{
    assert(without_keys(log, start, Some(stop)) =~= log);
}

/// Replication leaves at each index the last entry written there, and elsewhere what was there.
pub proof fn law_replicated_entries_stand_at_their_indexes(
    log: Map<u64, EntryView>,
    entries: Seq<EntryView>,
    i: int,
    k: u64,
)
    ensures
        0 <= i < entries.len() && (forall|j: int|
            i < j < entries.len() ==> (#[trigger] entries[j]).index != entries[i].index)
            ==> with_entries(log, entries).contains_pair(entries[i].index, entries[i]),
        (forall|j: int| 0 <= j < entries.len() ==> (#[trigger] entries[j]).index != k) ==> (
        with_entries(log, entries).contains_key(k) == log.contains_key(k) && (log.contains_key(k)
            ==> with_entries(log, entries)[k] == log[k])),
    decreases entries.len(),
{
    if entries.len() > 0 {
        let before = entries.drop_last();
        law_replicated_entries_stand_at_their_indexes(log, before, i, k);
        let last = entries.len() - 1;
        if 0 <= i < last && (forall|j: int|
            i < j < entries.len() ==> (#[trigger] entries[j]).index != entries[i].index) {
            assert(entries[last].index != entries[i].index);
            assert(forall|j: int| i < j < before.len() ==> #[trigger] before[j] == entries[j]);
        }
        if forall|j: int| 0 <= j < entries.len() ==> (#[trigger] entries[j]).index != k {
            assert(entries[last].index != k);
            assert(forall|j: int| 0 <= j < before.len() ==> #[trigger] before[j] == entries[j]);
        }
    }
}

/// A payload of entries with consecutive indexes is read back as it was replicated.
pub proof fn law_replicated_payload_is_read_back(
    log: Map<u64, EntryView>,
    entries: Seq<EntryView>,
    start: int,
)
    requires
        forall|i: int| 0 <= i < entries.len() ==> (#[trigger] entries[i]).index == start + i,
    ensures
        entries_between(with_entries(log, entries), start, start + entries.len()) == entries,
    decreases entries.len(),
{
    let after = with_entries(log, entries);
    if entries.len() == 0 {
        assert(entries_between(after, start, start) =~= entries);
    } else {
        let first = entries.drop_last();
        let last = start + first.len();
        assert(entries[first.len() as int].index == last);
        law_replicated_payload_is_read_back(log, first, start);
        law_reads_depend_on_the_range_alone(with_entries(log, first), after, start, last);
        law_written_entry_is_read_back(with_entries(log, first), entries.last());
        lemma_entries_between_split(after, start, last, last + 1);
        assert(first + seq![entries.last()] =~= entries);
    }
}

/// Entries that are replicated in two payloads leave the log that one payload with all of them
/// leaves.
pub proof fn law_log_payloads_join(
    log: Map<u64, EntryView>,
    first: Seq<EntryView>,
    second: Seq<EntryView>,
)
    ensures
        with_entries(with_entries(log, first), second) == with_entries(log, first + second),
    decreases second.len(),
{
    if second.len() == 0 {
        assert(first + second =~= first);
    } else {
        law_log_payloads_join(log, first, second.drop_last());
        assert((first + second).drop_last() =~= first + second.drop_last());
    }
}

/// In an empty log each entry stands at its index, and every operation keeps it so.
pub proof fn law_log_stays_indexed(
    log: Map<u64, EntryView>,
    entries: Seq<EntryView>,
    start: u64,
    stop: Option<u64>,
    at: u64,
    term: u64,
    snapshot_id: Seq<char>,
    id: NodeId,
)
    requires
        indexed(log),
    ensures
        indexed(Map::empty()),
        indexed(with_entries(log, entries)),
        indexed(without_keys(log, start, stop)),
        indexed(compacted(log, at, id)),
        indexed(installed(log, at, term, stop, snapshot_id, id)),
    decreases entries.len(),
{
    if entries.len() > 0 {
        law_log_stays_indexed(
            log,
            entries.drop_last(),
            start,
            stop,
            at,
            term,
            snapshot_id,
            id,
        );
    }
}

/// Where each entry stands at its index, the config found through an index is the latest membership
/// config of the log without the entries after that index. Through the last index of all it is the
/// latest one of the whole log.
pub proof fn law_config_through_is_the_latest_of_the_prefix(
    log: Map<u64, EntryView>,
    through: u64,
    id: NodeId,
)
    requires
        indexed(log),
    ensures
        through < u64::MAX ==> config_through(log, through, id) == latest_membership(
            without_keys(log, (through + 1) as u64, None),
            id,
        ),
        config_through(log, u64::MAX, id) == latest_membership(log, id),
{
    assert(config_keys(log, u64::MAX) =~= membership_keys(log));
    if through < u64::MAX {
        let prefix = without_keys(log, (through + 1) as u64, None);
        let keys = membership_keys(prefix);
        assert(config_keys(log, through) =~= keys);
        if exists|k: u64| keys.contains(k) {
            let k = choose|k: u64| keys.contains(k);
            lemma_greatest_exists(keys, k);
        }
    }
}

/// A config change written after all other entries is the latest membership config; an entry that
/// carries no config leaves the latest one as it was.
pub proof fn law_appended_entry_and_membership(
    log: Map<u64, EntryView>,
    entry: EntryView,
    id: NodeId,
)
    requires
        forall|k: u64| #[trigger] log.contains_key(k) ==> k < entry.index,
    ensures
        latest_membership(log.insert(entry.index, entry), id) == match entry.membership() {
            Some(membership) => membership,
            None => latest_membership(log, id),
        },
{
    let after = log.insert(entry.index, entry);
    if entry.membership() is Some {
        assert(is_greatest(membership_keys(after), entry.index));
        lemma_greatest_is(membership_keys(after), entry.index);
    } else {
        assert(!log.contains_key(entry.index));
        assert(membership_keys(after) =~= membership_keys(log));
        if exists|k: u64| membership_keys(log).contains(k) {
            let k = choose|k: u64| membership_keys(log).contains(k);
            lemma_greatest_exists(membership_keys(log), k);
        }
    }
}

/// Compaction leaves no entry before the compacted one, leaves the entries after it, and puts a
/// pointer with its index and term in its place.
pub proof fn law_compaction_covers_the_prefix(
    log: Map<u64, EntryView>,
    at: u64,
    id: NodeId,
    k: u64,
)
    requires
        log.contains_key(at),
    ensures
        k < at ==> !compacted(log, at, id).contains_key(k),
        k > at ==> compacted(log, at, id).contains_key(k) == log.contains_key(k),
        k > at && log.contains_key(k) ==> compacted(log, at, id)[k] == log[k],
        compacted(log, at, id).contains_pair(
            at,
            snapshot_pointer(at, log[at].term, Seq::empty(), config_through(log, at, id)),
        ),
{
}

/// Compaction leaves the position of the last entry as it was, where the compacted entry stands at
/// its index.
pub proof fn law_compaction_keeps_the_last_position(
    log: Map<u64, EntryView>,
    at: u64,
    id: NodeId,
)
    requires
        log.contains_key(at),
        log[at].index == at,
    ensures
        last_index_and_term(compacted(log, at, id)) == last_index_and_term(log),
{
    let after = compacted(log, at, id);
    lemma_greatest_exists(log.dom(), at);
    let last = greatest(log.dom())->0;
    assert(is_greatest(after.dom(), last));
    lemma_greatest_is(after.dom(), last);
}

/// Compaction leaves the latest membership config as it was, where each entry stands at its index.
pub proof fn law_compaction_keeps_the_membership(log: Map<u64, EntryView>, at: u64, id: NodeId)
    requires
        indexed(log),
        log.contains_key(at),
    ensures
        latest_membership(compacted(log, at, id), id) == latest_membership(log, id),
{
    let after = membership_keys(compacted(log, at, id));
    let keys = membership_keys(log);
    assert forall|j: u64| after.contains(j) == (j == at || j > at && keys.contains(j)) by {}
    if exists|k: u64| keys.contains(k) && k > at {
        let k = choose|k: u64| keys.contains(k) && k > at;
        lemma_greatest_exists(keys, k);
        let last = greatest(keys)->0;
        assert(is_greatest(after, last));
        lemma_greatest_is(after, last);
    } else {
        assert(is_greatest(after, at));
        lemma_greatest_is(after, at);
        assert(config_keys(log, at) =~= keys);
    }
}

/// Compaction through an entry at which the log was compacted already finds the membership config
/// that the first compaction found, and leaves the log as it is.
pub proof fn law_compaction_again_changes_nothing(log: Map<u64, EntryView>, at: u64, id: NodeId)
    requires
        log.contains_key(at),
    ensures
        config_through(compacted(log, at, id), at, id) == config_through(log, at, id),
        compacted(compacted(log, at, id), at, id) == compacted(log, at, id),
{
    let once = compacted(log, at, id);
    let keys = config_keys(log, at);
    let after = config_keys(once, at);
    assert forall|j: u64| after.contains(j) == (j == at || j > at && keys.contains(j)) by {}
    if exists|k: u64| keys.contains(k) && k > at {
        let k = choose|k: u64| keys.contains(k) && k > at;
        lemma_greatest_exists(keys, k);
        let last = greatest(keys)->0;
        assert(is_greatest(after, last));
        lemma_greatest_is(after, last);
    } else {
        assert(is_greatest(after, at));
        lemma_greatest_is(after, at);
    }
    assert(compacted(once, at, id) =~= once);
}

/// The installation of a snapshot keeps the membership config that the log had through its index,
/// where each entry stands at its index. Where it deletes no entry after that index, it leaves the
/// latest membership config as it was.
pub proof fn law_installation_keeps_the_membership(
    log: Map<u64, EntryView>,
    index: u64,
    term: u64,
    delete_through: Option<u64>,
    snapshot_id: Seq<char>,
    id: NodeId,
)
    requires
        indexed(log),
    ensures
        config_through(installed(log, index, term, delete_through, snapshot_id, id), index, id)
            == config_through(log, index, id),
        delete_through is Some && delete_through->0 <= index ==> latest_membership(
            installed(log, index, term, delete_through, snapshot_id, id),
            id,
        ) == latest_membership(log, id),
{
    let after = installed(log, index, term, delete_through, snapshot_id, id);
    assert(is_greatest(config_keys(after, index), index));
    lemma_greatest_is(config_keys(after, index), index);
    if delete_through is Some && delete_through->0 <= index {
        let keys = membership_keys(log);
        let kept = membership_keys(after);
        assert forall|j: u64| j > index implies after.contains_key(j) == log.contains_key(j) && (
        log.contains_key(j) ==> after[j] == log[j]) by {}
        assert forall|j: u64| j > index implies kept.contains(j) == keys.contains(j) by {}
        assert(after[index].membership() is Some);
        if exists|k: u64| keys.contains(k) && k > index {
            let k = choose|k: u64| keys.contains(k) && k > index;
            lemma_greatest_exists(keys, k);
            let last = greatest(keys)->0;
            assert(is_greatest(kept, last));
            lemma_greatest_is(kept, last);
        } else {
            assert(is_greatest(kept, index));
            lemma_greatest_is(kept, index);
            assert(config_keys(log, index) =~= keys);
        }
    }
}

/// An entry carries the membership config of its config change or of its snapshot pointer, and else
/// none. A snapshot pointer has the index, the term, the ID and the config that it was made of.
pub proof fn law_entry_carries_its_payload(
    entry: EntryView,
    index: u64,
    term: u64,
    snapshot_id: Seq<char>,
    config: MembershipView,
)
    ensures
        match entry.payload {
            PayloadView::Blank => entry.membership() is None,
            PayloadView::Normal { data } => entry.membership() is None,
            PayloadView::ConfigChange { membership } => entry.membership() == Some(membership),
            PayloadView::SnapshotPointer { id, membership } => entry.membership() == Some(
                membership,
            ),
        },
        snapshot_pointer(index, term, snapshot_id, config).index == index,
        snapshot_pointer(index, term, snapshot_id, config).term == term,
        snapshot_pointer(index, term, snapshot_id, config).payload
            == (PayloadView::SnapshotPointer { id: snapshot_id, membership: config }),
{
}

/// The latest membership config is that of the config change or snapshot pointer after which
/// neither comes. Where there is neither, the node alone is its cluster.
pub proof fn law_latest_membership_is_the_last_written(
    log: Map<u64, EntryView>,
    id: NodeId,
    k: u64,
    other: NodeId,
)
    ensures
        log.contains_key(k) && (forall|j: u64|
            j > k && #[trigger] log.contains_key(j) ==> log[j].payload is Blank
                || log[j].payload is Normal) ==> match log[k].payload {
            PayloadView::ConfigChange { membership } => latest_membership(log, id) == membership,
            PayloadView::SnapshotPointer { id: _, membership } => latest_membership(log, id)
                == membership,
            _ => true,
        },
        (forall|j: u64| #[trigger]
            log.contains_key(j) ==> log[j].payload is Blank || log[j].payload is Normal) ==> {
            &&& latest_membership(log, id).members.contains(other) <==> other == id
            &&& latest_membership(log, id).members_after_consensus is None
        },
{
    let keys = membership_keys(log);
    if log.contains_key(k) && (log[k].payload is ConfigChange || log[k].payload is SnapshotPointer)
        && (forall|j: u64|
        j > k && #[trigger] log.contains_key(j) ==> log[j].payload is Blank
            || log[j].payload is Normal) {
        assert(is_greatest(keys, k)) by {
            assert forall|j: u64| keys.contains(j) implies j <= k by {
                assert(log.contains_key(j));
            }
        }
        lemma_greatest_is(keys, k);
    }
    if forall|j: u64| #[trigger]
        log.contains_key(j) ==> log[j].payload is Blank || log[j].payload is Normal {
        assert forall|j: u64| !keys.contains(j) by {
            if log.contains_key(j) {
            }
        }
    }
}

/// A config change or snapshot pointer that is written after all other entries gives the latest
/// membership config; a blank entry or a request written there leaves it as it was.
pub proof fn law_appended_payload_and_membership(
    log: Map<u64, EntryView>,
    entry: EntryView,
    id: NodeId,
)
    requires
        forall|k: u64| #[trigger] log.contains_key(k) ==> k < entry.index,
    ensures
        match entry.payload {
            PayloadView::ConfigChange { membership } => latest_membership(
                log.insert(entry.index, entry),
                id,
            ) == membership,
            PayloadView::SnapshotPointer { id: _, membership } => latest_membership(
                log.insert(entry.index, entry),
                id,
            ) == membership,
            _ => latest_membership(log.insert(entry.index, entry), id) == latest_membership(
                log,
                id,
            ),
        },
{
    law_appended_entry_and_membership(log, entry, id);
}

/// The config found through an index is that of the config change or snapshot pointer which has an
/// index up to there, and after which neither comes with such an index. Where there is neither, the
/// node alone is its cluster.
pub proof fn law_config_through_is_the_last_written(
    log: Map<u64, EntryView>,
    through: u64,
    id: NodeId,
    k: u64,
    other: NodeId,
)
    ensures
        log.contains_key(k) && log[k].index <= through && (forall|j: u64|
            j > k && #[trigger] log.contains_key(j) && log[j].index <= through
                ==> log[j].payload is Blank || log[j].payload is Normal) ==> match log[k].payload {
            PayloadView::ConfigChange { membership } => config_through(log, through, id)
                == membership,
            PayloadView::SnapshotPointer { id: _, membership } => config_through(log, through, id)
                == membership,
            _ => true,
        },
        (forall|j: u64| #[trigger]
            log.contains_key(j) && log[j].index <= through ==> log[j].payload is Blank
                || log[j].payload is Normal) ==> {
            &&& config_through(log, through, id).members.contains(other) <==> other == id
            &&& config_through(log, through, id).members_after_consensus is None
        },
{
    let keys = config_keys(log, through);
    if log.contains_key(k) && log[k].index <= through && (log[k].payload is ConfigChange
        || log[k].payload is SnapshotPointer) && (forall|j: u64|
        j > k && #[trigger] log.contains_key(j) && log[j].index <= through
            ==> log[j].payload is Blank || log[j].payload is Normal) {
        assert(is_greatest(keys, k)) by {
            assert forall|j: u64| keys.contains(j) implies j <= k by {
                assert(log.contains_key(j));
            }
        }
        lemma_greatest_is(keys, k);
    }
    if forall|j: u64| #[trigger]
        log.contains_key(j) && log[j].index <= through ==> log[j].payload is Blank
            || log[j].payload is Normal {
        assert forall|j: u64| !keys.contains(j) by {
            if log.contains_key(j) {
            }
        }
    }
}

/// A read gives the entry at each key of the range once, the smaller key first, and nothing else:
/// it has the keys that are returned, in this order.
pub proof fn law_reads_follow_the_keys(log: Map<u64, EntryView>, start: int, stop: int) -> (keys:
    Seq<u64>)
    ensures
        forall|i: int, j: int| 0 <= i < j < keys.len() ==> keys[i] < keys[j],
        forall|k: u64| #[trigger]
            keys.contains(k) <==> start <= k < stop && log.contains_key(k),
        entries_between(log, start, stop).len() == keys.len(),
        forall|i: int|
            0 <= i < keys.len() ==> #[trigger] entries_between(log, start, stop)[i] == log[keys[i]],
    decreases stop - start,
{
    if start >= stop {
        Seq::empty()
    } else {
        let rest = law_reads_follow_the_keys(log, start + 1, stop);
        if 0 <= start <= u64::MAX && log.contains_key(start as u64) {
            let keys = seq![start as u64] + rest;
            let all = entries_between(log, start, stop);
            assert(forall|i: int| 0 <= i < rest.len() ==> rest.contains(#[trigger] rest[i]));
            assert forall|k: u64| #[trigger] keys.contains(k) <==> start <= k < stop
                && log.contains_key(k) by {
                if keys.contains(k) {
                    let i = choose|i: int| 0 <= i < keys.len() && keys[i] == k;
                    if i > 0 {
                        assert(rest[i - 1] == k);
                    }
                }
                if start <= k < stop && log.contains_key(k) {
                    if k == start {
                        assert(keys[0] == k);
                    } else {
                        assert(rest.contains(k));
                        let i = choose|i: int| 0 <= i < rest.len() && rest[i] == k;
                        assert(keys[i + 1] == k);
                    }
                }
            }
            assert forall|i: int| 0 <= i < keys.len() implies #[trigger] all[i] == log[keys[i]] by {
                if i > 0 {
                    assert(all[i] == entries_between(log, start + 1, stop)[i - 1]);
                }
            }
            keys
        } else {
            rest
        }
    }
}

/// Deletion takes an entry exactly where it stands at `start` or later, and before `stop` if there
/// is one; every other entry stays what it was.
pub proof fn law_deletion_takes_the_range(
    log: Map<u64, EntryView>,
    start: u64,
    stop: Option<u64>,
    k: u64,
)
    requires
        log.contains_key(k),
    ensures
        match stop {
            Some(end) => without_keys(log, start, stop).contains_key(k) <==> k < start || k >= end,
            None => without_keys(log, start, stop).contains_key(k) <==> k < start,
        },
        without_keys(log, start, stop).contains_key(k) ==> without_keys(log, start, stop)[k]
            == log[k],
        without_keys(log, start, stop).dom().subset_of(log.dom()),
{
}

/// The last position is the index and the term of the entry after which none comes; of an empty log
/// it is zero.
pub proof fn law_last_position_is_that_of_the_last_entry(log: Map<u64, EntryView>, k: u64)
    ensures
        log.contains_key(k) && (forall|j: u64| #[trigger] log.contains_key(j) ==> j <= k)
            ==> last_index_and_term(log) == (log[k].index, log[k].term),
        (forall|j: u64| !#[trigger] log.contains_key(j)) ==> last_index_and_term(log) == (0u64, 0u64),
{
    if log.contains_key(k) && (forall|j: u64| #[trigger] log.contains_key(j) ==> j <= k) {
        assert forall|j: u64| log.dom().contains(j) implies j <= k by {
            assert(log.contains_key(j));
        }
        assert(is_greatest(log.dom(), k));
        lemma_greatest_is(log.dom(), k);
    }
    if forall|j: u64| !#[trigger] log.contains_key(j) {
        assert forall|j: u64| !log.dom().contains(j) by {
            assert(!log.contains_key(j));
        }
    }
}

/// Replication of nothing changes nothing, and the entry that is written last stands at its index
/// whatever came before it.
pub proof fn law_replication_writes_in_turn(
    log: Map<u64, EntryView>,
    entries: Seq<EntryView>,
    entry: EntryView,
)
    ensures
        with_entries(log, Seq::empty()) == log,
        with_entries(log, entries.push(entry)) == with_entries(log, entries).insert(
            entry.index,
            entry,
        ),
{
    assert(entries.push(entry).drop_last() =~= entries);
}

/// After compaction through `at`, the log has no entry before `at`; at `at` it has a pointer with
/// that index, the term of the entry that stood there, an empty ID and the config found through
/// `at`; after `at` it has what it had.
pub proof fn law_compacted_log(log: Map<u64, EntryView>, at: u64, id: NodeId, k: u64)
    requires
        log.contains_key(at),
    ensures
        compacted(log, at, id).contains_key(k) <==> k == at || k > at && log.contains_key(k),
        k > at && log.contains_key(k) ==> compacted(log, at, id)[k] == log[k],
        compacted(log, at, id)[at].index == at,
        compacted(log, at, id)[at].term == log[at].term,
        compacted(log, at, id)[at].payload == (PayloadView::SnapshotPointer {
            id: Seq::empty(),
            membership: config_through(log, at, id),
        }),
{
}

/// After the installation of a snapshot, with or without an index to delete through, the entry at
/// its index is a pointer with that index, the term and the ID that were given, and the config found
/// through that index. Elsewhere the log has what it had after the index to delete through, and
/// without such an index nothing.
pub proof fn law_installed_log(
    log: Map<u64, EntryView>,
    index: u64,
    term: u64,
    delete_through: Option<u64>,
    snapshot_id: Seq<char>,
    id: NodeId,
    k: u64,
)
    ensures
        ({
            let after = installed(log, index, term, delete_through, snapshot_id, id);
            &&& after.contains_key(index)
            &&& after[index].index == index
            &&& after[index].term == term
            &&& after[index].payload == (PayloadView::SnapshotPointer {
                id: snapshot_id,
                membership: config_through(log, index, id),
            })
            &&& k != index ==> match delete_through {
                Some(through) => {
                    &&& after.contains_key(k) <==> log.contains_key(k) && k > through
                    &&& after.contains_key(k) ==> after[k] == log[k]
                },
                None => !after.contains_key(k),
            }
        }),
{
}

} // verus!
