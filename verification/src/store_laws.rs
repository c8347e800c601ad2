//! Laws of the store.
use crate::entry::{snapshot_pointer, EntryView, PayloadView};
use crate::log::{config_through, last_index_and_term, latest_membership, membership_keys};
use crate::log_laws::{
    indexed, law_compaction_again_changes_nothing, law_compaction_keeps_the_last_position,
    law_compaction_keeps_the_membership, law_last_position_is_that_of_the_last_entry,
};
use crate::membership::NodeId;
use crate::request::RequestView;
use crate::snapshot::SnapshotView;
use crate::state_machine::StateMachineView;
use crate::store::{pristine_state, HardState, StoreView};
use vstd::prelude::*;

verus! {

/// A hard state that was saved is the one that the store tells at the next start, beside the last
/// entry of the log, the last applied entry and the latest membership config.
pub proof fn law_saved_hard_state_is_told(store: StoreView, hs: HardState)
    ensures
        ({
            let saved = StoreView { hs: Some(hs), ..store };
            &&& saved.initial_state().hard_state == hs
            &&& saved.initial_state().last_applied_log == store.sm.last_applied_log
            &&& saved.initial_state().membership == latest_membership(store.log, store.id)
            &&& (saved.initial_state().last_log_index, saved.initial_state().last_log_term)
                == last_index_and_term(store.log)
            &&& saved.started() == saved
        }),
{
}

/// To ask for the initial state twice changes no more than to ask once, and a pristine store tells
/// the same both times.
pub proof fn law_start_is_repeatable(store: StoreView)
    ensures
        store.started().started() == store.started(),
        store == StoreView::pristine(store.id) ==> store.started().initial_state()
            == store.initial_state(),
        store.hs is Some ==> store.started().initial_state() == store.initial_state(),
{
    if store == StoreView::pristine(store.id) {
        assert(store.log.dom() =~= Set::<u64>::empty());
        assert(membership_keys(store.log) =~= Set::<u64>::empty());
    }
}

/// A compaction that succeeded can be done again: the applied entry is still in the log.
pub proof fn law_compacted_store_can_compact(store: StoreView)
    requires
        store.can_compact(),
    ensures
        store.compacted().can_compact(),
{
}

/// Compaction changes the log alone, and where each entry stands at its index, a node that starts
/// from the compacted store is told what it would have been told before.
pub proof fn law_compaction_keeps_the_rest(store: StoreView)
    requires
        store.can_compact(),
        indexed(store.log),
    ensures
        store.compacted() == (StoreView { log: store.compacted().log, ..store }),
        store.compacted().initial_state() == store.initial_state(),
{
    law_compaction_keeps_the_last_position(store.log, store.sm.last_applied_log, store.id);
    law_compaction_keeps_the_membership(store.log, store.sm.last_applied_log, store.id);
}

/// A compaction right after a finished one succeeds, hands out a snapshot with the same index, term
/// and membership config, and leaves the store as it is.
pub proof fn law_compaction_is_repeatable(store: StoreView, data: Seq<u8>)
    requires
        store.can_compact(),
    ensures
        ({
            let snapshot = store.compaction_snapshot(data);
            let after = store.compacted().with_snapshot(snapshot);
            &&& after.can_compact()
            &&& after.compaction_snapshot(data) == snapshot
            &&& after.compacted() == after
            &&& after.compacted().with_snapshot(after.compaction_snapshot(data)) == after
        }),
{
    law_compaction_again_changes_nothing(store.log, store.sm.last_applied_log, store.id);
}

/// The snapshot of a finished compaction is the one that the store hands out from then on, with the
/// data that the compaction handed out; it covers the log up to the applied entry, at which the log
/// points to it.
pub proof fn law_finished_compaction_is_current(store: StoreView, data: Seq<u8>, bytes: Seq<u8>)
    requires
        store.can_compact(),
    ensures
        ({
            let snapshot = store.compaction_snapshot(data);
            let after = store.compacted().with_snapshot(snapshot);
            &&& after.current_snapshot == Some(snapshot)
            &&& after.current_snapshot->0.handed_out(bytes) == snapshot.handed_out(bytes)
            &&& snapshot.index == store.sm.last_applied_log
            &&& snapshot.term == store.log[store.sm.last_applied_log].term
            &&& after.log.contains_pair(
                snapshot.index,
                snapshot_pointer(
                    snapshot.index,
                    snapshot.term,
                    Seq::empty(),
                    snapshot.membership,
                ),
            )
        }),
{
}

/// A snapshot carries the state machine over: whatever encoding of state machines is used, a store
/// that installs the snapshot of another store's compaction, and decodes what was encoded, has that
/// store's state machine, answers every request as that store does, and keeps the snapshot.
pub proof fn law_installed_snapshot_restores_the_state_machine(
    source: StoreView,
    target: StoreView,
    encode: spec_fn(StateMachineView) -> Seq<u8>,
    decode: spec_fn(Seq<u8>) -> Option<StateMachineView>,
    term: u64,
    delete_through: Option<u64>,
    snapshot_id: Seq<char>,
    request: RequestView,
)
    requires
        source.can_compact(),
        decode(encode(source.sm)) == Some(source.sm),
    ensures
        ({
            let snapshot = source.compaction_snapshot(encode(source.sm));
            let after = target.with_installed(
                snapshot.index,
                term,
                delete_through,
                snapshot_id,
                snapshot,
                decode(snapshot.data)->0,
            );
            &&& after.sm == source.sm
            &&& after.sm.response(request) == source.sm.response(request)
            &&& after.current_snapshot == Some(snapshot)
            &&& after.hs == target.hs
            &&& after.can_compact()
        }),
{
}

/// After an installation the log holds what `delete_through` leaves of it, beside the pointer: of
/// the entries through that index nothing, and without such an index nothing at all.
pub proof fn law_installation_deletes_the_covered_entries(
    store: StoreView,
    index: u64,
    term: u64,
    delete_through: Option<u64>,
    snapshot_id: Seq<char>,
    k: u64,
)
    requires
        k != index,
    ensures
        ({
            let after = store.with_pointer(index, term, delete_through, snapshot_id);
            &&& after.log.contains_key(k) == (store.log.contains_key(k) && delete_through is Some
                && k > delete_through->0)
            &&& after.log.contains_key(k) ==> after.log[k] == store.log[k]
        }),
{
}

/// An installation whose data could not be decoded leaves the state machine, the hard state and
/// the current snapshot as they were.
pub proof fn law_failed_installation_keeps_the_state(
    store: StoreView,
    index: u64,
    term: u64,
    delete_through: Option<u64>,
    snapshot_id: Seq<char>,
)
    ensures
        store.with_pointer(index, term, delete_through, snapshot_id).sm == store.sm,
        store.with_pointer(index, term, delete_through, snapshot_id).hs == store.hs,
        store.with_pointer(index, term, delete_through, snapshot_id).current_snapshot
            == store.current_snapshot,
{
}

/// A new store has the ID that it was given, an empty log, an empty state machine, no hard state and
/// no snapshot.
pub proof fn law_new_store_is_blank(id: NodeId, k: u64, client: Seq<char>)
    ensures
        StoreView::pristine(id).id == id,
        !StoreView::pristine(id).log.contains_key(k),
        StoreView::pristine(id).sm.last_applied_log == 0,
        !StoreView::pristine(id).sm.client_status.contains_key(client),
        !StoreView::pristine(id).sm.client_serial_responses.contains_key(client),
        StoreView::pristine(id).hs == None::<HardState>,
        StoreView::pristine(id).current_snapshot == None::<SnapshotView>,
{
}

/// Without a hard state a node is told that it has not run before: zeros, no vote, and itself as its
/// cluster; and that hard state is kept from then on. With one it is told that hard state, the
/// last applied index, the last position and the latest membership config of the log, and the store
/// stays as it is.
pub proof fn law_node_is_told_its_state(store: StoreView, other: NodeId)
    ensures
        match store.hs {
            Some(hs) => {
                &&& store.initial_state().hard_state == hs
                &&& store.initial_state().last_applied_log == store.sm.last_applied_log
                &&& store.initial_state().last_log_index == last_index_and_term(store.log).0
                &&& store.initial_state().last_log_term == last_index_and_term(store.log).1
                &&& store.initial_state().membership == latest_membership(store.log, store.id)
                &&& store.started() == store
            },
            None => {
                &&& store.initial_state().hard_state.current_term == 0
                &&& store.initial_state().hard_state.voted_for == None::<NodeId>
                &&& store.initial_state().last_applied_log == 0
                &&& store.initial_state().last_log_index == 0
                &&& store.initial_state().last_log_term == 0
                &&& store.initial_state().membership.members.contains(other) <==> other == store.id
                &&& store.initial_state().membership.members_after_consensus is None
                &&& store.started() == (StoreView {
                    hs: Some(HardState { current_term: 0, voted_for: None }),
                    ..store
                })
            },
        },
        pristine_state(store.id) == (StoreView { hs: None, ..store }).initial_state(),
{
}

/// Compaction is possible exactly where the log holds an entry at the last applied index, whatever
/// else it holds.
pub proof fn law_compaction_needs_the_applied_entry_alone(store: StoreView)
    ensures
        store.can_compact() <==> store.log.contains_key(store.sm.last_applied_log),
{
}

/// After a compaction, requests that are written to the log and applied can be compacted too: the
/// log then begins with a pointer to the new last applied index.
pub proof fn law_compaction_can_go_on(store: StoreView, entry: EntryView, request: RequestView)
    requires
        store.log.contains_key(store.sm.last_applied_log),
        entry.index > store.sm.last_applied_log,
    ensures
        ({
            let once = store.compacted();
            let next = StoreView {
                log: once.log.insert(entry.index, entry),
                sm: once.sm.apply(entry.index, request),
                ..once
            };
            &&& next.can_compact()
            &&& next.compacted().log.contains_key(entry.index)
            &&& next.compacted().log[entry.index].term == entry.term
            &&& forall|k: u64| k < entry.index ==> !next.compacted().log.contains_key(k)
        }),
{
}

/// The snapshot of a compaction has the last applied index, the term of the entry there, the config
/// found through it, and all of the encoded state machine. The compacted store differs in its log
/// alone, which begins at that index with a pointer of the same index, term and config.
pub proof fn law_compaction_result(store: StoreView, data: Seq<u8>, k: u64)
    requires
        store.log.contains_key(store.sm.last_applied_log),
    ensures
        ({
            let at = store.sm.last_applied_log;
            let snapshot = store.compaction_snapshot(data);
            let after = store.compacted();
            &&& snapshot.index == at
            &&& snapshot.term == store.log[at].term
            &&& snapshot.membership == config_through(store.log, at, store.id)
            &&& snapshot.data == data
            &&& after.log.contains_key(k) <==> k == at || k > at && store.log.contains_key(k)
            &&& k > at && store.log.contains_key(k) ==> after.log[k] == store.log[k]
            &&& after.log[at].index == at
            &&& after.log[at].term == snapshot.term
            &&& after.log[at].payload == (PayloadView::SnapshotPointer {
                id: Seq::empty(),
                membership: snapshot.membership,
            })
            &&& after.id == store.id
            &&& after.sm == store.sm
            &&& after.hs == store.hs
            &&& after.current_snapshot == store.current_snapshot
        }),
{
}

/// A snapshot that is kept is the current one, and nothing else changes.
pub proof fn law_kept_snapshot_is_current(store: StoreView, snapshot: SnapshotView)
    ensures
        store.with_snapshot(snapshot).current_snapshot == Some(snapshot),
        store.with_snapshot(snapshot).id == store.id,
        store.with_snapshot(snapshot).log == store.log,
        store.with_snapshot(snapshot).sm == store.sm,
        store.with_snapshot(snapshot).hs == store.hs,
{
}

/// What is handed out of a snapshot has its index, its term and its membership config, and all of
/// the encoded bytes, however many they are.
pub proof fn law_handed_out_snapshot_is_whole(snapshot: SnapshotView, bytes: Seq<u8>)
    ensures
        snapshot.handed_out(bytes).index == snapshot.index,
        snapshot.handed_out(bytes).term == snapshot.term,
        snapshot.handed_out(bytes).membership == snapshot.membership,
        snapshot.handed_out(bytes).snapshot == bytes,
{
}

/// After an installation, with or without an index to delete through, the log has at the snapshot's
/// index a pointer with the given index, term and ID; the state machine is the decoded one and the
/// snapshot is the current one. Where the state machine could not be decoded, the log is the same
/// and the rest stays as it was.
pub proof fn law_installation_result(
    store: StoreView,
    index: u64,
    term: u64,
    delete_through: Option<u64>,
    snapshot_id: Seq<char>,
    snapshot: SnapshotView,
    sm: StateMachineView,
    k: u64,
)
    ensures
        ({
            let after = store.with_installed(
                index,
                term,
                delete_through,
                snapshot_id,
                snapshot,
                sm,
            );
            let failed = store.with_pointer(index, term, delete_through, snapshot_id);
            &&& after.log.contains_key(index)
            &&& after.log[index].index == index
            &&& after.log[index].term == term
            &&& after.log[index].payload == (PayloadView::SnapshotPointer {
                id: snapshot_id,
                membership: config_through(store.log, index, store.id),
            })
            &&& k != index ==> (after.log.contains_key(k) <==> store.log.contains_key(k) && (
            delete_through matches Some(through) && k > through))
            &&& k != index && after.log.contains_key(k) ==> after.log[k] == store.log[k]
            &&& after.sm == sm
            &&& after.current_snapshot == Some(snapshot)
            &&& after.hs == store.hs
            &&& after.id == store.id
            &&& failed == (StoreView {
                sm: store.sm,
                current_snapshot: store.current_snapshot,
                ..after
            })
        }),
{
}

/// A node that starts after the installation of a snapshot which ends its log is told the
/// snapshot's index and term as its last position, whether the log was replaced or cut.
pub proof fn law_installed_snapshot_is_the_last_position(
    store: StoreView,
    index: u64,
    term: u64,
    delete_through: Option<u64>,
    snapshot_id: Seq<char>,
    snapshot: SnapshotView,
    sm: StateMachineView,
)
    requires
        store.hs is Some,
        delete_through is None || forall|k: u64| #[trigger] store.log.contains_key(k) ==> k <= index,
    ensures
        ({
            let after = store.with_installed(
                index,
                term,
                delete_through,
                snapshot_id,
                snapshot,
                sm,
            );
            &&& after.initial_state().last_log_index == index
            &&& after.initial_state().last_log_term == term
            &&& after.initial_state().last_applied_log == sm.last_applied_log
        }),
{
    let after = store.with_installed(index, term, delete_through, snapshot_id, snapshot, sm);
    law_last_position_is_that_of_the_last_entry(after.log, index);
}

} // verus!
