//! The storage of a Raft node.
use crate::entry::{Entry, EntryView};
use crate::error::StoreError;
use crate::log::{
    compact, compacted, config_through, delete_entries, entries_between, entries_view, find_membership,
    install_pointer, installed, last_entry, last_index_and_term, latest_membership, log_view,
    read_entries, with_entries, without_keys, write_entry,
};
use crate::membership::{initial_membership, MembershipConfig, MembershipView, NodeId};
use crate::request::{ClientRequest, ClientResponse, RequestView};
use crate::snapshot::{CurrentSnapshotData, SnapshotView, WALStoreSnapshot};
use crate::state_machine::{StateMachineView, WALStoreStateMachine};
use std::collections::BTreeMap;
use vstd::prelude::*;

verus! {

/// The hard state of a Raft node.
#[derive(Clone, Copy, Debug, PartialEq, Eq, Structural)]
pub struct HardState {
    /// The last recorded term observed by this system.
    pub current_term: u64,
    /// The ID of the node voted for in the `current_term`.
    pub voted_for: Option<NodeId>,
}

/// The state which a Raft node needs when first starting.
#[derive(Debug)]
pub struct InitialState {
    /// The index of the last entry.
    pub last_log_index: u64,
    /// The term of the last log entry.
    pub last_log_term: u64,
    /// The index of the last log applied to the state machine.
    pub last_applied_log: u64,
    /// The saved hard state of the node.
    pub hard_state: HardState,
    /// The latest cluster membership configuration found in the log, else that of a pristine node.
    pub membership: MembershipConfig,
}

/// What an `InitialState` holds.
pub struct InitialStateView {
    pub last_log_index: u64,
    pub last_log_term: u64,
    pub last_applied_log: u64,
    pub hard_state: HardState,
    pub membership: MembershipView,
}

impl View for InitialState {
    type V = InitialStateView;

    open spec fn view(&self) -> InitialStateView {
        InitialStateView {
            last_log_index: self.last_log_index,
            last_log_term: self.last_log_term,
            last_applied_log: self.last_applied_log,
            hard_state: self.hard_state,
            membership: self.membership@,
        }
    }
}

/// The state of a node that has not run before.
pub open spec fn pristine_state(id: NodeId) -> InitialStateView {
    InitialStateView {
        last_log_index: 0,
        last_log_term: 0,
        last_applied_log: 0,
        hard_state: HardState { current_term: 0, voted_for: None },
        membership: initial_membership(id),
    }
}

/// Calls `async_raft::storage::InitialState::new_initial`, which makes the state of a pristine
/// node: an empty log, nothing applied, term zero, no vote, and the node alone as its cluster.
#[verifier::external_body]
fn new_initial_state(id: NodeId) -> (state: InitialState)
    ensures
        state@ == pristine_state(id),
{
    let state = async_raft::storage::InitialState::new_initial(id);
    InitialState {
        last_log_index: state.last_log_index,
        last_log_term: state.last_log_term,
        last_applied_log: state.last_applied_log,
        hard_state: HardState {
            current_term: state.hard_state.current_term,
            voted_for: state.hard_state.voted_for,
        },
        membership: MembershipConfig {
            members: state.membership.members,
            members_after_consensus: state.membership.members_after_consensus,
        },
    }
}

/// The in-memory storage of a Raft node.
#[derive(Debug)]
pub struct WALStore {
    id: NodeId,
    log: BTreeMap<u64, Entry>,
    sm: WALStoreStateMachine,
    hs: Option<HardState>,
    current_snapshot: Option<WALStoreSnapshot>,
}

/// What a `WALStore` holds.
#[verifier::ext_equal]
pub struct StoreView {
    /// The ID of the node.
    pub id: NodeId,
    /// The Raft log.
    pub log: Map<u64, EntryView>,
    /// The Raft state machine.
    pub sm: StateMachineView,
    /// The current hard state.
    pub hs: Option<HardState>,
    /// The current snapshot.
    pub current_snapshot: Option<SnapshotView>,
}

/// What an optional snapshot holds.
pub open spec fn snapshot_view(snapshot: Option<WALStoreSnapshot>) -> Option<SnapshotView> {
    match snapshot {
        Some(s) => Some(s@),
        None => None,
    }
}

impl View for WALStore {
    type V = StoreView;

    closed spec fn view(&self) -> StoreView {
        StoreView {
            id: self.id,
            log: log_view(self.log@),
            sm: self.sm@,
            hs: self.hs,
            current_snapshot: snapshot_view(self.current_snapshot),
        }
    }
}

/// What the entries of a replication payload hold.
pub open spec fn requests_view(entries: Seq<(&u64, &ClientRequest)>) -> Seq<(u64, RequestView)> {
    entries.map_values(|entry: (&u64, &ClientRequest)| (*entry.0, entry.1@))
}

impl StoreView {
    /// The store of a node that has not run before.
    pub open spec fn pristine(id: NodeId) -> StoreView {
        StoreView {
            id,
            log: Map::empty(),
            sm: StateMachineView::empty(),
            hs: None,
            current_snapshot: None,
        }
    }

    /// What the store tells a node at its start.
    pub open spec fn initial_state(self) -> InitialStateView {
        match self.hs {
            Some(hard_state) => InitialStateView {
                last_log_index: last_index_and_term(self.log).0,
                last_log_term: last_index_and_term(self.log).1,
                last_applied_log: self.sm.last_applied_log,
                hard_state,
                membership: latest_membership(self.log, self.id),
            },
            None => pristine_state(self.id),
        }
    }

    /// The store after a node has asked for its initial state.
    pub open spec fn started(self) -> StoreView {
        match self.hs {
            Some(_) => self,
            None => StoreView { hs: Some(pristine_state(self.id).hard_state), ..self },
        }
    }

    /// Compaction finds the entry that was applied last in the log.
    pub open spec fn can_compact(self) -> bool {
        self.log.contains_key(self.sm.last_applied_log)
    }

    /// The snapshot that compaction makes of the state machine, encoded as `data`.
    pub open spec fn compaction_snapshot(self, data: Seq<u8>) -> SnapshotView {
        let at = self.sm.last_applied_log;
        SnapshotView {
            index: at,
            term: self.log[at].term,
            membership: config_through(self.log, at, self.id),
            data,
        }
    }

    /// The store after compaction of its log.
    pub open spec fn compacted(self) -> StoreView {
        StoreView { log: compacted(self.log, self.sm.last_applied_log, self.id), ..self }
    }

    /// The store with `snapshot` as its current snapshot.
    pub open spec fn with_snapshot(self, snapshot: SnapshotView) -> StoreView {
        StoreView { current_snapshot: Some(snapshot), ..self }
    }

    /// The store with the pointer to an installed snapshot in its log.
    pub open spec fn with_pointer(
        self,
        index: u64,
        term: u64,
        delete_through: Option<u64>,
        snapshot_id: Seq<char>,
    ) -> StoreView {
        StoreView {
            log: installed(self.log, index, term, delete_through, snapshot_id, self.id),
            ..self
        }
    }

    /// The store after the installation of `snapshot`, whose data hold the state machine `sm`.
    pub open spec fn with_installed(
        self,
        index: u64,
        term: u64,
        delete_through: Option<u64>,
        snapshot_id: Seq<char>,
        snapshot: SnapshotView,
        sm: StateMachineView,
    ) -> StoreView {
        StoreView {
            sm,
            ..self.with_pointer(index, term, delete_through, snapshot_id).with_snapshot(snapshot)
        }
    }
}

impl WALStore {
    /// Create a new `WALStore` instance.
    pub fn new(id: NodeId) -> (store: Self)
        ensures
            store@ == StoreView::pristine(id),
    {
        let store = WALStore {
            id,
            log: BTreeMap::new(),
            sm: WALStoreStateMachine::default(),
            hs: None,
            current_snapshot: None,
        };
        assert(store@ =~= StoreView::pristine(id));
        store
    }

    /// Create a new `WALStore` instance with some existing state.
    pub fn new_with_state(
        id: NodeId,
        log: BTreeMap<u64, Entry>,
        sm: WALStoreStateMachine,
        hs: Option<HardState>,
        current_snapshot: Option<WALStoreSnapshot>,
    ) -> (store: Self)
        ensures
            store@ == (StoreView {
                id,
                log: log_view(log@),
                sm: sm@,
                hs,
                current_snapshot: snapshot_view(current_snapshot),
            }),
    {
        WALStore { id, log, sm, hs, current_snapshot }
    }

    /// Get a handle to the log.
    pub fn get_log(&mut self) -> (log: &mut BTreeMap<u64, Entry>)
        ensures
            log_view(log@) == old(self)@.log,
            final(self)@ == (StoreView { log: log_view(final(log)@), ..old(self)@ }),
    {
        &mut self.log
    }

    /// Get a handle to the state machine.
    pub fn get_state_machine(&mut self) -> (sm: &mut WALStoreStateMachine)
        ensures
            sm@ == old(self)@.sm,
            final(self)@ == (StoreView { sm: final(sm)@, ..old(self)@ }),
    {
        &mut self.sm
    }

    /// Get a handle to the current hard state.
    pub fn read_hard_state(&self) -> (hs: &Option<HardState>)
        ensures
            *hs == self@.hs,
    {
        &self.hs
    }

    /// Get the latest membership config found in the log.
    pub fn get_membership_config(&self) -> (config: MembershipConfig)
        ensures
            config@ == latest_membership(self@.log, self@.id),
    {
        find_membership(&self.log, self.id)
    }

    /// Get Raft's state information from storage.
    ///
    /// A node that has no hard state yet gets the state of a pristine node, and its hard state is
    /// recorded.
    pub fn get_initial_state(&mut self) -> (state: InitialState)
        ensures
            state@ == old(self)@.initial_state(),
            final(self)@ == old(self)@.started(),
    {
        let membership = self.get_membership_config();
        match self.hs {
            Some(hard_state) => {
                let (last_log_index, last_log_term) = last_entry(&self.log);
                InitialState {
                    last_log_index,
                    last_log_term,
                    last_applied_log: self.sm.last_applied_log,
                    hard_state,
                    membership,
                }
            },
            None => {
                let new = new_initial_state(self.id);
                self.hs = Some(new.hard_state);
                new
            },
        }
    }

    /// Save Raft's hard-state.
    pub fn save_hard_state(&mut self, hs: &HardState)
        ensures
            final(self)@ == (StoreView { hs: Some(*hs), ..old(self)@ }),
    {
        self.hs = Some(*hs);
    }

    /// Get the log entries in `[start, stop)`.
    pub fn get_log_entries(&self, start: u64, stop: u64) -> (entries: Vec<Entry>)
        ensures
            entries_view(entries@) == entries_between(self@.log, start as int, stop as int),
    {
        read_entries(&self.log, start, stop)
    }

    /// Delete all logs starting from `start` and stopping at `stop`, else continuing to the end of
    /// the log if `stop` is `None`.
    pub fn delete_logs_from(&mut self, start: u64, stop: Option<u64>)
        ensures
            final(self)@ == (StoreView {
                log: without_keys(old(self)@.log, start, stop),
                ..old(self)@
            }),
    {
        delete_entries(&mut self.log, start, stop);
    }

    /// Append a new entry to the log.
    pub fn append_entry_to_log(&mut self, entry: &Entry)
        ensures
            final(self)@ == (StoreView {
                log: old(self)@.log.insert(entry.index, entry@),
                ..old(self)@
            }),
    {
        write_entry(&mut self.log, entry);
    }

    /// Replicate a payload of entries to the log.
    pub fn replicate_to_log(&mut self, entries: &[Entry])
        ensures
            final(self)@ == (StoreView {
                log: with_entries(old(self)@.log, entries_view(entries@)),
                ..old(self)@
            }),
    {
        let mut i: usize = 0;
        assert(entries_view(entries@).take(0) =~= Seq::<EntryView>::empty());
        while i < entries.len()
            invariant
                i <= entries@.len(),
                self@ == (StoreView {
                    log: with_entries(old(self)@.log, entries_view(entries@).take(i as int)),
                    ..old(self)@
                }),
            decreases entries@.len() - i,
        {
            write_entry(&mut self.log, &entries[i]);
            proof {
                let taken = entries_view(entries@).take(i + 1);
                assert(taken.drop_last() =~= entries_view(entries@).take(i as int));
                assert(taken.last() == entries@[i as int]@);
            }
            i += 1;
        }
        assert(entries_view(entries@).take(i as int) =~= entries_view(entries@));
    }

    /// Apply the given log entry to the state machine.
    pub fn apply_entry_to_state_machine(
        &mut self,
        index: &u64,
        data: &ClientRequest,
    ) -> (response: ClientResponse)
        ensures
            response@ == old(self)@.sm.response(data@),
            final(self)@ == (StoreView { sm: old(self)@.sm.apply(*index, data@), ..old(self)@ }),
    {
        self.sm.apply(*index, data)
    }

    /// Apply the given payload of entries to the state machine, as part of replication.
    pub fn replicate_to_state_machine(&mut self, entries: &[(&u64, &ClientRequest)])
        ensures
            final(self)@ == (StoreView {
                sm: old(self)@.sm.apply_all(requests_view(entries@)),
                ..old(self)@
            }),
    {
        let mut i: usize = 0;
        assert(requests_view(entries@).take(0) =~= Seq::<(u64, RequestView)>::empty());
        while i < entries.len()
            invariant
                i <= entries@.len(),
                self@ == (StoreView {
                    sm: old(self)@.sm.apply_all(requests_view(entries@).take(i as int)),
                    ..old(self)@
                }),
            decreases entries@.len() - i,
        {
            let (index, data) = entries[i];
            self.sm.apply(*index, data);
            proof {
                let taken = requests_view(entries@).take(i + 1);
                assert(taken.drop_last() =~= requests_view(entries@).take(i as int));
                assert(taken.last() == (*entries@[i as int].0, entries@[i as int].1@));
            }
            i += 1;
        }
        assert(requests_view(entries@).take(i as int) =~= requests_view(entries@));
    }

    /// Compact the log through the entry that was applied last, and make the snapshot that takes
    /// its place. `data` is the encoded state machine.
    pub fn do_log_compaction(&mut self, data: Vec<u8>) -> (snapshot: Result<
        WALStoreSnapshot,
        StoreError,
    >)
        ensures
            snapshot is Ok <==> old(self)@.log.contains_key(old(self)@.sm.last_applied_log),
            match snapshot {
                Ok(s) => {
                    &&& old(self)@.can_compact()
                    &&& s@ == old(self)@.compaction_snapshot(data@)
                    &&& final(self)@ == old(self)@.compacted()
                },
                Err(error) => {
                    &&& !old(self)@.can_compact()
                    &&& error == StoreError::InconsistentLog
                    &&& final(self)@ == old(self)@
                },
            },
    {
        let last_applied_log = self.sm.last_applied_log;
        match compact(&mut self.log, last_applied_log, self.id) {
            Some((term, membership)) => Ok(
                WALStoreSnapshot { index: last_applied_log, term, membership, data },
            ),
            None => Err(StoreError::InconsistentLog),
        }
    }

    /// Start a compaction from what came of encoding the state machine. Where it could not be
    /// encoded, nothing changes.
    pub fn start_log_compaction(
        &mut self,
        encoded: Result<Vec<u8>, serde_json::Error>,
    ) -> (snapshot: Result<WALStoreSnapshot, StoreError>)
        ensures
            snapshot is Ok <==> encoded is Ok && old(self)@.log.contains_key(
                old(self)@.sm.last_applied_log,
            ),
            match encoded {
                Ok(data) => match snapshot {
                    Ok(s) => {
                        &&& old(self)@.can_compact()
                        &&& s@ == old(self)@.compaction_snapshot(data@)
                        &&& final(self)@ == old(self)@.compacted()
                    },
                    Err(error) => {
                        &&& !old(self)@.can_compact()
                        &&& error == StoreError::InconsistentLog
                        &&& final(self)@ == old(self)@
                    },
                },
                Err(error) => {
                    &&& snapshot == Err::<WALStoreSnapshot, StoreError>(StoreError::Json(error))
                    &&& final(self)@ == old(self)@
                },
            },
    {
        match encoded {
            Ok(data) => self.do_log_compaction(data),
            Err(error) => Err(StoreError::Json(error)),
        }
    }

    /// Finish a compaction: keep its snapshot and hand it out, encoded as `encoded` gives it.
    /// Where it could not be encoded, the store keeps the snapshot that it had.
    pub fn finish_log_compaction(
        &mut self,
        snapshot: WALStoreSnapshot,
        encoded: Result<Vec<u8>, serde_json::Error>,
    ) -> (data: Result<CurrentSnapshotData, StoreError>)
        ensures
            match encoded {
                Ok(bytes) => {
                    &&& data is Ok
                    &&& data->Ok_0@ == snapshot@.handed_out(bytes@)
                    &&& data->Ok_0.index == snapshot.index
                    &&& data->Ok_0.term == snapshot.term
                    &&& data->Ok_0.membership@ == snapshot.membership@
                    &&& data->Ok_0.snapshot@ == bytes@
                    &&& final(self)@ == old(self)@.with_snapshot(snapshot@)
                },
                Err(error) => {
                    &&& data == Err::<CurrentSnapshotData, StoreError>(StoreError::Json(error))
                    &&& final(self)@ == old(self)@
                },
            },
    {
        match encoded {
            Ok(bytes) => {
                let data = snapshot.hand_out(bytes);
                self.current_snapshot = Some(snapshot);
                Ok(data)
            },
            Err(error) => Err(StoreError::Json(error)),
        }
    }

    /// Create a new blank snapshot: its ID, which is insignificant to this storage engine, and its
    /// bytes.
    pub fn create_snapshot(&self) -> (blank: (String, Vec<u8>))
        ensures
            blank.0@ == Seq::<char>::empty(),
            blank.1@ == Seq::<u8>::empty(),
    {
        (String::new(), Vec::new())
    }

    /// Finalize the installation of a snapshot: write a pointer to it to the log, take over the
    /// state machine that it holds, and keep it as the current snapshot.
    ///
    /// `state` is what was decoded of the snapshot's data. Where that failed, the log has its
    /// pointer, and the state machine and the current snapshot stay as they were.
    pub fn finalize_snapshot_installation(
        &mut self,
        index: u64,
        term: u64,
        delete_through: Option<u64>,
        id: String,
        snapshot: WALStoreSnapshot,
        state: Result<WALStoreStateMachine, serde_json::Error>,
    ) -> (done: Result<(), StoreError>)
        requires
            delete_through != Some(u64::MAX),
        ensures
            match state {
                Ok(sm) => {
                    &&& done is Ok
                    &&& final(self)@ == old(self)@.with_installed(
                        index,
                        term,
                        delete_through,
                        id@,
                        snapshot@,
                        sm@,
                    )
                },
                Err(error) => {
                    &&& done == Err::<(), StoreError>(StoreError::Json(error))
                    &&& final(self)@ == old(self)@.with_pointer(index, term, delete_through, id@)
                },
            },
    {
        install_pointer(&mut self.log, index, term, delete_through, id, self.id);
        match state {
            Ok(sm) => {
                self.sm = sm;
                self.current_snapshot = Some(snapshot);
                Ok(())
            },
            Err(error) => Err(StoreError::Json(error)),
        }
    }

    /// Finalize the installation of a snapshot from what was decoded of its bytes: the snapshot, and
    /// the state machine that its data hold.
    ///
    /// Where the bytes hold no snapshot, nothing changes.
    pub fn install_decoded_snapshot(
        &mut self,
        index: u64,
        term: u64,
        delete_through: Option<u64>,
        id: String,
        snapshot: Result<
            (WALStoreSnapshot, Result<WALStoreStateMachine, serde_json::Error>),
            serde_json::Error,
        >,
    ) -> (done: Result<(), StoreError>)
        requires
            snapshot is Ok ==> delete_through != Some(u64::MAX),
        ensures
            match snapshot {
                Ok((decoded, Ok(sm))) => {
                    &&& done is Ok
                    &&& final(self)@ == old(self)@.with_installed(
                        index,
                        term,
                        delete_through,
                        id@,
                        decoded@,
                        sm@,
                    )
                },
                Ok((_, Err(error))) => {
                    &&& done == Err::<(), StoreError>(StoreError::Json(error))
                    &&& final(self)@ == old(self)@.with_pointer(index, term, delete_through, id@)
                },
                Err(error) => {
                    &&& done == Err::<(), StoreError>(StoreError::Json(error))
                    &&& final(self)@ == old(self)@
                },
            },
    {
        match snapshot {
            Ok((decoded, state)) => self.finalize_snapshot_installation(
                index,
                term,
                delete_through,
                id,
                decoded,
                state,
            ),
            Err(error) => Err(StoreError::Json(error)),
        }
    }

    /// Get the current snapshot.
    pub fn get_current_snapshot(&self) -> (snapshot: Option<&WALStoreSnapshot>)
        ensures
            match snapshot {
                Some(s) => self@.current_snapshot == Some(s@),
                None => self@.current_snapshot is None,
            },
    {
        match &self.current_snapshot {
            Some(snapshot) => Some(snapshot),
            None => None,
        }
    }

    /// Hand out the current snapshot, encoded as `encoded` gives it. Where there is no snapshot,
    /// there is nothing to encode, and `encoded` is not looked at.
    pub fn hand_out_current_snapshot(
        &self,
        encoded: Result<Vec<u8>, serde_json::Error>,
    ) -> (data: Result<Option<CurrentSnapshotData>, StoreError>)
        ensures
            match self@.current_snapshot {
                Some(snapshot) => match encoded {
                    Ok(bytes) => {
                        &&& data is Ok
                        &&& data->Ok_0 is Some
                        &&& data->Ok_0->0@ == snapshot.handed_out(bytes@)
                        &&& data->Ok_0->0.index == snapshot.index
                        &&& data->Ok_0->0.term == snapshot.term
                        &&& data->Ok_0->0.membership@ == snapshot.membership
                        &&& data->Ok_0->0.snapshot@ == bytes@
                    },
                    Err(error) => data == Err::<Option<CurrentSnapshotData>, StoreError>(
                        StoreError::Json(error),
                    ),
                },
                None => data == Ok::<Option<CurrentSnapshotData>, StoreError>(None),
            },
    {
        match &self.current_snapshot {
            Some(snapshot) => match encoded {
                Ok(bytes) => Ok(Some(snapshot.hand_out(bytes))),
                Err(error) => Err(StoreError::Json(error)),
            },
            None => Ok(None),
        }
    }
}

} // verus!
