use rust_wal::entry::{Entry, EntryConfigChange, EntryNormal, EntryPayload};
use rust_wal::error::StoreError;
use rust_wal::membership::MembershipConfig;
use rust_wal::request::ClientRequest;
use rust_wal::snapshot::{describe_snapshot, installation_note, WALStoreSnapshot};
use rust_wal::state_machine::WALStoreStateMachine;
use rust_wal::store::{HardState, WALStore};
use std::collections::{BTreeMap, HashSet};

fn ids(members: &[u64]) -> HashSet<u64> {
    members.iter().cloned().collect()
}

fn config(members: &[u64]) -> MembershipConfig {
    MembershipConfig {
        members: ids(members),
        members_after_consensus: None,
    }
}

fn blank(term: u64, index: u64) -> Entry {
    Entry {
        term,
        index,
        payload: EntryPayload::Blank,
    }
}

fn change(term: u64, index: u64, members: &[u64]) -> Entry {
    Entry {
        term,
        index,
        payload: EntryPayload::ConfigChange(EntryConfigChange {
            membership: config(members),
        }),
    }
}

fn normal(term: u64, index: u64, status: &str) -> Entry {
    Entry {
        term,
        index,
        payload: EntryPayload::Normal(EntryNormal {
            data: ClientRequest {
                client: "client".to_string(),
                serial: index,
                status: status.to_string(),
            },
        }),
    }
}

fn indexes(entries: &[Entry]) -> Vec<u64> {
    entries.iter().map(|entry| entry.index).collect()
}

fn apply_at(store: &mut WALStore, index: u64) {
    store.apply_entry_to_state_machine(
        &index,
        &ClientRequest {
            client: "client".to_string(),
            serial: index,
            status: format!("status-{}", index),
        },
    );
}

fn json_error() -> serde_json::Error {
    serde_json::from_str::<u64>("nothing").unwrap_err()
}

#[test]
fn pristine_store_tells_the_initial_state() {
    let mut store = WALStore::new(3);
    assert_eq!(*store.read_hard_state(), None);
    let state = store.get_initial_state();
    assert_eq!((state.last_log_index, state.last_log_term, state.last_applied_log), (0, 0, 0));
    assert_eq!(state.hard_state, HardState { current_term: 0, voted_for: None });
    assert_eq!(state.membership.members, ids(&[3]));
    assert_eq!(state.membership.members_after_consensus, None);
    assert_eq!(*store.read_hard_state(), Some(HardState { current_term: 0, voted_for: None }));
    let again = store.get_initial_state();
    assert_eq!((again.last_log_index, again.last_log_term, again.last_applied_log), (0, 0, 0));
    assert_eq!(again.membership.members, ids(&[3]));
}

#[test]
fn saved_hard_state_is_told_with_the_last_entry() {
    let mut store = WALStore::new(1);
    let hs = HardState { current_term: 4, voted_for: Some(2) };
    store.save_hard_state(&hs);
    store.replicate_to_log(&[blank(3, 8), blank(2, 5), change(3, 7, &[1, 2])]);
    apply_at(&mut store, 5);
    let state = store.get_initial_state();
    assert_eq!((state.last_log_index, state.last_log_term, state.last_applied_log), (8, 3, 5));
    assert_eq!(state.hard_state, hs);
    assert_eq!(state.membership.members, ids(&[1, 2]));
    assert_eq!(*store.read_hard_state(), Some(hs));
}

#[test]
fn store_without_hard_state_answers_as_pristine() {
    let mut store = WALStore::new(1);
    store.append_entry_to_log(&change(3, 7, &[1, 2]));
    let state = store.get_initial_state();
    assert_eq!((state.last_log_index, state.last_log_term), (0, 0));
    assert_eq!(state.membership.members, ids(&[1]));
    let state = store.get_initial_state();
    assert_eq!((state.last_log_index, state.last_log_term), (7, 3));
    assert_eq!(state.membership.members, ids(&[1, 2]));
}

#[test]
fn new_with_state_keeps_what_it_is_given() {
    let mut log = BTreeMap::new();
    log.insert(2, blank(1, 2));
    let mut sm = WALStoreStateMachine::default();
    sm.last_applied_log = 2;
    let hs = HardState { current_term: 1, voted_for: None };
    let snapshot = WALStoreSnapshot { index: 1, term: 1, membership: config(&[9]), data: vec![5] };
    let mut store = WALStore::new_with_state(9, log, sm, Some(hs), Some(snapshot));
    assert_eq!(store.get_log().len(), 1);
    assert_eq!(store.get_state_machine().last_applied_log, 2);
    assert_eq!(*store.read_hard_state(), Some(hs));
    assert_eq!(store.get_current_snapshot().unwrap().data, vec![5]);
    assert_eq!(store.get_membership_config().members, ids(&[9]));
    store.get_log().clear();
    assert_eq!(store.get_log_entries(0, 10).len(), 0);
    store.get_state_machine().last_applied_log = 1;
    assert_eq!(store.get_initial_state().last_applied_log, 1);
}

#[test]
fn written_entries_are_read_back_in_order() {
    let mut store = WALStore::new(1);
    store.append_entry_to_log(&normal(1, 4, "four"));
    store.append_entry_to_log(&blank(1, 2));
    store.append_entry_to_log(&blank(1, 3));
    store.append_entry_to_log(&blank(1, 6));
    assert_eq!(indexes(&store.get_log_entries(2, 6)), vec![2, 3, 4]);
    assert_eq!(indexes(&store.get_log_entries(0, 100)), vec![2, 3, 4, 6]);
    assert_eq!(indexes(&store.get_log_entries(5, 6)), Vec::<u64>::new());
    assert_eq!(indexes(&store.get_log_entries(6, 7)), vec![6]);
    match &store.get_log_entries(4, 5)[0].payload {
        EntryPayload::Normal(entry) => assert_eq!(entry.data.status, "four"),
        _ => panic!("the payload was lost"),
    }
}

#[test]
fn reversed_range_is_empty() {
    let mut store = WALStore::new(1);
    store.replicate_to_log(&[blank(1, 1), blank(1, 2), blank(1, 3)]);
    assert_eq!(store.get_log_entries(3, 1).len(), 0);
    assert_eq!(store.get_log_entries(2, 2).len(), 0);
    store.delete_logs_from(3, Some(1));
    assert_eq!(indexes(&store.get_log_entries(0, 9)), vec![1, 2, 3]);
}

#[test]
fn replication_overwrites_by_index() {
    let mut store = WALStore::new(1);
    store.replicate_to_log(&[blank(1, 1), blank(1, 2)]);
    store.replicate_to_log(&[blank(2, 2), blank(3, 3), blank(4, 2)]);
    let entries = store.get_log_entries(0, 9);
    let terms: Vec<(u64, u64)> = entries.iter().map(|e| (e.index, e.term)).collect();
    assert_eq!(terms, vec![(1, 1), (2, 4), (3, 3)]);
}

#[test]
fn deletion_stops_before_stop() {
    let mut store = WALStore::new(1);
    store.replicate_to_log(&[blank(1, 1), blank(1, 2), blank(1, 3), blank(1, 4), blank(1, 6)]);
    store.delete_logs_from(2, Some(4));
    assert_eq!(indexes(&store.get_log_entries(0, 9)), vec![1, 4, 6]);
    store.delete_logs_from(4, Some(4));
    assert_eq!(indexes(&store.get_log_entries(0, 9)), vec![1, 4, 6]);
}

#[test]
fn deletion_without_stop_takes_the_rest() {
    let mut store = WALStore::new(1);
    store.replicate_to_log(&[blank(1, 1), blank(1, 2), blank(1, 3), blank(1, 5)]);
    store.delete_logs_from(3, None);
    assert_eq!(indexes(&store.get_log_entries(0, 9)), vec![1, 2]);
    store.delete_logs_from(0, None);
    assert_eq!(store.get_log_entries(0, 9).len(), 0);
}

#[test]
fn membership_is_the_latest_in_the_log() {
    let mut store = WALStore::new(1);
    assert_eq!(store.get_membership_config().members, ids(&[1]));
    store.append_entry_to_log(&change(1, 1, &[1, 2]));
    store.append_entry_to_log(&normal(1, 2, "x"));
    assert_eq!(store.get_membership_config().members, ids(&[1, 2]));
    store.append_entry_to_log(&change(1, 3, &[1, 2, 3]));
    assert_eq!(store.get_membership_config().members, ids(&[1, 2, 3]));
    store.append_entry_to_log(&Entry::new_snapshot_pointer(4, 1, "snap".to_string(), config(&[7])));
    assert_eq!(store.get_membership_config().members, ids(&[7]));
}

#[test]
fn joint_membership_is_copied_whole() {
    let mut store = WALStore::new(1);
    let mut entry = change(1, 1, &[1, 2]);
    if let EntryPayload::ConfigChange(joint) = &mut entry.payload {
        joint.membership.members_after_consensus = Some(ids(&[2, 3]));
    }
    store.append_entry_to_log(&entry);
    let membership = store.get_membership_config();
    assert_eq!(membership.members, ids(&[1, 2]));
    assert_eq!(membership.members_after_consensus, Some(ids(&[2, 3])));
}

#[test]
fn compaction_replaces_the_prefix_by_a_pointer() {
    let mut store = WALStore::new(1);
    store.replicate_to_log(&[
        change(1, 1, &[1, 2]),
        blank(1, 2),
        normal(2, 3, "three"),
        change(2, 4, &[1, 2, 3]),
        blank(2, 5),
    ]);
    apply_at(&mut store, 3);
    let snapshot = store.do_log_compaction(vec![1, 2, 3]).unwrap();
    assert_eq!((snapshot.index, snapshot.term), (3, 2));
    assert_eq!(snapshot.membership.members, ids(&[1, 2]));
    assert_eq!(snapshot.data, vec![1, 2, 3]);
    assert!(store.get_current_snapshot().is_none());
    let entries = store.get_log_entries(0, 9);
    assert_eq!(indexes(&entries), vec![3, 4, 5]);
    match &entries[0].payload {
        EntryPayload::SnapshotPointer(pointer) => {
            assert_eq!(pointer.id, "");
            assert_eq!(pointer.membership.members, ids(&[1, 2]));
        }
        _ => panic!("no pointer to the snapshot"),
    }
    assert_eq!(entries[0].term, 2);
    assert_eq!(store.get_membership_config().members, ids(&[1, 2, 3]));

    let data = store.finish_log_compaction(snapshot, Ok(vec![9, 9])).unwrap();
    assert_eq!((data.index, data.term, data.snapshot), (3, 2, vec![9, 9]));
    assert_eq!(data.membership.members, ids(&[1, 2]));
    let current = store.get_current_snapshot().unwrap();
    assert_eq!((current.index, current.term), (3, 2));
    let again = current.hand_out(vec![9, 9]);
    assert_eq!((again.index, again.term, again.snapshot), (3, 2, vec![9, 9]));
    assert_eq!(again.membership.members, ids(&[1, 2]));
}

#[test]
fn compaction_without_the_applied_entry_fails() {
    let mut store = WALStore::new(1);
    store.replicate_to_log(&[blank(1, 1), blank(1, 2)]);
    let error = match store.do_log_compaction(vec![]) {
        Err(error) => error,
        Ok(_) => panic!("the log has no entry at zero"),
    };
    assert!(matches!(error, StoreError::InconsistentLog));
    assert_eq!(
        error.message().unwrap(),
        "a query was received which was expecting data to be in place which does not exist in the log"
    );
    assert_eq!(indexes(&store.get_log_entries(0, 9)), vec![1, 2]);
}

#[test]
fn unencodable_snapshot_is_not_kept() {
    let mut store = WALStore::new(1);
    store.append_entry_to_log(&blank(1, 1));
    apply_at(&mut store, 1);
    let snapshot = store.do_log_compaction(vec![]).unwrap();
    match store.finish_log_compaction(snapshot, Err(json_error())) {
        Err(StoreError::Json(_)) => {}
        _ => panic!("the error was lost"),
    }
    assert!(store.get_current_snapshot().is_none());
}

#[test]
fn compaction_without_config_change_takes_the_node_alone() {
    let mut store = WALStore::new(6);
    store.replicate_to_log(&[blank(1, 1), blank(1, 2), change(1, 3, &[6, 7])]);
    apply_at(&mut store, 2);
    let snapshot = store.do_log_compaction(vec![]).unwrap();
    assert_eq!(snapshot.membership.members, ids(&[6]));
    assert_eq!(store.get_membership_config().members, ids(&[6, 7]));
}

#[test]
fn compaction_reads_the_config_of_a_snapshot_pointer() {
    let mut store = WALStore::new(6);
    store.replicate_to_log(&[
        Entry::new_snapshot_pointer(1, 1, "snap".to_string(), config(&[6, 7])),
        blank(1, 2),
    ]);
    apply_at(&mut store, 2);
    let snapshot = store.do_log_compaction(vec![]).unwrap();
    assert_eq!(snapshot.membership.members, ids(&[6, 7]));
    assert_eq!(store.get_membership_config().members, ids(&[6, 7]));
}

#[test]
fn compaction_again_changes_nothing() {
    let mut store = WALStore::new(1);
    store.append_entry_to_log(&change(3, 1, &[1, 2]));
    apply_at(&mut store, 1);
    for _ in 0..3 {
        let snapshot = store.do_log_compaction(vec![5]).unwrap();
        assert_eq!((snapshot.index, snapshot.term), (1, 3));
        assert_eq!(snapshot.membership.members, ids(&[1, 2]));
        assert!(store.finish_log_compaction(snapshot, Ok(vec![])).is_ok());
        let entries = store.get_log_entries(0, 9);
        assert_eq!(indexes(&entries), vec![1]);
        assert_eq!(entries[0].membership().unwrap().members, ids(&[1, 2]));
        assert_eq!(store.get_state_machine().last_applied_log, 1);
    }
}

#[test]
fn installation_keeps_the_config_of_a_snapshot_pointer() {
    let mut store = WALStore::new(2);
    store.append_entry_to_log(&change(1, 1, &[1, 2]));
    apply_at(&mut store, 1);
    let snapshot = store.do_log_compaction(vec![]).unwrap();
    let state = Ok(WALStoreStateMachine::default());
    assert!(store
        .finalize_snapshot_installation(4, 2, None, "s".to_string(), snapshot, state)
        .is_ok());
    assert_eq!(store.get_membership_config().members, ids(&[1, 2]));
}

#[test]
fn compaction_goes_by_the_index_of_entries() {
    let mut log = BTreeMap::new();
    log.insert(1, change(1, 1, &[1, 3]));
    log.insert(2, change(1, 9, &[1, 5]));
    log.insert(3, blank(1, 2));
    log.insert(4, change(1, 8, &[1, 4]));
    let mut sm = WALStoreStateMachine::default();
    sm.last_applied_log = 3;
    let mut store = WALStore::new_with_state(1, log, sm, None, None);
    let snapshot = store.do_log_compaction(vec![]).unwrap();
    assert_eq!(snapshot.membership.members, ids(&[1, 3]));
}

#[test]
fn blank_snapshot_is_empty() {
    let (id, bytes) = WALStore::new(1).create_snapshot();
    assert_eq!(id, "");
    assert_eq!(bytes, Vec::<u8>::new());
}

#[test]
fn installation_restores_the_state_machine() {
    let mut source = WALStore::new(1);
    source.replicate_to_log(&[change(1, 1, &[1, 2]), normal(1, 2, "two")]);
    apply_at(&mut source, 2);
    let snapshot = source.do_log_compaction(vec![4]).unwrap();

    let mut target = WALStore::new(2);
    target.replicate_to_log(&[change(1, 1, &[1, 2]), blank(1, 2), blank(1, 3), blank(1, 4)]);
    let mut state = WALStoreStateMachine::default();
    state.last_applied_log = 2;
    state.client_status.insert("client".to_string(), "status-2".to_string());
    state.client_serial_responses.insert("client".to_string(), (2, None));
    let done = target.finalize_snapshot_installation(
        snapshot.index,
        5,
        Some(3),
        "snap".to_string(),
        snapshot,
        Ok(state),
    );
    assert!(done.is_ok());
    assert_eq!(indexes(&target.get_log_entries(0, 9)), vec![2, 4]);
    match &target.get_log_entries(2, 3)[0].payload {
        EntryPayload::SnapshotPointer(pointer) => {
            assert_eq!(pointer.id, "snap");
            assert_eq!(pointer.membership.members, ids(&[1, 2]));
        }
        _ => panic!("no pointer to the snapshot"),
    }
    assert_eq!(target.get_log_entries(2, 3)[0].term, 5);
    assert_eq!(target.get_current_snapshot().unwrap().data, vec![4]);
    let request = ClientRequest {
        client: "client".to_string(),
        serial: 3,
        status: "new".to_string(),
    };
    assert_eq!(target.apply_entry_to_state_machine(&3, &request).0, Some("status-2".to_string()));
    assert_eq!(source.apply_entry_to_state_machine(&3, &request).0, Some("status-2".to_string()));
}

#[test]
fn installation_without_index_clears_the_log() {
    let mut store = WALStore::new(2);
    store.replicate_to_log(&[blank(1, 1), blank(1, 2), blank(1, 30)]);
    let snapshot = WALStoreSnapshot { index: 20, term: 3, membership: config(&[1]), data: vec![] };
    let state = Ok(WALStoreStateMachine::default());
    assert!(store
        .finalize_snapshot_installation(20, 3, None, "s".to_string(), snapshot, state)
        .is_ok());
    assert_eq!(indexes(&store.get_log_entries(0, 99)), vec![20]);
    assert_eq!(store.get_membership_config().members, ids(&[2]));
}

#[test]
fn undecodable_state_leaves_the_state_machine() {
    let mut store = WALStore::new(2);
    store.replicate_to_log(&[blank(1, 1), blank(1, 2)]);
    apply_at(&mut store, 2);
    let snapshot = WALStoreSnapshot { index: 2, term: 3, membership: config(&[1]), data: vec![] };
    match store.finalize_snapshot_installation(
        2,
        3,
        Some(2),
        "s".to_string(),
        snapshot,
        Err(json_error()),
    ) {
        Err(StoreError::Json(_)) => {}
        _ => panic!("the error was lost"),
    }
    assert_eq!(indexes(&store.get_log_entries(0, 99)), vec![2]);
    assert_eq!(store.get_state_machine().last_applied_log, 2);
    assert!(store.get_current_snapshot().is_none());
}

#[test]
fn snapshot_bytes_are_described_as_json() {
    assert_eq!(installation_note("text"), "JSON SNAP:\ntext");
    assert_eq!(describe_snapshot(&[1, 20, 255]).unwrap(), "JSON SNAP:\n[\n  1,\n  20,\n  255\n]");
    assert_eq!(describe_snapshot(&[]).unwrap(), "JSON SNAP:\n[]");
}

#[test]
fn entries_stay_at_their_indexes() {
    let mut store = WALStore::new(1);
    store.replicate_to_log(&[blank(1, 1), blank(1, 2), blank(1, 3), blank(1, 5)]);
    store.delete_logs_from(5, None);
    apply_at(&mut store, 2);
    let snapshot = store.do_log_compaction(vec![]).unwrap();
    for (key, entry) in store.get_log().iter() {
        assert_eq!(*key, entry.index);
    }
    let state = Ok(WALStoreStateMachine::default());
    assert!(store
        .finalize_snapshot_installation(9, 3, Some(2), "s".to_string(), snapshot, state)
        .is_ok());
    assert_eq!(store.get_log().len(), 2);
    for (key, entry) in store.get_log().iter() {
        assert_eq!(*key, entry.index);
    }
}

#[test]
fn replicated_payload_is_read_back() {
    let mut store = WALStore::new(1);
    store.append_entry_to_log(&blank(1, 3));
    store.append_entry_to_log(&blank(1, 9));
    store.replicate_to_log(&[normal(2, 3, "a"), normal(2, 4, "b"), normal(3, 5, "c")]);
    let read = store.get_log_entries(3, 6);
    assert_eq!(indexes(&read), vec![3, 4, 5]);
    let statuses: Vec<String> = read
        .iter()
        .map(|entry| match &entry.payload {
            EntryPayload::Normal(normal) => normal.data.status.clone(),
            _ => panic!("a normal entry was written"),
        })
        .collect();
    assert_eq!(statuses, vec!["a", "b", "c"]);
}

#[test]
fn copied_snapshot_holds_the_same() {
    let snapshot = WALStoreSnapshot {
        index: 4,
        term: 2,
        membership: config(&[1, 2]),
        data: vec![7, 8],
    };
    let copy = snapshot.clone();
    assert_eq!((copy.index, copy.term), (4, 2));
    assert_eq!(copy.membership.members, ids(&[1, 2]));
    assert_eq!(copy.data, vec![7, 8]);
}

#[test]
fn undecodable_snapshot_changes_nothing() {
    let mut store = WALStore::new(2);
    store.replicate_to_log(&[blank(1, 1), blank(1, 2)]);
    apply_at(&mut store, 2);
    for through in [None, Some(1), Some(u64::MAX)] {
        match store.install_decoded_snapshot(9, 3, through, "s".to_string(), Err(json_error())) {
            Err(error @ StoreError::Json(_)) => assert_eq!(error.message(), None),
            _ => panic!("the error was lost"),
        }
        assert_eq!(indexes(&store.get_log_entries(0, 99)), vec![1, 2]);
        assert_eq!(store.get_state_machine().last_applied_log, 2);
        assert!(store.get_current_snapshot().is_none());
    }
}

#[test]
fn decoded_snapshot_is_installed() {
    let mut store = WALStore::new(2);
    store.replicate_to_log(&[change(1, 1, &[1, 2]), blank(1, 2), blank(1, 3)]);
    let snapshot = WALStoreSnapshot { index: 2, term: 1, membership: config(&[1, 2]), data: vec![8] };
    let mut sm = WALStoreStateMachine::default();
    sm.last_applied_log = 2;
    let decoded = Ok((snapshot.clone(), Ok(sm)));
    assert!(store.install_decoded_snapshot(2, 1, Some(2), "s".to_string(), decoded).is_ok());
    assert_eq!(indexes(&store.get_log_entries(0, 99)), vec![2, 3]);
    assert_eq!(store.get_state_machine().last_applied_log, 2);
    assert_eq!(store.get_current_snapshot().unwrap().data, vec![8]);
    assert_eq!(store.get_membership_config().members, ids(&[1, 2]));

    let decoded = Ok((snapshot, Err(json_error())));
    assert!(store.install_decoded_snapshot(4, 1, None, "t".to_string(), decoded).is_err());
    assert_eq!(indexes(&store.get_log_entries(0, 99)), vec![4]);
    assert_eq!(store.get_state_machine().last_applied_log, 2);
}

#[test]
fn compaction_leaves_the_initial_state() {
    let mut store = WALStore::new(1);
    store.replicate_to_log(&[change(1, 1, &[1, 2]), blank(2, 2)]);
    store.save_hard_state(&HardState { current_term: 2, voted_for: Some(1) });
    apply_at(&mut store, 2);
    let before = store.get_initial_state();
    store.do_log_compaction(vec![]).unwrap();
    let after = store.get_initial_state();
    assert_eq!((after.last_log_index, after.last_log_term), (2, 2));
    assert_eq!(after.last_log_index, before.last_log_index);
    assert_eq!(after.last_applied_log, before.last_applied_log);
    assert_eq!(after.hard_state, before.hard_state);
    assert_eq!(after.membership.members, before.membership.members);
    assert_eq!(after.membership.members, ids(&[1, 2]));
}

#[test]
fn unencodable_state_machine_is_not_compacted() {
    let mut store = WALStore::new(1);
    store.replicate_to_log(&[blank(1, 1), blank(2, 2)]);
    apply_at(&mut store, 2);
    match store.start_log_compaction(Err(json_error())) {
        Err(StoreError::Json(_)) => {}
        _ => panic!("the error was lost"),
    }
    assert_eq!(indexes(&store.get_log_entries(0, 9)), vec![1, 2]);
    assert!(store.get_current_snapshot().is_none());

    let snapshot = store.start_log_compaction(Ok(vec![6])).unwrap();
    assert_eq!((snapshot.index, snapshot.term, snapshot.data), (2, 2, vec![6]));
    assert_eq!(indexes(&store.get_log_entries(0, 9)), vec![2]);

    apply_at(&mut store, 7);
    match store.start_log_compaction(Ok(vec![6])) {
        Err(StoreError::InconsistentLog) => {}
        _ => panic!("the log has no entry at seven"),
    }
    assert_eq!(indexes(&store.get_log_entries(0, 9)), vec![2]);
}

#[test]
fn current_snapshot_is_handed_out_as_it_was_encoded() {
    let none = WALStore::new(1);
    assert!(none.hand_out_current_snapshot(Ok(vec![1])).unwrap().is_none());
    assert!(none.hand_out_current_snapshot(Err(json_error())).unwrap().is_none());

    let snapshot = WALStoreSnapshot { index: 4, term: 2, membership: config(&[1, 2]), data: vec![7] };
    let store = WALStore::new_with_state(
        1,
        BTreeMap::new(),
        WALStoreStateMachine::default(),
        None,
        Some(snapshot),
    );
    let data = store.hand_out_current_snapshot(Ok(vec![3, 4])).unwrap().unwrap();
    assert_eq!((data.index, data.term, data.snapshot), (4, 2, vec![3, 4]));
    assert_eq!(data.membership.members, ids(&[1, 2]));
    match store.hand_out_current_snapshot(Err(json_error())) {
        Err(StoreError::Json(_)) => {}
        _ => panic!("the error was lost"),
    }
}
