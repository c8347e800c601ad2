use rust_wal::clients::ClientMap;
use rust_wal::error::ShutdownError;
use rust_wal::request::{ClientRequest, ClientResponse};
use rust_wal::state_machine::WALStoreStateMachine;
use rust_wal::store::WALStore;

fn request(client: &str, serial: u64, status: &str) -> ClientRequest {
    ClientRequest {
        client: client.to_string(),
        serial,
        status: status.to_string(),
    }
}

fn text(s: &str) -> Option<String> {
    Some(s.to_string())
}

#[test]
fn client_map_replaces_and_returns_previous() {
    let mut map: ClientMap<u64> = ClientMap::new();
    assert_eq!(map.get(&"a".to_string()), None);
    assert_eq!(map.insert("a".to_string(), 1), None);
    assert_eq!(map.insert("b".to_string(), 2), None);
    assert_eq!(map.insert("a".to_string(), 3), Some(1));
    assert_eq!(map.get(&"a".to_string()), Some(&3));
    assert_eq!(map.get(&"b".to_string()), Some(&2));
    assert_eq!(map.pairs().len(), 2);
}

#[test]
fn first_request_has_no_previous_status() {
    let mut sm = WALStoreStateMachine::default();
    assert_eq!(sm.last_applied_log, 0);
    let response = sm.apply(7, &request("a", 0, "up"));
    assert_eq!(response.0, None);
    assert_eq!(sm.last_applied_log, 7);
    assert_eq!(sm.client_status.get(&"a".to_string()), Some(&"up".to_string()));
    assert_eq!(sm.client_serial_responses.get(&"a".to_string()), Some(&(0, None)));
}

#[test]
fn new_request_returns_previous_status() {
    let mut sm = WALStoreStateMachine::default();
    sm.apply(1, &request("a", 0, "up"));
    assert_eq!(sm.apply(2, &request("a", 1, "down")).0, text("up"));
    assert_eq!(sm.client_status.get(&"a".to_string()), Some(&"down".to_string()));
}

#[test]
fn repeated_request_is_applied_once() {
    let mut sm = WALStoreStateMachine::default();
    sm.apply(1, &request("a", 0, "up"));
    sm.apply(2, &request("a", 1, "down"));
    assert_eq!(sm.apply(3, &request("a", 1, "gone")).0, text("up"));
    assert_eq!(sm.last_applied_log, 3);
    assert_eq!(sm.client_status.get(&"a".to_string()), Some(&"down".to_string()));
}

#[test]
fn older_serial_counts_as_new() {
    let mut sm = WALStoreStateMachine::default();
    sm.apply(1, &request("a", 5, "up"));
    assert_eq!(sm.apply(2, &request("a", 4, "down")).0, text("up"));
    assert_eq!(sm.client_serial_responses.get(&"a".to_string()), Some(&(4, text("up"))));
}

#[test]
fn retry_after_other_clients_is_answered_alike() {
    let mut sm = WALStoreStateMachine::default();
    sm.apply(1, &request("a", 0, "one"));
    assert_eq!(sm.apply(2, &request("a", 1, "two")).0, text("one"));
    assert_eq!(sm.apply(3, &request("b", 1, "three")).0, None);
    assert_eq!(sm.apply(4, &request("a", 1, "two")).0, text("one"));
    assert_eq!(sm.client_status.get(&"b".to_string()), Some(&"three".to_string()));
}

#[test]
fn replication_agrees_with_single_application() {
    let requests = vec![
        request("a", 0, "one"),
        request("b", 0, "two"),
        request("a", 0, "three"),
        request("a", 1, "four"),
    ];
    let mut leader = WALStore::new(1);
    let mut follower = WALStore::new(2);
    let mut payload: Vec<(&u64, &ClientRequest)> = Vec::new();
    let indexes: Vec<u64> = vec![1, 2, 3, 4];
    let mut responses = Vec::new();
    for i in 0..requests.len() {
        responses.push(leader.apply_entry_to_state_machine(&indexes[i], &requests[i]).0);
        payload.push((&indexes[i], &requests[i]));
    }
    follower.replicate_to_state_machine(&payload);
    assert_eq!(responses, vec![None, None, None, text("one")]);
    let left = leader.get_state_machine();
    let right = follower.get_state_machine();
    assert_eq!(left.last_applied_log, 4);
    assert_eq!(right.last_applied_log, 4);
    assert_eq!(left.client_status.pairs(), right.client_status.pairs());
    assert_eq!(left.client_serial_responses.pairs(), right.client_serial_responses.pairs());
    assert_eq!(right.client_status.get(&"a".to_string()), Some(&"four".to_string()));
}

#[test]
fn clients_are_recorded_in_both_maps() {
    let mut sm = WALStoreStateMachine::default();
    sm.apply(1, &request("a", 0, "one"));
    sm.apply(2, &request("b", 0, "two"));
    sm.apply(3, &request("b", 0, "two"));
    assert_eq!(sm.client_status.pairs().len(), 2);
    assert_eq!(sm.client_serial_responses.pairs().len(), 2);
}

#[test]
fn copies_hold_the_same() {
    let original = request("a", 3, "up");
    let copy = original.clone();
    assert_eq!(copy.client, "a");
    assert_eq!(copy.serial, 3);
    assert_eq!(copy.status, "up");
    assert_eq!(ClientResponse(text("x")).clone().0, text("x"));
}

#[test]
fn shutdown_error_has_its_text() {
    assert_eq!(ShutdownError::UnsafeStorageError.message(), "unsafe storage error");
}

#[test]
fn copied_state_machine_holds_the_same_and_stands_alone() {
    let mut sm = WALStoreStateMachine::default();
    sm.apply(1, &request("a", 1, "one"));
    sm.apply(2, &request("a", 2, "two"));
    let copy = sm.clone();
    sm.apply(3, &request("a", 3, "three"));
    assert_eq!(copy.last_applied_log, 2);
    assert_eq!(copy.client_status.get(&"a".to_string()), Some(&"two".to_string()));
    assert_eq!(
        copy.client_serial_responses.get(&"a".to_string()),
        Some(&(2, text("one")))
    );
}
