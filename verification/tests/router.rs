use rust_wal::decimal::decimal_text;
use rust_wal::router::{NodeMetrics, RaftRouter, RouterError};
use std::collections::HashSet;

fn cluster() -> RaftRouter<&'static str> {
    let mut router = RaftRouter::new();
    router.new_raft_node(3, "three");
    router.new_raft_node(1, "one");
    router.new_raft_node(2, "two");
    router
}

fn metrics(id: u64, current_leader: Option<u64>) -> NodeMetrics {
    NodeMetrics { id, current_leader }
}

#[test]
fn frames_pass_between_registered_nodes() {
    let router = cluster();
    assert_eq!(router.route(1, 3), Ok(&"three"));
    assert_eq!(router.route(8, 2), Ok(&"two"));
    assert!(router.contains_node(2));
    assert!(!router.contains_node(8));
    assert_eq!(*router.node(1), "one");
}

#[test]
fn isolated_node_neither_sends_nor_receives() {
    let mut router = cluster();
    router.isolate_node(2);
    assert_eq!(router.route(1, 2), Err(RouterError::TargetIsolated));
    assert_eq!(router.route(2, 1), Err(RouterError::TargetIsolated));
    assert_eq!(router.route(1, 3), Ok(&"three"));
}

#[test]
fn restored_node_is_connected_again() {
    let mut router = cluster();
    router.isolate_node(2);
    router.restore_node(2);
    assert_eq!(router.route(1, 2), Ok(&"two"));
    router.restore_node(9);
    assert_eq!(router.route(2, 1), Ok(&"one"));
}

#[test]
fn removed_node_returns_unisolated() {
    let mut router = cluster();
    router.isolate_node(2);
    assert_eq!(router.remove_node(2), Some("two"));
    assert_eq!(router.remove_node(2), None);
    assert!(!router.contains_node(2));
    assert_eq!(router.new_raft_node(2, "again"), None);
    assert_eq!(router.route(1, 2), Ok(&"again"));
    assert_eq!(router.new_raft_node(2, "twice"), Some("again"));
}

#[test]
fn node_ids_are_in_order() {
    assert_eq!(cluster().node_ids(), vec![1, 2, 3]);
    assert_eq!(RaftRouter::<u8>::new().node_ids(), Vec::<u64>::new());
}

#[test]
fn initialization_names_all_nodes() {
    let router = cluster();
    let expected: HashSet<u64> = vec![1, 2, 3].into_iter().collect();
    assert_eq!(router.initialize_from_single_node(2), Ok((&"two", expected)));
    assert_eq!(
        router.initialize_from_single_node(40),
        Err(RouterError::NodeNotFound { node: 40 })
    );
}

#[test]
fn router_errors_have_their_texts() {
    assert_eq!(
        RouterError::NodeNotFound { node: 40 }.message(),
        "node 40 not found in routing table"
    );
    assert_eq!(RouterError::TargetIsolated.message(), "target node is isolated");
}

#[test]
fn leader_is_the_first_that_claims_it() {
    let mut router = cluster();
    let seen = vec![
        metrics(1, Some(2)),
        metrics(2, Some(2)),
        metrics(3, Some(3)),
    ];
    assert_eq!(router.leader(&seen), Some(2));
    router.isolate_node(2);
    assert_eq!(router.leader(&seen), Some(3));
    router.isolate_node(3);
    assert_eq!(router.leader(&seen), None);
    assert_eq!(router.leader(&[]), None);
    assert_eq!(router.leader(&[metrics(1, None), metrics(4, Some(1))]), None);
}

#[test]
fn requests_are_numbered() {
    let request = RaftRouter::<u8>::client_request("client", 120);
    assert_eq!(request.client, "client");
    assert_eq!(request.serial, 120);
    assert_eq!(request.status, "request-120");
    let requests = RaftRouter::<u8>::client_request_many("c", 12);
    assert_eq!(requests.len(), 12);
    for (i, request) in requests.iter().enumerate() {
        assert_eq!(request.client, "c");
        assert_eq!(request.serial, i as u64);
        assert_eq!(request.status, format!("request-{}", i));
    }
    assert_eq!(RaftRouter::<u8>::client_request_many("c", 0).len(), 0);
}

#[test]
fn numbers_are_written_in_decimal() {
    assert_eq!(decimal_text(0), "0");
    assert_eq!(decimal_text(9), "9");
    assert_eq!(decimal_text(10), "10");
    assert_eq!(decimal_text(1234567890), "1234567890");
    assert_eq!(decimal_text(u64::MAX), "18446744073709551615");
}
