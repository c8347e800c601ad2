//! Laws of the views: what a view says of a value, field by field.
use crate::clients::{distinct_clients, pairs_map};
use crate::entry::{Entry, EntryPayload, PayloadView};
use crate::log::{entries_view, log_view};
use crate::membership::{initial_membership, MembershipConfig, NodeId};
use crate::ordered::lists_in_order;
use crate::request::{ClientRequest, ClientResponse};
use crate::snapshot::{CurrentSnapshotData, WALStoreSnapshot};
use crate::state_machine::{StateMachineView, WALStoreStateMachine};
use crate::store::{requests_view, snapshot_view, InitialState};
use vstd::prelude::*;

verus! {

/// The view of a request holds its client, its serial number and its status, whole.
pub proof fn law_request_view(request: ClientRequest)
    ensures
        request@.client == request.client@,
        request@.serial == request.serial,
        request@.status == request.status@,
{
}

/// The view of a response is its text, if it has one.
pub proof fn law_response_view(response: ClientResponse)
    ensures
        match response.0 {
            Some(text) => response@ == Some(text@),
            None => response@ == None::<Seq<char>>,
        },
{
}

/// The view of a membership config holds its members, and those after joint consensus.
pub proof fn law_membership_view(config: MembershipConfig)
    ensures
        config@.members == config.members@,
        match config.members_after_consensus {
            Some(members) => config@.members_after_consensus == Some(members@),
            None => config@.members_after_consensus == None::<Set<u64>>,
        },
{
}

/// The config of a pristine node has the node as its one member and is in no joint consensus.
pub proof fn law_pristine_node_is_alone(id: NodeId, other: NodeId)
    ensures
        initial_membership(id).members.contains(other) <==> other == id,
        initial_membership(id).members_after_consensus == None::<Set<u64>>,
{
}

/// The view of an entry holds its term, its index, and what its payload carries.
pub proof fn law_entry_view(entry: Entry)
    ensures
        entry@.term == entry.term,
        entry@.index == entry.index,
        match entry.payload {
            EntryPayload::Blank => entry@.payload == PayloadView::Blank,
            EntryPayload::Normal(normal) => entry@.payload == (PayloadView::Normal {
                data: normal.data@,
            }),
            EntryPayload::ConfigChange(change) => entry@.payload == (PayloadView::ConfigChange {
                membership: change.membership@,
            }),
            EntryPayload::SnapshotPointer(pointer) => entry@.payload
                == (PayloadView::SnapshotPointer {
                id: pointer.id@,
                membership: pointer.membership@,
            }),
        },
        entry.payload@ == entry@.payload,
{
}

/// The view of a log holds the entry at each of its keys, and no other.
pub proof fn law_log_view(log: Map<u64, Entry>, k: u64)
    ensures
        log_view(log).contains_key(k) <==> log.contains_key(k),
        log.contains_key(k) ==> log_view(log)[k] == log[k]@,
{
}

/// The view of a list of entries holds each of them in its place.
pub proof fn law_entries_view(entries: Seq<Entry>, i: int)
    ensures
        entries_view(entries).len() == entries.len(),
        0 <= i < entries.len() ==> entries_view(entries)[i] == entries[i]@,
{
}

/// The view of a replication payload holds each index and request in its place.
pub proof fn law_requests_view(requests: Seq<(&u64, &ClientRequest)>, i: int)
    ensures
        requests_view(requests).len() == requests.len(),
        0 <= i < requests.len() ==> requests_view(requests)[i].0 == *requests[i].0,
        0 <= i < requests.len() ==> requests_view(requests)[i].1 == requests[i].1@,
{
}

/// The view of a state machine holds the last applied index, and of each client the recorded serial
/// number, answer and status.
pub proof fn law_state_machine_view(sm: WALStoreStateMachine, client: Seq<char>)
    ensures
        sm@.last_applied_log == sm.last_applied_log,
        sm@.client_status.contains_key(client) <==> sm.client_status@.contains_key(client),
        sm.client_status@.contains_key(client) ==> sm@.client_status[client]
            == sm.client_status@[client]@,
        sm@.client_serial_responses.contains_key(client)
            <==> sm.client_serial_responses@.contains_key(client),
        sm.client_serial_responses@.contains_key(client) ==> {
            let (serial, answer) = sm.client_serial_responses@[client];
            &&& sm@.client_serial_responses[client].0 == serial
            &&& match answer {
                Some(text) => sm@.client_serial_responses[client].1 == Some(text@),
                None => sm@.client_serial_responses[client].1 == None::<Seq<char>>,
            }
        },
{
}

/// The empty state machine has applied nothing and knows no client.
pub proof fn law_empty_state_machine(client: Seq<char>)
    ensures
        StateMachineView::empty().last_applied_log == 0,
        !StateMachineView::empty().client_status.contains_key(client),
        !StateMachineView::empty().client_serial_responses.contains_key(client),
{
}

/// The view of a snapshot holds its index, its term, its membership config and all of its data.
pub proof fn law_snapshot_view(snapshot: WALStoreSnapshot)
    ensures
        snapshot@.index == snapshot.index,
        snapshot@.term == snapshot.term,
        snapshot@.membership == snapshot.membership@,
        snapshot@.data == snapshot.data@,
        snapshot_view(Some(snapshot)) == Some(snapshot@),
        snapshot_view(None) is None,
{
}

/// The view of what is handed out of a snapshot holds its index, its term, its membership config
/// and all of its bytes.
pub proof fn law_snapshot_data_view(data: CurrentSnapshotData)
    ensures
        data@.index == data.index,
        data@.term == data.term,
        data@.membership == data.membership@,
        data@.snapshot == data.snapshot@,
{
}

/// The view of an initial state holds each of its parts.
pub proof fn law_initial_state_view(state: InitialState)
    ensures
        state@.last_log_index == state.last_log_index,
        state@.last_log_term == state.last_log_term,
        state@.last_applied_log == state.last_applied_log,
        state@.hard_state == state.hard_state,
        state@.membership == state.membership@,
{
}

/// The map that a list of pairs stands for gives each client of the list the value beside it, and
/// has no other client. In the list no client occurs twice.
pub proof fn law_pairs_map<V>(pairs: Seq<(String, V)>, i: int, j: int, client: Seq<char>)
    requires
        distinct_clients(pairs),
    ensures
        0 <= i < j < pairs.len() ==> pairs[i].0@ != pairs[j].0@,
        0 <= i < pairs.len() ==> pairs_map(pairs).contains_pair(pairs[i].0@, pairs[i].1),
        pairs_map(pairs).contains_key(client) ==> exists|p: int|
            0 <= p < pairs.len() && (#[trigger] pairs[p]).0@ == client,
{
    if 0 <= i < pairs.len() {
        let p = choose|p: int| 0 <= p < pairs.len() && (#[trigger] pairs[p]).0@ == pairs[i].0@;
        assert(i == p);
    }
}

/// A list of what a map holds has each key of the map once, with its value, the smaller one first.
pub proof fn law_lists_in_order<V>(map: Map<u64, V>, items: Seq<(u64, &V)>, i: int, j: int, k: u64)
    requires
        lists_in_order(map, items),
    ensures
        0 <= i < j < items.len() ==> items[i].0 < items[j].0,
        0 <= i < items.len() ==> map.contains_key(items[i].0) && map[items[i].0] == *items[i].1,
        map.contains_key(k) ==> exists|p: int| 0 <= p < items.len() && (#[trigger] items[p]).0 == k,
{
    if 0 <= i < items.len() {
        assert(map.contains_pair(items[i].0, *items[i].1));
    }
}

} // verus!
