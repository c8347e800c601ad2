//! The state machine that committed requests are applied to.
use crate::clients::ClientMap;
use crate::request::{clone_text, option_chars, ClientRequest, ClientResponse, RequestView};
use vstd::prelude::*;

verus! {

/// The state machine: the status of each client, and the answer to its last request.
#[derive(Debug)]
pub struct WALStoreStateMachine {
    pub last_applied_log: u64,
    /// A mapping of client IDs to their state info.
    pub client_serial_responses: ClientMap<(u64, Option<String>)>,
    /// The current status of a client by ID.
    pub client_status: ClientMap<String>,
}

/// What a `WALStoreStateMachine` holds.
#[verifier::ext_equal]
pub struct StateMachineView {
    pub last_applied_log: u64,
    pub client_serial_responses: Map<Seq<char>, (u64, Option<Seq<char>>)>,
    pub client_status: Map<Seq<char>, Seq<char>>,
}

impl View for WALStoreStateMachine {
    type V = StateMachineView;

    open spec fn view(&self) -> StateMachineView {
        StateMachineView {
            last_applied_log: self.last_applied_log,
            client_serial_responses: self.client_serial_responses@.map_values(
                |response: (u64, Option<String>)| (response.0, option_chars(response.1)),
            ),
            client_status: self.client_status@.map_values(|status: String| status@),
        }
    }
}

impl StateMachineView {
    /// The state in which nothing has been applied.
    pub open spec fn empty() -> StateMachineView {
        StateMachineView {
            last_applied_log: 0,
            client_serial_responses: Map::empty(),
            client_status: Map::empty(),
        }
    }

    /// The request carries the serial number of the last request that its client made.
    pub open spec fn repeats(self, request: RequestView) -> bool {
        &&& self.client_serial_responses.contains_key(request.client)
        &&& self.client_serial_responses[request.client].0 == request.serial
    }

    /// The status that is recorded for a client.
    pub open spec fn status_of(self, client: Seq<char>) -> Option<Seq<char>> {
        if self.client_status.contains_key(client) {
            Some(self.client_status[client])
        } else {
            None
        }
    }

    /// The answer to a request: to a repeated one the answer that it got before, to another one
    /// the status that was recorded so far.
    pub open spec fn response(self, request: RequestView) -> Option<Seq<char>> {
        if self.repeats(request) {
            self.client_serial_responses[request.client].1
        } else {
            self.status_of(request.client)
        }
    }

    /// The state after a request from the log entry at `index`.
    pub open spec fn apply(self, index: u64, request: RequestView) -> StateMachineView {
        if self.repeats(request) {
            StateMachineView { last_applied_log: index, ..self }
        } else {
            StateMachineView {
                last_applied_log: index,
                client_serial_responses: self.client_serial_responses.insert(
                    request.client,
                    (request.serial, self.status_of(request.client)),
                ),
                client_status: self.client_status.insert(request.client, request.status),
            }
        }
    }

    /// The state after a series of requests, the first one first.
    pub open spec fn apply_all(self, requests: Seq<(u64, RequestView)>) -> StateMachineView
        decreases requests.len(),
    {
        if requests.len() == 0 {
            self
        } else {
            self.apply_all(requests.drop_last()).apply(requests.last().0, requests.last().1)
        }
    }
}

impl Default for WALStoreStateMachine {
    fn default() -> (sm: Self)
        ensures
            sm@ == StateMachineView::empty(),
    {
        let sm = WALStoreStateMachine {
            last_applied_log: 0,
            client_serial_responses: ClientMap::new(),
            client_status: ClientMap::new(),
        };
        assert(sm@ =~= StateMachineView::empty());
        sm
    }
}

impl Clone for WALStoreStateMachine {
    fn clone(&self) -> (copy: Self)
        ensures
            copy@ == self@,
    {
        WALStoreStateMachine {
            last_applied_log: self.last_applied_log,
            client_serial_responses: self.client_serial_responses.clone(),
            client_status: self.client_status.clone(),
        }
    }
}

impl WALStoreStateMachine {
    /// Applies the request of the log entry at `index`, and answers it.
    ///
    /// A request with the serial number of its client's last request changes no client's state
    /// and gets the answer that was given before.
    pub fn apply(&mut self, index: u64, data: &ClientRequest) -> (response: ClientResponse)
        ensures
            final(self)@ == old(self)@.apply(index, data@),
            response@ == old(self)@.response(data@),
    {
        self.last_applied_log = index;
        if let Some(answered) = self.client_serial_responses.get(&data.client) {
            if answered.0 == data.serial {
                return ClientResponse(clone_text(&answered.1));
            }
        }
        let previous = self.client_status.insert(data.client.clone(), data.status.clone());
        self.client_serial_responses.insert(
            data.client.clone(),
            (data.serial, clone_text(&previous)),
        );
        assert(self@ =~= old(self)@.apply(index, data@));
        ClientResponse(previous)
    }
}

} // verus!
