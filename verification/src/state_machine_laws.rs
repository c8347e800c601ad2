//! Laws of the state machine.
use crate::request::RequestView;
use crate::state_machine::StateMachineView;
use vstd::prelude::*;

verus! {

/// A request with a new serial number is answered with the status that was recorded for its client
/// before, and its own status is the recorded one afterwards.
pub proof fn law_new_request_returns_previous_status(
    sm: StateMachineView,
    index: u64,
    request: RequestView,
)
    requires
        !sm.repeats(request),
    ensures
        sm.response(request) == sm.status_of(request.client),
        sm.apply(index, request).status_of(request.client) == Some(request.status),
{
}

/// A request that is applied a second time is answered as it was the first time, and changes
/// nothing but the index of the last applied entry.
pub proof fn law_repeated_request_is_applied_once(
    sm: StateMachineView,
    first: u64,
    second: u64,
    request: RequestView,
)
    ensures
        sm.apply(first, request).repeats(request),
        sm.apply(first, request).response(request) == sm.response(request),
        sm.apply(first, request).apply(second, request) == (StateMachineView {
            last_applied_log: second,
            ..sm.apply(first, request)
        }),
{
}

/// A request changes nothing that is recorded of other clients.
pub proof fn law_clients_are_independent(
    sm: StateMachineView,
    index: u64,
    request: RequestView,
    client: Seq<char>,
)
    requires
        client != request.client,
    ensures
        sm.apply(index, request).status_of(client) == sm.status_of(client),
        sm.apply(index, request).client_serial_responses.contains_key(client)
            == sm.client_serial_responses.contains_key(client),
        sm.client_serial_responses.contains_key(client) ==> sm.apply(
            index,
            request,
        ).client_serial_responses[client] == sm.client_serial_responses[client],
{
}

/// A series of requests of other clients leaves the answer to a request as it was.
pub proof fn law_other_clients_leave_the_answer(
    sm: StateMachineView,
    others: Seq<(u64, RequestView)>,
    request: RequestView,
)
    requires
        forall|i: int| 0 <= i < others.len() ==> (#[trigger] others[i]).1.client != request.client,
    ensures
        sm.apply_all(others).repeats(request) == sm.repeats(request),
        sm.apply_all(others).response(request) == sm.response(request),
        sm.apply_all(others).status_of(request.client) == sm.status_of(request.client),
    decreases others.len(),
{
    if others.len() > 0 {
        law_other_clients_leave_the_answer(sm, others.drop_last(), request);
        let before = sm.apply_all(others.drop_last());
        let last = others.last();
        assert(others[others.len() - 1].1.client != request.client);
        law_clients_are_independent(before, last.0, last.1, request.client);
    }
}

/// A request that its client sends again, after any requests of other clients, is answered as it
/// was the first time and is not applied again.
pub proof fn law_retry_after_other_clients(
    sm: StateMachineView,
    first: u64,
    request: RequestView,
    others: Seq<(u64, RequestView)>,
    second: u64,
)
    requires
        forall|i: int| 0 <= i < others.len() ==> (#[trigger] others[i]).1.client != request.client,
    ensures
        ({
            let between = sm.apply(first, request).apply_all(others);
            &&& between.response(request) == sm.response(request)
            &&& between.apply(second, request) == (StateMachineView {
                last_applied_log: second,
                ..between
            })
        }),
{
    law_repeated_request_is_applied_once(sm, first, second, request);
    law_other_clients_leave_the_answer(sm.apply(first, request), others, request);
}

/// The last applied entry is the one whose request was applied last.
pub proof fn law_last_applied_log_is_the_last_index(
    sm: StateMachineView,
    requests: Seq<(u64, RequestView)>,
)
    requires
        requests.len() > 0,
    ensures
        sm.apply_all(requests).last_applied_log == requests.last().0,
{
}

/// Requests that are applied in two payloads have the effect of one payload that holds them all.
pub proof fn law_payloads_join(
    sm: StateMachineView,
    first: Seq<(u64, RequestView)>,
    second: Seq<(u64, RequestView)>,
)
    ensures
        sm.apply_all(first).apply_all(second) == sm.apply_all(first + second),
    decreases second.len(),
{
    if second.len() == 0 {
        assert(first + second =~= first);
    } else {
        law_payloads_join(sm, first, second.drop_last());
        assert((first + second).drop_last() =~= first + second.drop_last());
    }
}

/// A payload of one request has the effect of applying that request.
pub proof fn law_single_payload(sm: StateMachineView, index: u64, request: RequestView)
    ensures
        sm.apply_all(seq![(index, request)]) == sm.apply(index, request),
{
    let payload = seq![(index, request)];
    assert(payload.drop_last() =~= Seq::<(u64, RequestView)>::empty());
    assert(sm.apply_all(payload.drop_last()) == sm);
}

/// The clients that have a status are those that have been answered.
pub open spec fn clients_recorded_alike(sm: StateMachineView) -> bool {
    sm.client_status.dom() == sm.client_serial_responses.dom()
}

/// In the empty state machine, and after any requests from there on, the clients that have a status
/// are those that have been answered.
pub proof fn law_clients_stay_recorded_alike(
    sm: StateMachineView,
    requests: Seq<(u64, RequestView)>,
)
    requires
        clients_recorded_alike(sm),
    ensures
        clients_recorded_alike(StateMachineView::empty()),
        clients_recorded_alike(sm.apply_all(requests)),
    decreases requests.len(),
{
    assert(Map::<Seq<char>, Seq<char>>::empty().dom() =~= Map::<
        Seq<char>,
        (u64, Option<Seq<char>>),
    >::empty().dom());
    if requests.len() > 0 {
        law_clients_stay_recorded_alike(sm, requests.drop_last());
        let before = sm.apply_all(requests.drop_last());
        let last = requests.last();
        assert(before.apply(last.0, last.1).client_status.dom() =~= before.apply(
            last.0,
            last.1,
        ).client_serial_responses.dom());
    }
}

/// A request whose client has no recorded serial number, or another one, is answered with the
/// client's recorded status, if any. Afterwards its status is recorded, and its serial number with
/// the answer; of other clients nothing changes.
pub proof fn law_request_with_another_serial_is_applied(
    sm: StateMachineView,
    index: u64,
    request: RequestView,
)
    requires
        !sm.client_serial_responses.contains_key(request.client)
            || sm.client_serial_responses[request.client].0 != request.serial,
    ensures
        sm.client_status.contains_key(request.client) ==> sm.response(request) == Some(
            sm.client_status[request.client],
        ),
        !sm.client_status.contains_key(request.client) ==> sm.response(request) == None::<Seq<char>>,
        sm.apply(index, request).last_applied_log == index,
        sm.apply(index, request).client_status == sm.client_status.insert(
            request.client,
            request.status,
        ),
        sm.apply(index, request).client_serial_responses == sm.client_serial_responses.insert(
            request.client,
            (request.serial, sm.response(request)),
        ),
{
}

/// A request with the serial number that is recorded for its client gets the recorded answer,
/// whatever its status says, and nothing but the last applied index changes.
pub proof fn law_request_with_the_recorded_serial_is_not_applied(
    sm: StateMachineView,
    index: u64,
    request: RequestView,
)
    requires
        sm.client_serial_responses.contains_key(request.client),
        sm.client_serial_responses[request.client].0 == request.serial,
    ensures
        sm.response(request) == sm.client_serial_responses[request.client].1,
        sm.apply(index, request).last_applied_log == index,
        sm.apply(index, request).client_status == sm.client_status,
        sm.apply(index, request).client_serial_responses == sm.client_serial_responses,
{
}

/// A payload of no requests changes nothing, and a payload with one request more has the effect of
/// the payload and then of that request.
pub proof fn law_payload_is_applied_in_turn(
    sm: StateMachineView,
    requests: Seq<(u64, RequestView)>,
    index: u64,
    request: RequestView,
)
    ensures
        sm.apply_all(Seq::empty()) == sm,
        sm.apply_all(requests.push((index, request))) == sm.apply_all(requests).apply(
            index,
            request,
        ),
{
    assert(requests.push((index, request)).drop_last() =~= requests);
}

/// Of two requests that a client makes one after the other, each with a new serial number, the
/// second is answered with the status of the first, and that answer is recorded for it.
pub proof fn law_next_request_is_answered_with_the_last_status(
    sm: StateMachineView,
    first: u64,
    one: RequestView,
    second: u64,
    two: RequestView,
)
    requires
        one.client == two.client,
        one.serial != two.serial,
        !sm.client_serial_responses.contains_key(one.client)
            || sm.client_serial_responses[one.client].0 != one.serial,
    ensures
        sm.apply(first, one).response(two) == Some(one.status),
        sm.apply(first, one).apply(second, two).client_serial_responses[two.client] == (
            two.serial,
            Some(one.status),
        ),
        sm.apply(first, one).apply(second, two).client_status[two.client] == two.status,
{
}

} // verus!
