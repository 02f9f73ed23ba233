//! What holds of every run of the engine.

use vstd::prelude::*;
use crate::engine::{awaits, initial, is_final, step, ActionView, EventView, StateView};
use crate::header::{forwarded, lemma_forwarded_push, names_host, HeaderView};
use crate::message::{
    gateway_error, internal_error, relayed, InboundRequestView, UpstreamResponseView,
    STATUS_BAD_GATEWAY, STATUS_INTERNAL_SERVER_ERROR,
};
use crate::proxy::{outbound, outbound_uri, RETRY_BACKOFF_MILLIS, RETRY_COUNT};
use crate::trace::{
    attempts, attempts_left, inbound_body, lemma_attempts_push, lemma_run_concat, lemma_run_len,
    lemma_run_push, lemma_taken_up_push, run, steps_left, taken_up, well_formed,
};

verus! {

/// Every step either takes up an event that the state waits for, and then comes strictly
/// nearer to a response, or ignores the event and leaves the state as it is. A response is
/// asked for exactly on the step that reaches a final state, and a state is final exactly
/// when no step is left.
pub proof fn step_makes_progress(target: Seq<char>, state: StateView, event: EventView)
    requires
        well_formed(state),
    ensures
        well_formed(step(target, state, event).0),
        awaits(state, event) <==> !(step(target, state, event).1 is Ignored),
        awaits(state, event) ==> steps_left(step(target, state, event).0) < steps_left(state),
        !awaits(state, event) ==> step(target, state, event).0 == state,
        step(target, state, event).1 is Respond <==> awaits(state, event) && is_final(
            step(target, state, event).0,
        ),
        is_final(state) <==> steps_left(state) == 0,
{
}

/// A state in which no response has been given waits for something: there is an event that
/// it takes up, so that the handling of a request cannot come to rest unanswered.
pub proof fn unfinished_state_awaits_an_event(state: StateView)
    requires
        !is_final(state),
    ensures
        exists|event: EventView| awaits(state, event),
{
    match state {
        StateView::ReadingInboundBody { .. } => {
            assert(awaits(state, EventView::InboundBodyFailed));
        },
        StateView::Attempting { .. } => {
            assert(awaits(state, EventView::TransportFailed { description: Seq::empty() }));
        },
        StateView::TransportFailed { .. } => {
            assert(awaits(state, EventView::BackoffElapsed));
        },
        _ => {
            assert(awaits(state, EventView::UpstreamBodyFailed));
        },
    }
}

/// Every state that a run from the beginning of a request passes through is well formed.
pub proof fn run_stays_well_formed(
    target: Seq<char>,
    request: InboundRequestView,
    events: Seq<EventView>,
)
    ensures
        well_formed(run(target, initial(request), events).0),
    decreases events.len(),
{
    if events.len() > 0 {
        run_stays_well_formed(target, request, events.drop_last());
        step_makes_progress(
            target,
            run(target, initial(request), events.drop_last()).0,
            events.last(),
        );
    }
}

/// A request is answered once: a run holds a response exactly when it has reached a final
/// state, and after a response every event is ignored, so that no second one is given and
/// nothing more is sent.
pub proof fn exactly_one_response(
    target: Seq<char>,
    request: InboundRequestView,
    events: Seq<EventView>,
)
    ensures
        ({
            let (end, actions) = run(target, initial(request), events);
            &&& actions.len() == events.len()
            &&& is_final(end) <==> exists|i: int| 0 <= i < actions.len() && actions[i] is Respond
            &&& forall|i: int, j: int|
                0 <= i < j < actions.len() && actions[i] is Respond ==> actions[j] is Ignored
        }),
    decreases events.len(),
{
    lemma_run_len(target, initial(request), events);
    if events.len() > 0 {
        let shorter = events.drop_last();
        exactly_one_response(target, request, shorter);
        lemma_run_len(target, initial(request), shorter);
        run_stays_well_formed(target, request, shorter);
        let (mid, before) = run(target, initial(request), shorter);
        let (end, actions) = run(target, initial(request), events);
        step_makes_progress(target, mid, events.last());
        assert(actions == before.push(step(target, mid, events.last()).1));
        assert(forall|i: int| 0 <= i < before.len() ==> actions[i] == before[i]);
        if is_final(mid) {
            let i = choose|i: int| 0 <= i < before.len() && before[i] is Respond;
            assert(actions[i] is Respond);
        } else if is_final(end) {
            assert(actions[actions.len() - 1] is Respond);
        }
    }
}

/// A run from the beginning of a request takes up at most as many events as the first state
/// has steps left: seven, whatever the events are. What it has taken up and what is left
/// never exceed that number together.
pub proof fn run_is_bounded(
    target: Seq<char>,
    request: InboundRequestView,
    events: Seq<EventView>,
)
    ensures
        ({
            let (end, actions) = run(target, initial(request), events);
            taken_up(actions) + steps_left(end) <= 2 * RETRY_COUNT + 1
        }),
    decreases events.len(),
{
    if events.len() > 0 {
        let shorter = events.drop_last();
        run_is_bounded(target, request, shorter);
        run_stays_well_formed(target, request, shorter);
        let (mid, before) = run(target, initial(request), shorter);
        step_makes_progress(target, mid, events.last());
        lemma_taken_up_push(before, step(target, mid, events.last()).1);
    } else {
        assert(taken_up(Seq::<ActionView>::empty()) == 0);
    }
}

/// A run sends at most [`RETRY_COUNT`] requests to the origin. While it still waits for the
/// inbound body, for the origin or for the pause to end, the attempts made and those left
/// are exactly that many; and the gateway error is given only when all of them were made.
pub proof fn attempts_are_bounded(
    target: Seq<char>,
    request: InboundRequestView,
    events: Seq<EventView>,
)
    ensures
        ({
            let (end, actions) = run(target, initial(request), events);
            &&& attempts(actions) + attempts_left(end) <= RETRY_COUNT
            &&& (end is ReadingInboundBody || end is Attempting || end is TransportFailed)
                ==> attempts(actions) + attempts_left(end) == RETRY_COUNT
            &&& end == (StateView::Failed { status: STATUS_BAD_GATEWAY }) ==> attempts(actions)
                == RETRY_COUNT
        }),
    decreases events.len(),
{
    if events.len() > 0 {
        let shorter = events.drop_last();
        attempts_are_bounded(target, request, shorter);
        run_stays_well_formed(target, request, shorter);
        let (mid, before) = run(target, initial(request), shorter);
        step_makes_progress(target, mid, events.last());
        lemma_attempts_push(before, step(target, mid, events.last()).1);
    } else {
        assert(attempts(Seq::<ActionView>::empty()) == 0);
    }
}

/// While a state may still lead to an attempt, it holds the inbound request unchanged, and
/// the inbound body once it was read.
pub open spec fn holds_request(
    state: StateView,
    request: InboundRequestView,
    body: Option<Seq<u8>>,
) -> bool {
    match state {
        StateView::ReadingInboundBody { request: r } => r == request && body is None,
        StateView::Attempting { request: r, body: b, .. } => r == request && body == Some(b),
        StateView::TransportFailed { request: r, body: b, .. } => r == request && body == Some(
            b,
        ),
        _ => true,
    }
}

/// Every attempt of a run makes the same request: the inbound method, the origin followed
/// by the inbound path and query, the inbound headers without the host entries, and the
/// inbound body as it was read. A retry changes nothing of it.
pub proof fn every_attempt_makes_the_same_request(
    target: Seq<char>,
    request: InboundRequestView,
    events: Seq<EventView>,
)
    ensures
        ({
            let (end, actions) = run(target, initial(request), events);
            &&& holds_request(end, request, inbound_body(events))
            &&& forall|i: int|
                0 <= i < actions.len() && actions[i] is Send ==> {
                    &&& inbound_body(events) is Some
                    &&& actions[i]->request == outbound(target, request, inbound_body(events)->0)
                }
        }),
    decreases events.len(),
{
    lemma_run_len(target, initial(request), events);
    if events.len() > 0 {
        let shorter = events.drop_last();
        every_attempt_makes_the_same_request(target, request, shorter);
        lemma_run_len(target, initial(request), shorter);
        let (mid, before) = run(target, initial(request), shorter);
        let (end, actions) = run(target, initial(request), events);
        assert(actions == before.push(step(target, mid, events.last()).1));
        assert(forall|i: int| 0 <= i < before.len() ==> actions[i] == before[i]);
    }
}

/// Filtering the headers takes out the host entries and nothing else: what is left holds no
/// host entry, every other entry is still there, a list without host entries is left as it
/// is, and filtering twice is filtering once.
pub proof fn forwarding_drops_host_only(headers: Seq<HeaderView>)
    ensures
        forall|i: int|
            0 <= i < forwarded(headers).len() ==> !names_host(#[trigger] forwarded(headers)[i].name),
        forall|i: int|
            0 <= i < headers.len() && !names_host(headers[i].name) ==> forwarded(headers).contains(
                #[trigger] headers[i],
            ),
        (forall|i: int| 0 <= i < headers.len() ==> !names_host(#[trigger] headers[i].name))
            ==> forwarded(headers) == headers,
        forwarded(forwarded(headers)) == forwarded(headers),
    decreases headers.len(),
{
    let keep = |h: HeaderView| !names_host(h.name);
    assert forall|i: int| 0 <= i < forwarded(headers).len() implies !names_host(
        #[trigger] forwarded(headers)[i].name,
    ) by {
        headers.lemma_filter_pred(keep, i);
    }
    assert forall|i: int|
        0 <= i < headers.len() && !names_host(headers[i].name) implies forwarded(headers).contains(
        #[trigger] headers[i],
    ) by {
        headers.lemma_filter_contains(keep, i);
    }
    if headers.len() == 0 {
        assert(forwarded(headers) == headers) by {
            reveal(Seq::filter);
        }
    } else {
        let shorter = headers.drop_last();
        let last = headers.last();
        forwarding_drops_host_only(shorter);
        assert(headers == shorter.push(last));
        lemma_forwarded_push(shorter, last);
        lemma_forwarded_push(forwarded(shorter), last);
        if (forall|i: int| 0 <= i < headers.len() ==> !names_host(#[trigger] headers[i].name)) {
            assert(forall|i: int|
                0 <= i < shorter.len() ==> !names_host(#[trigger] shorter[i].name)) by {
                assert(forall|i: int| 0 <= i < shorter.len() ==> shorter[i] == headers[i]);
            }
            assert(!names_host(headers[headers.len() - 1].name));
        }
    }
}

/// Filtering keeps the order: the filtered entries of one list come before those of the
/// list that follows it.
pub proof fn forwarding_keeps_order(first: Seq<HeaderView>, second: Seq<HeaderView>)
    ensures
        forwarded(first + second) == forwarded(first) + forwarded(second),
{
    Seq::filter_distributes_over_add(first, second, |h: HeaderView| !names_host(h.name));
}

/// Once a response has been given, every event is ignored: the state stays, nothing is
/// sent, and no other response follows.
pub proof fn final_state_ignores_everything(
    target: Seq<char>,
    state: StateView,
    events: Seq<EventView>,
)
    requires
        is_final(state),
    ensures
        run(target, state, events) == (
            state,
            Seq::new(events.len(), |i: int| ActionView::Ignored),
        ),
        attempts(run(target, state, events).1) == 0,
    decreases events.len(),
{
    if events.len() == 0 {
        assert(Seq::new(events.len(), |i: int| ActionView::Ignored) == Seq::<ActionView>::empty());
        assert(attempts(Seq::<ActionView>::empty()) == 0);
    } else {
        final_state_ignores_everything(target, state, events.drop_last());
        let before = run(target, state, events.drop_last());
        lemma_attempts_push(before.1, ActionView::Ignored);
        assert(before.1.push(ActionView::Ignored) == Seq::new(
            events.len(),
            |i: int| ActionView::Ignored,
        ));
    }
}

/// Where the first two attempts fail and the third is answered, the run makes exactly three
/// attempts, each with the same request and so the same body, pauses for
/// [`RETRY_BACKOFF_MILLIS`] after each failure, and hands on the origin's answer.
pub proof fn third_attempt_succeeds(
    target: Seq<char>,
    request: InboundRequestView,
    body: Seq<u8>,
    first_failure: Seq<char>,
    second_failure: Seq<char>,
    response: UpstreamResponseView,
    answer: Seq<u8>,
)
    ensures
        ({
            let attempt = ActionView::Send { request: outbound(target, request, body) };
            let pause = ActionView::Wait { millis: RETRY_BACKOFF_MILLIS };
            let (end, actions) = run(
                target,
                initial(request),
                seq![
                    EventView::InboundBodyRead { body },
                    EventView::TransportFailed { description: first_failure },
                    EventView::BackoffElapsed,
                    EventView::TransportFailed { description: second_failure },
                    EventView::BackoffElapsed,
                    EventView::UpstreamAnswered { response },
                    EventView::UpstreamBodyRead { body: answer },
                ],
            );
            &&& end == StateView::Responded
            &&& actions == seq![
                attempt,
                pause,
                attempt,
                pause,
                attempt,
                ActionView::ReadUpstreamBody,
                ActionView::Respond { response: relayed(response, answer) },
            ]
            &&& attempts(actions) == 3
        }),
{
    let start = initial(request);
    let e0 = Seq::<EventView>::empty();
    let e1 = e0.push(EventView::InboundBodyRead { body });
    let e2 = e1.push(EventView::TransportFailed { description: first_failure });
    let e3 = e2.push(EventView::BackoffElapsed);
    let e4 = e3.push(EventView::TransportFailed { description: second_failure });
    let e5 = e4.push(EventView::BackoffElapsed);
    let e6 = e5.push(EventView::UpstreamAnswered { response });
    let e7 = e6.push(EventView::UpstreamBodyRead { body: answer });
    lemma_run_push(target, start, e0, EventView::InboundBodyRead { body });
    lemma_run_push(target, start, e1, EventView::TransportFailed { description: first_failure });
    lemma_run_push(target, start, e2, EventView::BackoffElapsed);
    lemma_run_push(target, start, e3, EventView::TransportFailed { description: second_failure });
    lemma_run_push(target, start, e4, EventView::BackoffElapsed);
    lemma_run_push(target, start, e5, EventView::UpstreamAnswered { response });
    lemma_run_push(target, start, e6, EventView::UpstreamBodyRead { body: answer });
    lemma_attempts_push(run(target, start, e0).1, run(target, start, e1).1.last());
    lemma_attempts_push(run(target, start, e1).1, run(target, start, e2).1.last());
    lemma_attempts_push(run(target, start, e2).1, run(target, start, e3).1.last());
    lemma_attempts_push(run(target, start, e3).1, run(target, start, e4).1.last());
    lemma_attempts_push(run(target, start, e4).1, run(target, start, e5).1.last());
    lemma_attempts_push(run(target, start, e5).1, run(target, start, e6).1.last());
    lemma_attempts_push(run(target, start, e6).1, run(target, start, e7).1.last());
    assert(attempts(Seq::<ActionView>::empty()) == 0);
    assert(e7 == seq![
        EventView::InboundBodyRead { body },
        EventView::TransportFailed { description: first_failure },
        EventView::BackoffElapsed,
        EventView::TransportFailed { description: second_failure },
        EventView::BackoffElapsed,
        EventView::UpstreamAnswered { response },
        EventView::UpstreamBodyRead { body: answer },
    ]);
    let attempt = ActionView::Send { request: outbound(target, request, body) };
    let pause = ActionView::Wait { millis: RETRY_BACKOFF_MILLIS };
    assert(run(target, start, e7).1 == seq![
        attempt,
        pause,
        attempt,
        pause,
        attempt,
        ActionView::ReadUpstreamBody,
        ActionView::Respond { response: relayed(response, answer) },
    ]);
}

/// Where every attempt fails, the run makes exactly [`RETRY_COUNT`] attempts, each with the
/// same request, and then gives the gateway error: status 502, and a body that holds the
/// description of the last failure.
pub proof fn gives_up_after_last_attempt(
    target: Seq<char>,
    request: InboundRequestView,
    body: Seq<u8>,
    first_failure: Seq<char>,
    second_failure: Seq<char>,
    last_failure: Seq<char>,
)
    ensures
        ({
            let attempt = ActionView::Send { request: outbound(target, request, body) };
            let pause = ActionView::Wait { millis: RETRY_BACKOFF_MILLIS };
            let (end, actions) = run(
                target,
                initial(request),
                seq![
                    EventView::InboundBodyRead { body },
                    EventView::TransportFailed { description: first_failure },
                    EventView::BackoffElapsed,
                    EventView::TransportFailed { description: second_failure },
                    EventView::BackoffElapsed,
                    EventView::TransportFailed { description: last_failure },
                ],
            );
            &&& end == StateView::Failed { status: STATUS_BAD_GATEWAY }
            &&& actions == seq![
                attempt,
                pause,
                attempt,
                pause,
                attempt,
                ActionView::Respond { response: gateway_error(last_failure) },
            ]
            &&& attempts(actions) == RETRY_COUNT
        }),
{
    let start = initial(request);
    let e0 = Seq::<EventView>::empty();
    let e1 = e0.push(EventView::InboundBodyRead { body });
    let e2 = e1.push(EventView::TransportFailed { description: first_failure });
    let e3 = e2.push(EventView::BackoffElapsed);
    let e4 = e3.push(EventView::TransportFailed { description: second_failure });
    let e5 = e4.push(EventView::BackoffElapsed);
    let e6 = e5.push(EventView::TransportFailed { description: last_failure });
    lemma_run_push(target, start, e0, EventView::InboundBodyRead { body });
    lemma_run_push(target, start, e1, EventView::TransportFailed { description: first_failure });
    lemma_run_push(target, start, e2, EventView::BackoffElapsed);
    lemma_run_push(target, start, e3, EventView::TransportFailed { description: second_failure });
    lemma_run_push(target, start, e4, EventView::BackoffElapsed);
    lemma_run_push(target, start, e5, EventView::TransportFailed { description: last_failure });
    assert(e6 == seq![
        EventView::InboundBodyRead { body },
        EventView::TransportFailed { description: first_failure },
        EventView::BackoffElapsed,
        EventView::TransportFailed { description: second_failure },
        EventView::BackoffElapsed,
        EventView::TransportFailed { description: last_failure },
    ]);
    let attempt = ActionView::Send { request: outbound(target, request, body) };
    let pause = ActionView::Wait { millis: RETRY_BACKOFF_MILLIS };
    assert(run(target, start, e6).1 == seq![
        attempt,
        pause,
        attempt,
        pause,
        attempt,
        ActionView::Respond { response: gateway_error(last_failure) },
    ]);
    attempts_are_bounded(target, request, e6);
}

/// Where the inbound body cannot be read, the response has status 500 and is empty, and no
/// request is sent to the origin, then or later.
pub proof fn inbound_body_failure_is_final(
    target: Seq<char>,
    request: InboundRequestView,
    later: Seq<EventView>,
)
    ensures
        ({
            let (end, actions) = run(
                target,
                initial(request),
                seq![EventView::InboundBodyFailed] + later,
            );
            &&& end == StateView::Failed { status: STATUS_INTERNAL_SERVER_ERROR }
            &&& actions == seq![ActionView::Respond { response: internal_error() }] + Seq::new(
                later.len(),
                |i: int| ActionView::Ignored,
            )
            &&& attempts(actions) == 0
        }),
{
    let start = initial(request);
    let first = seq![EventView::InboundBodyFailed];
    lemma_run_push(target, start, Seq::empty(), EventView::InboundBodyFailed);
    assert(first == Seq::<EventView>::empty().push(EventView::InboundBodyFailed));
    let failed = StateView::Failed { status: STATUS_INTERNAL_SERVER_ERROR };
    assert(run(target, start, first) == (
        failed,
        seq![ActionView::Respond { response: internal_error() }],
    ));
    lemma_run_concat(target, start, first, later);
    final_state_ignores_everything(target, failed, later);
    every_attempt_makes_the_same_request(target, request, first);
    lemma_no_send_no_attempt(run(target, start, first + later).1);
}

/// A run in which no action is to send has made no attempt.
proof fn lemma_no_send_no_attempt(actions: Seq<ActionView>)
    requires
        forall|i: int| 0 <= i < actions.len() ==> !(actions[i] is Send),
    ensures
        attempts(actions) == 0,
    decreases actions.len(),
{
    if actions.len() == 0 {
        assert(attempts(actions) == 0) by {
            reveal(Seq::filter);
        }
    } else {
        lemma_no_send_no_attempt(actions.drop_last());
        assert(actions == actions.drop_last().push(actions.last()));
        lemma_attempts_push(actions.drop_last(), actions.last());
    }
}

/// Where the origin answers an attempt, whichever it is, and the body of its answer cannot
/// be read, the response has status 500 and is empty, whatever status the origin gave, and
/// no further request is sent.
pub proof fn upstream_body_failure_is_final(
    target: Seq<char>,
    request: InboundRequestView,
    body: Seq<u8>,
    remaining: u32,
    response: UpstreamResponseView,
    later: Seq<EventView>,
)
    ensures
        ({
            let (end, actions) = run(
                target,
                StateView::Attempting { request, body, remaining },
                seq![EventView::UpstreamAnswered { response }, EventView::UpstreamBodyFailed]
                    + later,
            );
            &&& end == StateView::Failed { status: STATUS_INTERNAL_SERVER_ERROR }
            &&& actions == seq![
                ActionView::ReadUpstreamBody,
                ActionView::Respond { response: internal_error() },
            ] + Seq::new(later.len(), |i: int| ActionView::Ignored)
            &&& attempts(actions) == 0
        }),
{
    let start = StateView::Attempting { request, body, remaining };
    let e0 = Seq::<EventView>::empty();
    let e1 = e0.push(EventView::UpstreamAnswered { response });
    let e2 = e1.push(EventView::UpstreamBodyFailed);
    lemma_run_push(target, start, e0, EventView::UpstreamAnswered { response });
    lemma_run_push(target, start, e1, EventView::UpstreamBodyFailed);
    let first = seq![EventView::UpstreamAnswered { response }, EventView::UpstreamBodyFailed];
    assert(first == e2);
    let failed = StateView::Failed { status: STATUS_INTERNAL_SERVER_ERROR };
    assert(run(target, start, first) == (
        failed,
        seq![ActionView::ReadUpstreamBody, ActionView::Respond { response: internal_error() }],
    ));
    lemma_run_concat(target, start, first, later);
    final_state_ignores_everything(target, failed, later);
    lemma_no_send_no_attempt(run(target, start, first + later).1);
}

/// Where the first attempt is answered, one request is sent, and the response has the
/// status, the headers and the body of the origin's answer, with nothing taken out.
pub proof fn first_attempt_relays_answer(
    target: Seq<char>,
    request: InboundRequestView,
    body: Seq<u8>,
    response: UpstreamResponseView,
    answer: Seq<u8>,
)
    ensures
        ({
            let (end, actions) = run(
                target,
                initial(request),
                seq![
                    EventView::InboundBodyRead { body },
                    EventView::UpstreamAnswered { response },
                    EventView::UpstreamBodyRead { body: answer },
                ],
            );
            &&& end == StateView::Responded
            &&& actions == seq![
                ActionView::Send { request: outbound(target, request, body) },
                ActionView::ReadUpstreamBody,
                ActionView::Respond { response: relayed(response, answer) },
            ]
            &&& actions[2]->response.status == response.status
            &&& actions[2]->response.headers == response.headers
            &&& actions[2]->response.body == answer
        }),
{
    let start = initial(request);
    let e0 = Seq::<EventView>::empty();
    let e1 = e0.push(EventView::InboundBodyRead { body });
    let e2 = e1.push(EventView::UpstreamAnswered { response });
    let e3 = e2.push(EventView::UpstreamBodyRead { body: answer });
    lemma_run_push(target, start, e0, EventView::InboundBodyRead { body });
    lemma_run_push(target, start, e1, EventView::UpstreamAnswered { response });
    lemma_run_push(target, start, e2, EventView::UpstreamBodyRead { body: answer });
    assert(e3 == seq![
        EventView::InboundBodyRead { body },
        EventView::UpstreamAnswered { response },
        EventView::UpstreamBodyRead { body: answer },
    ]);
    assert(run(target, start, e3).1 == seq![
        ActionView::Send { request: outbound(target, request, body) },
        ActionView::ReadUpstreamBody,
        ActionView::Respond { response: relayed(response, answer) },
    ]);
}

} // verus!
