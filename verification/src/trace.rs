//! Runs of the engine over a sequence of events, and the measures that the laws speak of.

use vstd::prelude::*;
use crate::engine::{step, ActionView, EventView, StateView};
use crate::proxy::RETRY_COUNT;

verus! {

/// The engine run from `state` over `events`, one after the other: the state it ends in,
/// and the action that it asked for at each event.
pub open spec fn run(target: Seq<char>, state: StateView, events: Seq<EventView>) -> (
    StateView,
    Seq<ActionView>,
)
    decreases events.len(),
{
    if events.len() == 0 {
        (state, Seq::empty())
    } else {
        let before = run(target, state, events.drop_last());
        let last = step(target, before.0, events.last());
        (last.0, before.1.push(last.1))
    }
}

/// The counter of a state that holds one is within the limits of the retry loop.
pub open spec fn well_formed(state: StateView) -> bool {
    match state {
        StateView::Attempting { remaining, .. } => 1 <= remaining <= RETRY_COUNT,
        StateView::TransportFailed { remaining, .. } => 1 <= remaining < RETRY_COUNT,
        _ => true,
    }
}

/// The most events that a state can still take up before a response is given.
pub open spec fn steps_left(state: StateView) -> nat {
    match state {
        StateView::ReadingInboundBody { .. } => 2 * (RETRY_COUNT as nat) + 1,
        StateView::Attempting { remaining, .. } => 2 * (remaining as nat),
        StateView::TransportFailed { remaining, .. } => 2 * (remaining as nat) + 1,
        StateView::ReadingUpstreamBody { .. } => 1,
        StateView::Responded => 0,
        StateView::Failed { .. } => 0,
    }
}

/// The attempts that may still be started from a state.
pub open spec fn attempts_left(state: StateView) -> nat {
    match state {
        StateView::ReadingInboundBody { .. } => RETRY_COUNT as nat,
        StateView::Attempting { remaining, .. } => if remaining >= 1 {
            (remaining - 1) as nat
        } else {
            0
        },
        StateView::TransportFailed { remaining, .. } => remaining as nat,
        _ => 0,
    }
}

/// The number of requests that a run sent to the origin.
pub open spec fn attempts(actions: Seq<ActionView>) -> nat {
    actions.filter(|a: ActionView| a is Send).len()
}

/// The number of events that a run took up.
pub open spec fn taken_up(actions: Seq<ActionView>) -> nat {
    actions.filter(|a: ActionView| !(a is Ignored)).len()
}

/// The inbound body of a run: that of the first event that brings one.
pub open spec fn inbound_body(events: Seq<EventView>) -> Option<Seq<u8>>
    decreases events.len(),
{
    if events.len() == 0 {
        None
    } else {
        match inbound_body(events.drop_last()) {
            Some(body) => Some(body),
            None => match events.last() {
                EventView::InboundBodyRead { body } => Some(body),
                _ => None,
            },
        }
    }
}

/// A run over one more event is the run so far and one step.
pub proof fn lemma_run_push(
    target: Seq<char>,
    state: StateView,
    events: Seq<EventView>,
    event: EventView,
)
    ensures
        run(target, state, events.push(event)) == ({
            let before = run(target, state, events);
            let last = step(target, before.0, event);
            (last.0, before.1.push(last.1))
        }),
{
    assert(events.push(event).drop_last() == events);
}

/// A run over two sequences of events, one after the other, is the run over the first
/// followed by the run over the second from where the first ended.
pub proof fn lemma_run_concat(
    target: Seq<char>,
    state: StateView,
    first: Seq<EventView>,
    second: Seq<EventView>,
)
    ensures
        run(target, state, first + second) == ({
            let before = run(target, state, first);
            let after = run(target, before.0, second);
            (after.0, before.1 + after.1)
        }),
    decreases second.len(),
{
    let before = run(target, state, first);
    if second.len() == 0 {
        assert(first + second == first);
        assert(before.1 + Seq::<ActionView>::empty() == before.1);
    } else {
        lemma_run_concat(target, state, first, second.drop_last());
        assert((first + second).drop_last() == first + second.drop_last());
        let shorter = run(target, before.0, second.drop_last());
        let last = step(target, shorter.0, second.last());
        assert((before.1 + shorter.1).push(last.1) == before.1 + shorter.1.push(last.1));
    }
}

/// A run asks for one action at each event.
pub proof fn lemma_run_len(target: Seq<char>, state: StateView, events: Seq<EventView>)
    ensures
        run(target, state, events).1.len() == events.len(),
    decreases events.len(),
{
    if events.len() > 0 {
        lemma_run_len(target, state, events.drop_last());
    }
}

/// Counting the attempts of a run, one more action at a time.
pub proof fn lemma_attempts_push(actions: Seq<ActionView>, action: ActionView)
    ensures
        attempts(actions.push(action)) == attempts(actions) + if action is Send {
            1nat
        } else {
            0nat
        },
{
    reveal(Seq::filter);
    assert(actions.push(action).drop_last() == actions);
}

/// Counting the events that a run took up, one more action at a time.
pub proof fn lemma_taken_up_push(actions: Seq<ActionView>, action: ActionView)
    ensures
        taken_up(actions.push(action)) == taken_up(actions) + if action is Ignored {
            0nat
        } else {
            1nat
        },
{
    reveal(Seq::filter);
    assert(actions.push(action).drop_last() == actions);
}

} // verus!
