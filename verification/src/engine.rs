//! The forwarding engine: what the proxy does with one inbound request, step by step.
//!
//! The engine does no work of its own on the network. It is a function from a state and an
//! event to the next state and an action. Whoever drives it performs the action and hands
//! back what came of it as the next event, until the action is to respond.

use vstd::prelude::*;
use crate::message::{
    gateway_error, internal_error, relayed, InboundRequest, InboundRequestView, OutboundRequest,
    OutboundRequestView, ProxyResponse, ProxyResponseView, UpstreamResponse, UpstreamResponseView,
    STATUS_BAD_GATEWAY, STATUS_INTERNAL_SERVER_ERROR,
};
use crate::proxy::{outbound, ReverseProxy, RETRY_BACKOFF_MILLIS, RETRY_COUNT};

verus! {

/// Where the handling of one inbound request stands.
#[derive(Debug, PartialEq, Eq)]
pub enum State {
    /// The inbound body is being read.
    ReadingInboundBody { request: InboundRequest },
    /// A request is with the origin. `remaining` counts this attempt and those that may follow.
    Attempting { request: InboundRequest, body: Vec<u8>, remaining: u32 },
    /// An attempt failed and the pause before the next one runs. `remaining` counts the
    /// attempts that are still to be made.
    TransportFailed { request: InboundRequest, body: Vec<u8>, remaining: u32 },
    /// The origin answered and the body of its answer is being read.
    ReadingUpstreamBody { response: UpstreamResponse },
    /// The origin's answer was handed on.
    Responded,
    /// An error response was given.
    Failed { status: u16 },
}

pub enum StateView {
    ReadingInboundBody { request: InboundRequestView },
    Attempting { request: InboundRequestView, body: Seq<u8>, remaining: u32 },
    TransportFailed { request: InboundRequestView, body: Seq<u8>, remaining: u32 },
    ReadingUpstreamBody { response: UpstreamResponseView },
    Responded,
    Failed { status: u16 },
}

impl View for State {
    type V = StateView;

    open spec fn view(&self) -> StateView {
        match *self {
            State::ReadingInboundBody { request } => StateView::ReadingInboundBody {
                request: request@,
            },
            State::Attempting { request, body, remaining } => StateView::Attempting {
                request: request@,
                body: body@,
                remaining,
            },
            State::TransportFailed { request, body, remaining } => StateView::TransportFailed {
                request: request@,
                body: body@,
                remaining,
            },
            State::ReadingUpstreamBody { response } => StateView::ReadingUpstreamBody {
                response: response@,
            },
            State::Responded => StateView::Responded,
            State::Failed { status } => StateView::Failed { status },
        }
    }
}

/// What came of the action that the engine asked for.
#[derive(Debug, PartialEq, Eq)]
pub enum Event {
    /// The inbound body was read to its end.
    InboundBodyRead { body: Vec<u8> },
    /// Reading the inbound body failed.
    InboundBodyFailed,
    /// The origin answered the request.
    UpstreamAnswered { response: UpstreamResponse },
    /// The request did not get through: no connection, a timeout, a reset.
    TransportFailed { description: String },
    /// The pause between two attempts is over.
    BackoffElapsed,
    /// The body of the origin's answer was read to its end.
    UpstreamBodyRead { body: Vec<u8> },
    /// Reading the body of the origin's answer failed.
    UpstreamBodyFailed,
}

pub enum EventView {
    InboundBodyRead { body: Seq<u8> },
    InboundBodyFailed,
    UpstreamAnswered { response: UpstreamResponseView },
    TransportFailed { description: Seq<char> },
    BackoffElapsed,
    UpstreamBodyRead { body: Seq<u8> },
    UpstreamBodyFailed,
}

impl View for Event {
    type V = EventView;

    open spec fn view(&self) -> EventView {
        match *self {
            Event::InboundBodyRead { body } => EventView::InboundBodyRead { body: body@ },
            Event::InboundBodyFailed => EventView::InboundBodyFailed,
            Event::UpstreamAnswered { response } => EventView::UpstreamAnswered {
                response: response@,
            },
            Event::TransportFailed { description } => EventView::TransportFailed {
                description: description@,
            },
            Event::BackoffElapsed => EventView::BackoffElapsed,
            Event::UpstreamBodyRead { body } => EventView::UpstreamBodyRead { body: body@ },
            Event::UpstreamBodyFailed => EventView::UpstreamBodyFailed,
        }
    }
}

/// What the engine asks its driver to do next.
#[derive(Debug, PartialEq, Eq)]
pub enum Action {
    /// Read the inbound body to its end.
    ReadInboundBody,
    /// Send this request to the origin.
    Send { request: OutboundRequest },
    /// Let this many milliseconds pass.
    Wait { millis: u64 },
    /// Read the body of the origin's answer to its end.
    ReadUpstreamBody,
    /// Give the caller this response. Nothing follows it.
    Respond { response: ProxyResponse },
    /// Nothing: the event was not one that the state waits for, and the state has not changed.
    Ignored,
}

pub enum ActionView {
    ReadInboundBody,
    Send { request: OutboundRequestView },
    Wait { millis: u64 },
    ReadUpstreamBody,
    Respond { response: ProxyResponseView },
    Ignored,
}

impl View for Action {
    type V = ActionView;

    open spec fn view(&self) -> ActionView {
        match *self {
            Action::ReadInboundBody => ActionView::ReadInboundBody,
            Action::Send { request } => ActionView::Send { request: request@ },
            Action::Wait { millis } => ActionView::Wait { millis },
            Action::ReadUpstreamBody => ActionView::ReadUpstreamBody,
            Action::Respond { response } => ActionView::Respond { response: response@ },
            Action::Ignored => ActionView::Ignored,
        }
    }
}

/// The state in which the handling of `request` begins.
pub open spec fn initial(request: InboundRequestView) -> StateView {
    StateView::ReadingInboundBody { request }
}

/// A state is final when a response has been given.
pub open spec fn is_final(state: StateView) -> bool {
    state is Responded || state is Failed
}

/// The events that a state waits for.
pub open spec fn awaits(state: StateView, event: EventView) -> bool {
    match state {
        StateView::ReadingInboundBody { .. } => event is InboundBodyRead
            || event is InboundBodyFailed,
        StateView::Attempting { .. } => event is UpstreamAnswered || event is TransportFailed,
        StateView::TransportFailed { .. } => event is BackoffElapsed,
        StateView::ReadingUpstreamBody { .. } => event is UpstreamBodyRead
            || event is UpstreamBodyFailed,
        StateView::Responded => false,
        StateView::Failed { .. } => false,
    }
}

/// One step of the engine in front of the origin `target`.
///
/// - While the inbound body is read: a failure ends in the internal error, with no attempt
///   made; the body starts the first of [`RETRY_COUNT`] attempts.
/// - While a request is with the origin: an answer leads to reading its body; a failure of
///   the last attempt ends in the gateway error that describes it; a failure of an earlier
///   attempt starts the pause.
/// - When the pause is over, the next attempt makes the same request again.
/// - While the answer's body is read: a failure ends in the internal error, with no further
///   attempt; the body ends in the origin's answer, handed on as it is.
/// - An event that the state does not wait for changes nothing.
pub open spec fn step(target: Seq<char>, state: StateView, event: EventView) -> (
    StateView,
    ActionView,
) {
    match (state, event) {
        (StateView::ReadingInboundBody { request }, EventView::InboundBodyRead { body }) => (
            StateView::Attempting { request, body, remaining: RETRY_COUNT },
            ActionView::Send { request: outbound(target, request, body) },
        ),
        (StateView::ReadingInboundBody { .. }, EventView::InboundBodyFailed) => (
            StateView::Failed { status: STATUS_INTERNAL_SERVER_ERROR },
            ActionView::Respond { response: internal_error() },
        ),
        (StateView::Attempting { .. }, EventView::UpstreamAnswered { response }) => (
            StateView::ReadingUpstreamBody { response },
            ActionView::ReadUpstreamBody,
        ),
        (
            StateView::Attempting { request, body, remaining },
            EventView::TransportFailed { description },
        ) => if remaining <= 1 {
            (
                StateView::Failed { status: STATUS_BAD_GATEWAY },
                ActionView::Respond { response: gateway_error(description) },
            )
        } else {
            (
                StateView::TransportFailed { request, body, remaining: (remaining - 1) as u32 },
                ActionView::Wait { millis: RETRY_BACKOFF_MILLIS },
            )
        },
        (StateView::TransportFailed { request, body, remaining }, EventView::BackoffElapsed) => (
            StateView::Attempting { request, body, remaining },
            ActionView::Send { request: outbound(target, request, body) },
        ),
        (StateView::ReadingUpstreamBody { response }, EventView::UpstreamBodyRead { body }) => (
            StateView::Responded,
            ActionView::Respond { response: relayed(response, body) },
        ),
        (StateView::ReadingUpstreamBody { .. }, EventView::UpstreamBodyFailed) => (
            StateView::Failed { status: STATUS_INTERNAL_SERVER_ERROR },
            ActionView::Respond { response: internal_error() },
        ),
        _ => (state, ActionView::Ignored),
    }
}

impl State {
    /// Tells whether a response has been given.
    pub fn is_final(&self) -> (done: bool)
        ensures
            done == is_final(self@),
    {
        match self {
            State::Responded => true,
            State::Failed { .. } => true,
            _ => false,
        }
    }
}

impl ReverseProxy {
    /// Takes up an inbound request. The first thing to do is to read its body.
    pub fn start(&self, request: InboundRequest) -> (begun: (State, Action))
        ensures
            begun.0@ == initial(request@),
            begun.1@ == ActionView::ReadInboundBody,
    {
        (State::ReadingInboundBody { request }, Action::ReadInboundBody)
    }

    /// Makes one step: from the state and what came of the last action to the next state
    /// and the next action.
    pub fn step(&self, state: State, event: Event) -> (next: (State, Action))
        ensures
            (next.0@, next.1@) == step(self@, state@, event@),
    {
        match state {
            State::ReadingInboundBody { request } => match event {
                Event::InboundBodyRead { body } => {
                    let attempt = self.outbound(&request, &body);
                    (
                        State::Attempting { request, body, remaining: RETRY_COUNT },
                        Action::Send { request: attempt },
                    )
                },
                Event::InboundBodyFailed => (
                    State::Failed { status: STATUS_INTERNAL_SERVER_ERROR },
                    Action::Respond { response: ProxyResponse::internal_error() },
                ),
                _ => (State::ReadingInboundBody { request }, Action::Ignored),
            },
            State::Attempting { request, body, remaining } => match event {
                Event::UpstreamAnswered { response } => (
                    State::ReadingUpstreamBody { response },
                    Action::ReadUpstreamBody,
                ),
                Event::TransportFailed { description } => {
                    if remaining <= 1 {
                        (
                            State::Failed { status: STATUS_BAD_GATEWAY },
                            Action::Respond {
                                response: ProxyResponse::gateway_error(description.as_str()),
                            },
                        )
                    } else {
                        (
                            State::TransportFailed { request, body, remaining: remaining - 1 },
                            Action::Wait { millis: RETRY_BACKOFF_MILLIS },
                        )
                    }
                },
                _ => (State::Attempting { request, body, remaining }, Action::Ignored),
            },
            State::TransportFailed { request, body, remaining } => match event {
                Event::BackoffElapsed => {
                    let attempt = self.outbound(&request, &body);
                    (
                        State::Attempting { request, body, remaining },
                        Action::Send { request: attempt },
                    )
                },
                _ => (State::TransportFailed { request, body, remaining }, Action::Ignored),
            },
            State::ReadingUpstreamBody { response } => match event {
                Event::UpstreamBodyRead { body } => (
                    State::Responded,
                    Action::Respond { response: ProxyResponse::relay(response, body) },
                ),
                Event::UpstreamBodyFailed => (
                    State::Failed { status: STATUS_INTERNAL_SERVER_ERROR },
                    Action::Respond { response: ProxyResponse::internal_error() },
                ),
                _ => (State::ReadingUpstreamBody { response }, Action::Ignored),
            },
            State::Responded => (State::Responded, Action::Ignored),
            State::Failed { status } => (State::Failed { status }, Action::Ignored),
        }
    }
}

} // verus!
