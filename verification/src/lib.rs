//! A single-target HTTP reverse proxy, as a state machine over plain values.
//!
//! [`ReverseProxy`] stands in front of one origin. For each inbound request it is driven
//! through [`ReverseProxy::start`] and [`ReverseProxy::step`]: the driver reads bodies, sends
//! requests and waits as the engine asks, and reports what happened. The engine decides what
//! is sent, when an attempt is made again, and what the caller gets in the end.

pub mod engine;
pub mod header;
pub mod laws;
pub mod message;
pub mod proxy;
pub mod trace;

pub use engine::{Action, Event, State};
pub use header::Header;
pub use message::{InboundRequest, OutboundRequest, ProxyResponse, UpstreamResponse};
pub use proxy::{ConnectionPolicy, ReverseProxy};
