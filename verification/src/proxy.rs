//! The proxy's fixed configuration and the request that it makes for each attempt.

use vstd::prelude::*;
use vstd::string::*;
use crate::header::{forward_headers, forwarded};
use crate::message::{InboundRequest, InboundRequestView, OutboundRequest, OutboundRequestView};

verus! {

/// Attempts made for one inbound request before giving up.
pub const RETRY_COUNT: u32 = 3;

/// Pause between a failed attempt and the next one, in milliseconds.
pub const RETRY_BACKOFF_MILLIS: u64 = 500;

/// How the client that talks to the origin is to be set up.
#[derive(Clone, Copy, Debug, PartialEq, Eq, Structural)]
pub struct ConnectionPolicy {
    /// Send small writes at once.
    pub nodelay: bool,
    /// Refuse an origin whose scheme is not plain `http`.
    pub enforce_http: bool,
    /// Seconds between keep-alive probes on a connection.
    pub keep_alive_secs: u64,
    /// Seconds after which an attempt to connect is given up.
    pub connect_timeout_secs: u64,
    /// Let sockets reuse a local address.
    pub reuse_address: bool,
    /// Seconds after which an idle connection leaves the pool.
    pub pool_idle_timeout_secs: u64,
    /// Idle connections kept for one host.
    pub pool_max_idle_per_host: usize,
    /// Send again, inside the client, a request that was canceled before it left.
    pub retry_canceled_requests: bool,
    /// Let the client set the `Host` header to the origin's.
    pub set_host: bool,
}

/// The policy that every proxy uses.
pub open spec fn standard_policy() -> ConnectionPolicy {
    ConnectionPolicy {
        nodelay: true,
        enforce_http: false,
        keep_alive_secs: 60,
        connect_timeout_secs: 10,
        reuse_address: true,
        pool_idle_timeout_secs: 60,
        pool_max_idle_per_host: 32,
        retry_canceled_requests: true,
        set_host: true,
    }
}

/// Where an inbound request is sent: the origin followed by the request's path and query,
/// or the origin alone where the request has none.
pub open spec fn outbound_uri(target: Seq<char>, path_and_query: Option<Seq<char>>) -> Seq<char> {
    match path_and_query {
        Some(p) => target + p,
        None => target,
    }
}

/// The request of one attempt: the inbound method, the rewritten URI, the inbound headers
/// without the host entries, and the buffered body.
pub open spec fn outbound(
    target: Seq<char>,
    request: InboundRequestView,
    body: Seq<u8>,
) -> OutboundRequestView {
    OutboundRequestView {
        method: request.method,
        uri: outbound_uri(target, request.path_and_query),
        headers: forwarded(request.headers),
        body,
    }
}

/// A reverse proxy in front of one origin.
#[derive(Debug, PartialEq, Eq)]
pub struct ReverseProxy {
    target: String,
}

impl View for ReverseProxy {
    type V = Seq<char>;

    /// The origin: scheme, host and port, as given at construction.
    closed spec fn view(&self) -> Seq<char> {
        self.target@
    }
}

impl Clone for ReverseProxy {
    fn clone(&self) -> (copy: ReverseProxy)
        ensures
            copy@ == self@,
    {
        ReverseProxy { target: self.target.clone() }
    }
}

impl ReverseProxy {
    /// A proxy in front of the origin `target`.
    pub fn new(target: &str) -> (proxy: ReverseProxy)
        ensures
            proxy@ == target@,
    {
        ReverseProxy { target: String::from_str(target) }
    }

    /// The origin that requests are sent to.
    pub fn target(&self) -> (target: &str)
        ensures
            target@ == self@,
    {
        self.target.as_str()
    }

    /// The setup of the client that talks to the origin.
    pub fn connection_policy(&self) -> (policy: ConnectionPolicy)
        ensures
            policy == standard_policy(),
    {
        ConnectionPolicy {
            nodelay: true,
            enforce_http: false,
            keep_alive_secs: 60,
            connect_timeout_secs: 10,
            reuse_address: true,
            pool_idle_timeout_secs: 60,
            pool_max_idle_per_host: 32,
            retry_canceled_requests: true,
            set_host: true,
        }
    }

    /// The URI of the outbound request for an inbound path and query.
    pub fn outbound_uri(&self, path_and_query: &Option<String>) -> (uri: String)
        ensures
            uri@ == outbound_uri(
                self@,
                match *path_and_query {
                    Some(p) => Some(p@),
                    None => None,
                },
            ),
    {
        let mut uri = self.target.clone();
        match path_and_query {
            Some(p) => {
                uri.append(p.as_str());
            },
            None => {},
        }
        uri
    }

    /// Makes the request of one attempt. Each call gives a new value with its own copy of
    /// the body, so that the same request can be made again after a failure.
    pub fn outbound(&self, request: &InboundRequest, body: &Vec<u8>) -> (out: OutboundRequest)
        ensures
            out@ == outbound(self@, request@, body@),
    {
        OutboundRequest {
            method: request.method.clone(),
            uri: self.outbound_uri(&request.path_and_query),
            headers: forward_headers(&request.headers),
            body: body.clone(),
        }
    }
}

} // verus!
