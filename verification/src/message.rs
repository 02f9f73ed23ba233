//! The requests and responses that pass through the proxy, as plain values.

use vstd::prelude::*;
use crate::header::{header_views, Header, HeaderView};

verus! {

/// Status of the response that is given when a body cannot be read.
pub const STATUS_INTERNAL_SERVER_ERROR: u16 = 500;

/// Status of the response that is given when every attempt has failed.
pub const STATUS_BAD_GATEWAY: u16 = 502;

/// A request as it comes in, before its body has been read.
#[derive(Debug, PartialEq, Eq)]
pub struct InboundRequest {
    pub method: String,
    /// Path and query of the request's URI, where it has any.
    pub path_and_query: Option<String>,
    pub headers: Vec<Header>,
}

pub struct InboundRequestView {
    pub method: Seq<char>,
    pub path_and_query: Option<Seq<char>>,
    pub headers: Seq<HeaderView>,
}

impl View for InboundRequest {
    type V = InboundRequestView;

    open spec fn view(&self) -> InboundRequestView {
        InboundRequestView {
            method: self.method@,
            path_and_query: match self.path_and_query {
                Some(p) => Some(p@),
                None => None,
            },
            headers: header_views(self.headers@),
        }
    }
}

/// A request as it is sent to the origin: one is made for each attempt.
#[derive(Debug, PartialEq, Eq)]
pub struct OutboundRequest {
    pub method: String,
    pub uri: String,
    pub headers: Vec<Header>,
    pub body: Vec<u8>,
}

pub struct OutboundRequestView {
    pub method: Seq<char>,
    pub uri: Seq<char>,
    pub headers: Seq<HeaderView>,
    pub body: Seq<u8>,
}

impl View for OutboundRequest {
    type V = OutboundRequestView;

    open spec fn view(&self) -> OutboundRequestView {
        OutboundRequestView {
            method: self.method@,
            uri: self.uri@,
            headers: header_views(self.headers@),
            body: self.body@,
        }
    }
}

/// The origin's answer, before its body has been read.
#[derive(Debug, PartialEq, Eq)]
pub struct UpstreamResponse {
    pub status: u16,
    pub headers: Vec<Header>,
}

pub struct UpstreamResponseView {
    pub status: u16,
    pub headers: Seq<HeaderView>,
}

impl View for UpstreamResponse {
    type V = UpstreamResponseView;

    open spec fn view(&self) -> UpstreamResponseView {
        UpstreamResponseView { status: self.status, headers: header_views(self.headers@) }
    }
}

/// The response that the caller gets.
#[derive(Debug, PartialEq, Eq)]
pub struct ProxyResponse {
    pub status: u16,
    pub headers: Vec<Header>,
    pub body: Vec<u8>,
}

pub struct ProxyResponseView {
    pub status: u16,
    pub headers: Seq<HeaderView>,
    pub body: Seq<u8>,
}

impl View for ProxyResponse {
    type V = ProxyResponseView;

    open spec fn view(&self) -> ProxyResponseView {
        ProxyResponseView {
            status: self.status,
            headers: header_views(self.headers@),
            body: self.body@,
        }
    }
}

/// What introduces the failure's description in the body of a gateway error.
pub open spec fn gateway_error_prefix() -> Seq<char> {
    "Failed to connect to upstream server: "@
}

/// The response to a body that could not be read: status 500, no header, no body.
pub open spec fn internal_error() -> ProxyResponseView {
    ProxyResponseView {
        status: STATUS_INTERNAL_SERVER_ERROR,
        headers: Seq::empty(),
        body: Seq::empty(),
    }
}

/// The response to a last failed attempt: status 502, no header, and as body the text
/// of the prefix followed by the failure's description.
pub open spec fn gateway_error(description: Seq<char>) -> ProxyResponseView {
    ProxyResponseView {
        status: STATUS_BAD_GATEWAY,
        headers: Seq::empty(),
        body: vstd::utf8::encode_utf8(gateway_error_prefix() + description),
    }
}

/// The response to an answer of the origin: its status, its headers and its body, as they are.
pub open spec fn relayed(response: UpstreamResponseView, body: Seq<u8>) -> ProxyResponseView {
    ProxyResponseView { status: response.status, headers: response.headers, body }
}

impl ProxyResponse {
    /// The response with status 500 and nothing else.
    pub fn internal_error() -> (response: ProxyResponse)
        ensures
            response@ == internal_error(),
    {
        let headers: Vec<Header> = Vec::new();
        assert(header_views(headers@) == Seq::<HeaderView>::empty());
        ProxyResponse { status: STATUS_INTERNAL_SERVER_ERROR, headers, body: Vec::new() }
    }

    /// The response with status 502 whose body describes the failure.
    pub fn gateway_error(description: &str) -> (response: ProxyResponse)
        ensures
            response@ == gateway_error(description@),
    {
        let text = String::from_str("Failed to connect to upstream server: ").concat(description);
        let headers: Vec<Header> = Vec::new();
        assert(header_views(headers@) == Seq::<HeaderView>::empty());
        ProxyResponse { status: STATUS_BAD_GATEWAY, headers, body: text.as_str().as_bytes_vec() }
    }

    /// The response that hands on what the origin answered.
    pub fn relay(response: UpstreamResponse, body: Vec<u8>) -> (out: ProxyResponse)
        ensures
            out@ == relayed(response@, body@),
    {
        ProxyResponse { status: response.status, headers: response.headers, body }
    }
}

} // verus!
