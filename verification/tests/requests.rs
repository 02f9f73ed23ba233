use reverse_proxy::message::{STATUS_BAD_GATEWAY, STATUS_INTERNAL_SERVER_ERROR};
use reverse_proxy::proxy::{RETRY_BACKOFF_MILLIS, RETRY_COUNT};
use reverse_proxy::{
    ConnectionPolicy, Header, InboundRequest, ProxyResponse, ReverseProxy, UpstreamResponse,
};

fn entry(name: &str, value: &str) -> Header {
    Header::new(name, value.as_bytes())
}

fn get(path_and_query: Option<&str>, headers: Vec<Header>) -> InboundRequest {
    InboundRequest {
        method: "GET".to_string(),
        path_and_query: path_and_query.map(|p| p.to_string()),
        headers,
    }
}

#[test]
fn retry_constants() {
    assert_eq!(RETRY_COUNT, 3);
    assert_eq!(RETRY_BACKOFF_MILLIS, 500);
}

#[test]
fn status_constants() {
    assert_eq!(STATUS_INTERNAL_SERVER_ERROR, 500);
    assert_eq!(STATUS_BAD_GATEWAY, 502);
}

#[test]
fn new_keeps_the_target() {
    let proxy = ReverseProxy::new("http://example.test");
    assert_eq!(proxy.target(), "http://example.test");
}

#[test]
fn new_does_not_hand_back_another_target() {
    let a = ReverseProxy::new("http://a.test:8080");
    let b = ReverseProxy::new("http://b.test");
    assert_eq!(a.target(), "http://a.test:8080");
    assert_eq!(b.target(), "http://b.test");
    assert_ne!(a, b);
}

#[test]
fn clone_keeps_the_target() {
    let proxy = ReverseProxy::new("http://example.test:3000");
    let copy = proxy.clone();
    assert_eq!(copy.target(), "http://example.test:3000");
    assert_eq!(copy, proxy);
}

#[test]
fn connection_policy_is_the_standard_one() {
    let policy = ReverseProxy::new("http://example.test").connection_policy();
    assert_eq!(
        policy,
        ConnectionPolicy {
            nodelay: true,
            enforce_http: false,
            keep_alive_secs: 60,
            connect_timeout_secs: 10,
            reuse_address: true,
            pool_idle_timeout_secs: 60,
            pool_max_idle_per_host: 32,
            retry_canceled_requests: true,
            set_host: true,
        }
    );
}

#[test]
fn outbound_uri_appends_path_and_query() {
    let proxy = ReverseProxy::new("http://example.test");
    assert_eq!(
        proxy.outbound_uri(&Some("/foo?x=1".to_string())),
        "http://example.test/foo?x=1"
    );
}

#[test]
fn outbound_uri_without_path_is_the_target() {
    let proxy = ReverseProxy::new("http://example.test");
    assert_eq!(proxy.outbound_uri(&None), "http://example.test");
}

#[test]
fn outbound_uri_with_empty_path_is_the_target() {
    let proxy = ReverseProxy::new("http://example.test:8080");
    assert_eq!(proxy.outbound_uri(&Some(String::new())), "http://example.test:8080");
}

#[test]
fn outbound_uri_inserts_no_slash() {
    let proxy = ReverseProxy::new("http://example.test/base");
    assert_eq!(proxy.outbound_uri(&Some("?q=1".to_string())), "http://example.test/base?q=1");
    assert_eq!(proxy.outbound_uri(&Some("/".to_string())), "http://example.test/base/");
}

#[test]
fn outbound_uri_keeps_characters_outside_ascii() {
    let proxy = ReverseProxy::new("http://example.test");
    assert_eq!(
        proxy.outbound_uri(&Some("/caf\u{e9}".to_string())),
        "http://example.test/caf\u{e9}"
    );
}

#[test]
fn outbound_round_trip_request() {
    let proxy = ReverseProxy::new("http://example.test");
    let request = get(Some("/foo?x=1"), vec![entry("X-Test", "a")]);
    let out = proxy.outbound(&request, &vec![]);
    assert_eq!(out.method, "GET");
    assert_eq!(out.uri, "http://example.test/foo?x=1");
    assert_eq!(out.headers, vec![entry("X-Test", "a")]);
    assert_eq!(out.body, Vec::<u8>::new());
}

#[test]
fn outbound_drops_host_and_copies_the_body() {
    let proxy = ReverseProxy::new("http://origin.test:9000");
    let request = InboundRequest {
        method: "POST".to_string(),
        path_and_query: Some("/submit".to_string()),
        headers: vec![
            entry("Host", "public.test"),
            entry("content-type", "text/plain"),
            entry("x-a", "1"),
            entry("x-a", "2"),
        ],
    };
    let body = b"hello".to_vec();
    let out = proxy.outbound(&request, &body);
    assert_eq!(out.method, "POST");
    assert_eq!(out.uri, "http://origin.test:9000/submit");
    assert_eq!(
        out.headers,
        vec![entry("content-type", "text/plain"), entry("x-a", "1"), entry("x-a", "2")]
    );
    assert_eq!(out.body, b"hello".to_vec());
    // The inbound request and the buffered body are left as they were.
    assert_eq!(request.headers.len(), 4);
    assert_eq!(body, b"hello".to_vec());
}

#[test]
fn outbound_is_the_same_each_time() {
    let proxy = ReverseProxy::new("http://example.test");
    let request = get(Some("/a"), vec![entry("host", "h"), entry("b", "c")]);
    let body = vec![0u8, 1, 2];
    assert_eq!(proxy.outbound(&request, &body), proxy.outbound(&request, &body));
}

#[test]
fn internal_error_response_is_empty() {
    let response = ProxyResponse::internal_error();
    assert_eq!(response.status, 500);
    assert_eq!(response.headers, Vec::<Header>::new());
    assert_eq!(response.body, Vec::<u8>::new());
}

#[test]
fn gateway_error_response_describes_the_failure() {
    let response = ProxyResponse::gateway_error("connection refused");
    assert_eq!(response.status, 502);
    assert_eq!(response.headers, Vec::<Header>::new());
    assert_eq!(
        response.body,
        b"Failed to connect to upstream server: connection refused".to_vec()
    );
}

#[test]
fn gateway_error_response_with_empty_description() {
    let response = ProxyResponse::gateway_error("");
    assert_eq!(response.body, b"Failed to connect to upstream server: ".to_vec());
}

#[test]
fn gateway_error_response_encodes_text_as_utf8() {
    let response = ProxyResponse::gateway_error("d\u{e9}lai");
    assert_eq!(
        response.body,
        "Failed to connect to upstream server: d\u{e9}lai".as_bytes().to_vec()
    );
}

#[test]
fn relay_hands_on_status_headers_and_body() {
    let answer = UpstreamResponse {
        status: 404,
        headers: vec![entry("Host", "kept"), entry("set-cookie", "a"), entry("set-cookie", "b")],
    };
    let response = ProxyResponse::relay(answer, b"not here".to_vec());
    assert_eq!(response.status, 404);
    assert_eq!(
        response.headers,
        vec![entry("Host", "kept"), entry("set-cookie", "a"), entry("set-cookie", "b")]
    );
    assert_eq!(response.body, b"not here".to_vec());
}
