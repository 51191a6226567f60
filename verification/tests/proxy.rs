//! What a proxy does to header fields, and its own replies.

use http::header::{HeaderMap, HeaderName, HeaderValue};
use keep_sse::config::ResolvedConfig;
use keep_sse::headers::{fits_one_more, NoRoom};
use keep_sse::proxy::{bad_gateway, strip_hop_by_hop, upstream_headers, upstream_uri};

fn config() -> ResolvedConfig {
    ResolvedConfig {
        listen: "127.0.0.1:0".to_string(),
        upstream: "http://model.test:11434".to_string(),
        upstream_authority: "model.test:11434".to_string(),
        heartbeat_interval: 60,
        connect_timeout: 10,
        shutdown_timeout: 30,
        max_probe_body: 1024,
    }
}

fn fields(pairs: &[(&'static str, &'static str)]) -> HeaderMap {
    let mut headers = HeaderMap::new();
    for (name, value) in pairs {
        headers.append(
            HeaderName::from_static(name),
            HeaderValue::from_static(value),
        );
    }
    headers
}

#[test]
fn connection_fields_are_taken_out() {
    let mut headers = fields(&[
        ("connection", "close"),
        ("keep-alive", "timeout=5"),
        ("transfer-encoding", "chunked"),
        ("te", "trailers"),
        ("trailer", "x-sum"),
        ("upgrade", "h2c"),
        ("proxy-authorization", "basic"),
        ("proxy-authenticate", "basic"),
        ("accept-encoding", "gzip, br"),
        ("set-cookie", "a=1"),
        ("set-cookie", "b=2"),
    ]);
    strip_hop_by_hop(&mut headers);
    assert_eq!(headers.keys_len(), 2);
    assert_eq!(headers["accept-encoding"], "gzip, br");
    let cookies: Vec<_> = headers.get_all("set-cookie").iter().collect();
    assert_eq!(cookies, ["a=1", "b=2"]);
}

#[test]
fn listed_fields_are_taken_out() {
    let mut headers = fields(&[
        ("connection", "Close, X-One ,, x-two"),
        ("connection", "x-three"),
        ("x-one", "1"),
        ("x-two", "2"),
        ("x-three", "3"),
        ("x-four", "4"),
    ]);
    headers.append(
        HeaderName::from_static("connection"),
        HeaderValue::from_bytes(b"x-four\xff").unwrap(),
    );
    strip_hop_by_hop(&mut headers);
    assert_eq!(headers.keys_len(), 1);
    assert_eq!(headers["x-four"], "4");
}

#[test]
fn lists_of_odd_names_take_out_nothing() {
    let mut headers = fields(&[("connection", "x y, (), ="), ("x", "1"), ("y", "2")]);
    strip_hop_by_hop(&mut headers);
    assert_eq!(headers.keys_len(), 2);
}

#[test]
fn stripping_twice_changes_nothing() {
    let mut headers = fields(&[
        ("connection", "x-one"),
        ("x-one", "1"),
        ("x-two", "2"),
        ("te", "trailers"),
    ]);
    strip_hop_by_hop(&mut headers);
    let once = headers.clone();
    strip_hop_by_hop(&mut headers);
    assert_eq!(headers, once);
    assert_eq!(headers.keys_len(), 1);
}

#[test]
fn upstream_sees_its_own_host() {
    let mut headers = fields(&[
        ("host", "gateway.test"),
        ("accept-encoding", "gzip"),
        ("connection", "keep-alive"),
    ]);
    assert_eq!(upstream_headers(&config(), &mut headers), Ok(()));
    assert_eq!(headers.len(), 2);
    assert_eq!(headers["host"], "model.test:11434");
    assert_eq!(headers["accept-encoding"], "gzip");

    let mut headers = HeaderMap::new();
    assert_eq!(upstream_headers(&config(), &mut headers), Ok(()));
    assert_eq!(headers["host"], "model.test:11434");
}

#[test]
fn listed_host_is_taken_out_too() {
    let mut headers = fields(&[("host", "gateway.test"), ("connection", "host")]);
    assert_eq!(upstream_headers(&config(), &mut headers), Ok(()));
    assert!(headers.is_empty());
}

#[test]
fn requests_go_to_the_same_path() {
    let uri = upstream_uri(&config(), Some("/v1/messages?x=1"));
    assert_eq!(uri.scheme, "http");
    assert_eq!(uri.authority, "model.test:11434");
    assert_eq!(uri.path_and_query, "/v1/messages?x=1");
    assert_eq!(upstream_uri(&config(), None).path_and_query, "/");
    assert_eq!(upstream_uri(&config(), Some("*")).path_and_query, "*");
}

#[test]
fn bad_gateway_says_why() {
    let reply = bad_gateway("tcp \"connect\" error");
    assert_eq!(reply.status, 502);
    assert_eq!(reply.headers.len(), 1);
    assert_eq!(reply.headers["content-type"], "application/json");
    assert_eq!(
        reply.body,
        b"{\"error\":{\"message\":\"upstream request failed: tcp \\\"connect\\\" error\",\"type\":\"server_error\"}}"
    );
}

#[test]
fn room_in_a_header_map() {
    let mut headers = HeaderMap::new();
    assert!(fits_one_more(&headers));
    for i in 0..6553 {
        headers.insert(
            HeaderName::from_bytes(format!("x-{i}").as_bytes()).unwrap(),
            HeaderValue::from_static("1"),
        );
    }
    assert!(fits_one_more(&headers));
    assert_eq!(upstream_headers(&config(), &mut headers), Ok(()));
    assert_eq!(headers.keys_len(), 6554);
    assert!(!fits_one_more(&headers));
}

#[test]
fn full_header_map_takes_no_host() {
    let mut headers = fields(&[("x-pair", "1"), ("x-pair", "2")]);
    let mut i = 0;
    while headers.keys_len() < 24576 {
        let name = HeaderName::from_bytes(format!("x-{i}").as_bytes()).unwrap();
        let _ = headers.try_insert(name, HeaderValue::from_static("1"));
        i += 1;
    }
    let before = headers.clone();
    assert!(!fits_one_more(&headers));
    assert_eq!(upstream_headers(&config(), &mut headers), Err(NoRoom));
    assert_eq!(headers, before);
}
