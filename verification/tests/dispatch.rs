//! Which path a request takes.

use http::header::{HeaderMap, HeaderName, HeaderValue};
use keep_sse::detect::EndpointKind;
use keep_sse::dispatch::{
    refuse, response_400, response_413, route_body, route_request, BodyRoute, CollectError, Route,
};
use std::io::Write;

fn fields(pairs: &[(&'static str, &'static str)]) -> HeaderMap {
    let mut headers = HeaderMap::new();
    for (name, value) in pairs {
        headers.append(
            HeaderName::from_static(name),
            HeaderValue::from_static(value),
        );
    }
    headers
}

fn probed(route: BodyRoute) -> Vec<u8> {
    match route {
        BodyRoute::Probe(bytes) => bytes,
        BodyRoute::Stream => panic!("the body was to be probed"),
    }
}

fn gzipped(bytes: &[u8]) -> Vec<u8> {
    let mut encoder =
        flate2::write::GzEncoder::new(Vec::new(), flate2::Compression::default());
    encoder.write_all(bytes).unwrap();
    encoder.finish().unwrap()
}

#[test]
fn interfaces_are_candidates() {
    let none = HeaderMap::new();
    assert_eq!(
        route_request("POST", "/v1/chat/completions", None, &none, 10),
        Route::Candidate(EndpointKind::ChatCompletions)
    );
    assert_eq!(
        route_request("POST", "/x:streamGenerateContent", Some("alt=sse"), &none, 10),
        Route::Candidate(EndpointKind::GeminiStream)
    );
    assert_eq!(
        route_request("POST", "/x:streamGenerateContent", None, &none, 10),
        Route::Transparent
    );
    assert_eq!(
        route_request("GET", "/v1/chat/completions", None, &none, 10),
        Route::Transparent
    );
    assert_eq!(
        route_request("POST", "/v1/embeddings", None, &none, 10),
        Route::Transparent
    );
}

#[test]
fn declared_lengths() {
    let candidate = Route::Candidate(EndpointKind::Responses);
    let cases = [
        ("10", candidate),
        ("11", Route::Transparent),
        ("0010", candidate),
        ("+11", Route::Transparent),
        ("-11", candidate),
        ("", candidate),
        ("eleven", candidate),
        (" 11", candidate),
        ("99999999999999999999999999", candidate),
        ("18446744073709551615", Route::Transparent),
    ];
    for (length, expected) in cases {
        let mut headers = HeaderMap::new();
        headers.insert("content-length", HeaderValue::from_static(length));
        assert_eq!(
            route_request("POST", "/responses", None, &headers, 10),
            expected,
            "length {length}"
        );
    }
}

#[test]
fn too_long_goes_before_the_accept_field() {
    let headers = fields(&[("content-length", "11"), ("accept", "text/event-stream")]);
    assert_eq!(
        route_request("POST", "/messages", None, &headers, 10),
        Route::Transparent
    );
}

#[test]
fn gemini_and_accept_need_no_probe() {
    assert!(matches!(
        route_body(EndpointKind::GeminiStream, &HeaderMap::new(), b"", 10),
        BodyRoute::Stream
    ));
    assert!(matches!(
        route_body(
            EndpointKind::Responses,
            &fields(&[("accept", "text/event-stream")]),
            b"{\"stream\": false}",
            10
        ),
        BodyRoute::Stream
    ));
}

#[test]
fn bodies_are_probed_decoded() {
    let kind = EndpointKind::ChatCompletions;
    let body = b"{\"model\":\"x\",\"stream\":true}";
    assert_eq!(
        probed(route_body(kind, &HeaderMap::new(), body, 100)),
        body.to_vec()
    );
    assert_eq!(
        probed(route_body(
            kind,
            &fields(&[("content-encoding", "gzip")]),
            &gzipped(body),
            100
        )),
        body.to_vec()
    );
    assert_eq!(
        probed(route_body(
            kind,
            &fields(&[("content-encoding", "snappy")]),
            b"raw",
            100
        )),
        b"raw".to_vec()
    );
}

#[test]
fn bodies_that_cannot_be_decoded_say_nothing() {
    let kind = EndpointKind::AnthropicMessages;
    let coded = fields(&[("content-encoding", "gzip")]);
    assert_eq!(probed(route_body(kind, &coded, b"plain", 100)), b"".to_vec());
    assert_eq!(
        probed(route_body(kind, &coded, &gzipped(&[b'a'; 101]), 100)),
        b"".to_vec()
    );
    assert_eq!(
        probed(route_body(kind, &coded, &gzipped(&[b'a'; 100]), 100)),
        vec![b'a'; 100]
    );
}

#[test]
fn the_largest_limit_leaves_every_request_a_candidate() {
    let headers = fields(&[("content-length", "18446744073709551615")]);
    assert_eq!(
        route_request("POST", "/messages", None, &headers, usize::MAX),
        Route::Candidate(EndpointKind::AnthropicMessages)
    );
    assert_eq!(
        probed(route_body(
            EndpointKind::AnthropicMessages,
            &HeaderMap::new(),
            b"{}",
            usize::MAX
        )),
        b"{}".to_vec()
    );
}

#[test]
fn refusals() {
    let reply = response_413();
    assert_eq!(reply.status, 413);
    assert_eq!(reply.headers["content-type"], "application/json");
    assert_eq!(
        reply.body,
        b"{\"error\":{\"message\":\"request body exceeds max-probe-body limit\",\"type\":\"invalid_request_error\"}}"
    );
    assert_eq!(refuse(CollectError::TooLong).body, reply.body);
    assert_eq!(refuse(CollectError::TooLong).status, 413);
    assert_eq!(refuse(CollectError::Unreadable).status, 400);
    let reply = response_400();
    assert_eq!(reply.status, 400);
    assert_eq!(reply.headers.len(), 1);
    assert_eq!(
        reply.body,
        b"{\"error\":{\"message\":\"failed to read request body\",\"type\":\"invalid_request_error\"}}"
    );
}
