//! The streamed path.

use http::header::{HeaderMap, HeaderName, HeaderValue, CONTENT_ENCODING, CONTENT_TYPE};
use keep_sse::boundary::EventBoundaryTracker;
use keep_sse::detect::EndpointKind;
use keep_sse::encoding::{Coding, DecodeError};
use keep_sse::error_event::build;
use keep_sse::sse::{
    bridged_headers, decoded_or_raw, gateway_head, heartbeat, is_event_stream, route_head,
    AfterHead, AwaitingHead, HeadRoute, Relay,
};
use std::io::Write;

const KINDS: [EndpointKind; 4] = [
    EndpointKind::ChatCompletions,
    EndpointKind::Responses,
    EndpointKind::AnthropicMessages,
    EndpointKind::GeminiStream,
];

fn typed(value: &'static str) -> HeaderMap {
    let mut headers = HeaderMap::new();
    headers.insert(CONTENT_TYPE, HeaderValue::from_static(value));
    headers
}

/// The events of a stream, each as its lines without comments.
fn events(stream: &[u8]) -> Vec<Vec<Vec<u8>>> {
    let mut events = Vec::new();
    let mut lines: Vec<Vec<u8>> = Vec::new();
    let mut line: Vec<u8> = Vec::new();
    let mut after_cr = false;
    for b in stream {
        if *b == b'\n' && after_cr {
            after_cr = false;
            continue;
        }
        after_cr = *b == b'\r';
        if *b != b'\n' && *b != b'\r' {
            line.push(*b);
        } else if line.is_empty() {
            if !lines.is_empty() {
                events.push(std::mem::take(&mut lines));
            }
        } else if line[0] == b':' {
            line.clear();
        } else {
            lines.push(std::mem::take(&mut line));
        }
    }
    events
}

fn gzipped(bytes: &[u8]) -> Vec<u8> {
    let mut encoder =
        flate2::write::GzEncoder::new(Vec::new(), flate2::Compression::default());
    encoder.write_all(bytes).unwrap();
    encoder.finish().unwrap()
}

#[test]
fn heartbeat_is_a_comment() {
    assert_eq!(heartbeat(), b":\n\n");
}

#[test]
fn event_streams_by_their_type() {
    assert!(is_event_stream(&typed("text/event-stream")));
    assert!(is_event_stream(&typed("text/event-stream; charset=utf-8")));
    assert!(is_event_stream(&typed(" Text/EVENT-stream ;x")));
    assert!(!is_event_stream(&typed("application/json")));
    assert!(!is_event_stream(&typed("application/json; text/event-stream")));
    assert!(!is_event_stream(&typed("")));
    assert!(!is_event_stream(&typed(";text/event-stream")));
    assert!(!is_event_stream(&HeaderMap::new()));
}

#[test]
fn replies_in_time_are_bridged_only_if_readable() {
    let mut headers = typed("text/event-stream");
    assert_eq!(route_head(200, &headers), HeadRoute::Bridge(Coding::Identity));
    assert_eq!(route_head(299, &headers), HeadRoute::Bridge(Coding::Identity));
    assert_eq!(route_head(199, &headers), HeadRoute::PassThrough);
    assert_eq!(route_head(300, &headers), HeadRoute::PassThrough);
    assert_eq!(route_head(429, &headers), HeadRoute::PassThrough);
    headers.insert(CONTENT_ENCODING, HeaderValue::from_static("zstd"));
    assert_eq!(route_head(200, &headers), HeadRoute::Bridge(Coding::Zstd));
    headers.insert(CONTENT_ENCODING, HeaderValue::from_static("snappy"));
    assert_eq!(route_head(200, &headers), HeadRoute::PassThrough);
    assert_eq!(
        route_head(200, &typed("application/json")),
        HeadRoute::PassThrough
    );
}

#[test]
fn fields_of_the_gateways_own_stream() {
    let head = gateway_head();
    assert_eq!(head.status, 200);
    let headers = head.headers;
    assert_eq!(headers.len(), 3);
    assert_eq!(headers["content-type"], "text/event-stream; charset=utf-8");
    assert_eq!(headers["cache-control"], "no-cache");
    assert_eq!(headers["x-accel-buffering"], "no");
}

#[test]
fn fields_of_a_bridged_reply() {
    let mut headers = typed("text/event-stream");
    for (name, value) in [
        ("x-request-id", "test-123"),
        ("content-length", "17"),
        ("content-encoding", "gzip"),
        ("transfer-encoding", "chunked"),
        ("connection", "x-private"),
        ("x-private", "1"),
        ("x-accel-buffering", "yes"),
    ] {
        headers.insert(
            HeaderName::from_static(name),
            HeaderValue::from_static(value),
        );
    }
    assert_eq!(bridged_headers(&mut headers), Ok(()));
    assert_eq!(headers.len(), 3);
    assert_eq!(headers["content-type"], "text/event-stream");
    assert_eq!(headers["x-request-id"], "test-123");
    assert_eq!(headers["x-accel-buffering"], "no");
}

#[test]
fn relay_keeps_alive_between_events_only() {
    let mut relay = Relay::new(EndpointKind::ChatCompletions, 60);
    assert_eq!(relay.on_idle().send, Some(b":\n\n".to_vec()));
    relay.on_chunk(b"data: he");
    assert_eq!(relay.on_idle().send, None);
    relay.on_chunk(b"llo\n");
    assert_eq!(relay.on_idle().send, None);
    relay.on_chunk(b"\n");
    assert_eq!(relay.on_idle().send, Some(b":\n\n".to_vec()));
    assert_eq!(relay.on_idle().send, Some(b":\n\n".to_vec()));
}

#[test]
fn every_turn_and_every_chunk_starts_a_full_interval() {
    let mut waiting = AwaitingHead::new(EndpointKind::Responses, 7);
    assert_eq!(waiting.first_wait(), 7);
    assert_eq!(Relay::new(EndpointKind::Responses, 7).first_wait(), 7);
    assert_eq!(waiting.on_idle().wait, 7);
    match waiting.on_head(200, Some(Coding::Identity)) {
        AfterHead::Relay(mut relay, _) => {
            assert_eq!(relay.on_idle().wait, 7);
            assert_eq!(relay.on_chunk(b"data: a"), 7);
            let skipped = relay.on_idle();
            assert_eq!(skipped.send, None);
            assert_eq!(skipped.wait, 7);
            assert_eq!(relay.on_chunk(b""), 7);
        }
        _ => panic!("a success is relayed"),
    }
    match AwaitingHead::new(EndpointKind::Responses, 7).on_head(500, None) {
        AfterHead::Collect(mut collection) => assert_eq!(collection.on_idle().wait, 7),
        _ => panic!("an error is collected"),
    }
    assert_eq!(Relay::new(EndpointKind::Responses, 0).on_idle().wait, 0);
}

#[test]
fn heartbeats_do_not_change_what_is_read() {
    let streams: [&[u8]; 5] = [
        b"data: a\n\ndata: b\n\n",
        b"event: x\r\ndata: a\r\n\r\ndata: b\r\n\r\n",
        b"data: a\r\rdata: b\r\r",
        b": note\n\n\n\ndata: a\n\r\n\rdata: b\n\n",
        b"data: a\n\nbroken",
    ];
    for stream in streams {
        let mut relay = Relay::new(EndpointKind::Responses, 60);
        let mut sent = Vec::new();
        let mut heartbeats = 0;
        for b in stream {
            if let Some(bytes) = relay.on_idle().send {
                sent.extend_from_slice(&bytes);
                heartbeats += 1;
            }
            relay.on_chunk(&[*b]);
            sent.push(*b);
        }
        assert!(heartbeats >= 2);
        assert_ne!(sent, stream);
        assert_eq!(events(&sent), events(stream));
    }
}

/// Takes out each heartbeat that stands at an event boundary where the source goes on otherwise.
fn without_heartbeats(sent: &[u8], source: &[u8]) -> Vec<u8> {
    let mut tracker = EventBoundaryTracker::new();
    let mut kept: Vec<u8> = Vec::new();
    let mut at = 0;
    while at < sent.len() {
        let heartbeat_here = sent[at..].starts_with(b":\n\n") && tracker.at_boundary();
        if heartbeat_here && !source[kept.len()..].starts_with(b":") {
            tracker.feed(&sent[at..at + 3]);
            at += 3;
        } else {
            tracker.feed(&sent[at..at + 1]);
            kept.push(sent[at]);
            at += 1;
        }
    }
    kept
}

#[test]
fn nothing_but_heartbeats_is_put_in() {
    let stream: &[u8] = b"data: a\r\r\ndata: b\n\n\r\ndata: c\r\n\r\ntail";
    for step in 1..=stream.len() {
        let mut waiting = AwaitingHead::new(EndpointKind::GeminiStream, 1);
        let mut sent = waiting.on_idle().send.unwrap();
        sent.extend(waiting.on_idle().send.unwrap());
        let mut relay = match waiting.on_head(200, Some(Coding::Identity)) {
            AfterHead::Relay(relay, _) => relay,
            _ => panic!("a success is relayed"),
        };
        for chunk in stream.chunks(step) {
            sent.extend(relay.on_idle().send.unwrap_or_default());
            relay.on_chunk(chunk);
            sent.extend_from_slice(chunk);
            sent.extend(relay.on_idle().send.unwrap_or_default());
        }
        assert_eq!(without_heartbeats(&sent, stream), stream);
    }
}

#[test]
fn broken_stream_is_completed_before_the_error() {
    for kind in KINDS {
        let event = build(kind, None, None, Some("reset"));

        let mut relay = Relay::new(kind, 60);
        relay.on_chunk(b"data: a\n\n");
        assert_eq!(relay.on_stream_failed("reset"), vec![event.clone()]);

        for partial in ["data: b", "data: b\n", "data: b\r", "data: b\r\n"] {
            let mut relay = Relay::new(kind, 60);
            relay.on_chunk(partial.as_bytes());
            let frames = relay.on_stream_failed("reset");
            assert_eq!(frames, vec![b"\n\n".to_vec(), event.clone()]);
            let mut sent = partial.as_bytes().to_vec();
            for frame in frames {
                sent.extend_from_slice(&frame);
            }
            let read = events(&sent);
            assert_eq!(read[0], vec![b"data: b".to_vec()]);
            assert_eq!(read[1..], events(&event));
        }
    }
}

#[test]
fn errors_end_at_a_boundary_and_are_read_back() {
    for kind in KINDS {
        let event = build(kind, Some(500), Some(b"a\n\nb"), None);
        let mut tracker = EventBoundaryTracker::new();
        tracker.feed(&event);
        assert!(tracker.at_boundary());
        let read = events(&event);
        if kind == EndpointKind::ChatCompletions {
            assert_eq!(read.len(), 2);
            assert_eq!(read[1], vec![b"data: [DONE]".to_vec()]);
        } else {
            assert_eq!(read.len(), 1);
        }
        assert!(read[0].last().unwrap().starts_with(b"data: {"));
    }
}

#[test]
fn waiting_is_kept_alive() {
    let mut waiting = AwaitingHead::new(EndpointKind::GeminiStream, 60);
    assert_eq!(waiting.on_idle().send, Some(b":\n\n".to_vec()));
    assert_eq!(waiting.on_idle().send, Some(b":\n\n".to_vec()));
    assert_eq!(
        waiting.on_request_failed("refused"),
        build(EndpointKind::GeminiStream, None, None, Some("refused"))
    );
}

#[test]
fn head_of_a_success_is_relayed() {
    for coding in [Coding::Identity, Coding::Br] {
        match AwaitingHead::new(EndpointKind::Responses, 60).on_head(200, Some(coding)) {
            AfterHead::Relay(mut relay, c) => {
                assert_eq!(c, coding);
                assert!(relay.on_idle().send.is_some());
                relay.on_chunk(b"data");
                assert!(relay.on_idle().send.is_none());
            }
            _ => panic!("a success is relayed"),
        }
    }
}

#[test]
fn head_with_an_unreadable_coding_is_an_error() {
    match AwaitingHead::new(EndpointKind::AnthropicMessages, 60).on_head(204, None) {
        AfterHead::Failed(event) => assert_eq!(
            event,
            build(
                EndpointKind::AnthropicMessages,
                None,
                None,
                Some("unsupported upstream content-encoding")
            )
        ),
        _ => panic!("nothing can be relayed"),
    }
}

#[test]
fn error_body_is_collected_and_told() {
    let kind = EndpointKind::ChatCompletions;
    let body = br#"{"error":{"message":"slow down"}}"#;
    let cases: [(Option<Coding>, Vec<u8>, &[u8]); 5] = [
        (Some(Coding::Identity), body.to_vec(), body),
        (None, body.to_vec(), body),
        (Some(Coding::Gzip), gzipped(body), body),
        (Some(Coding::Gzip), b"not coded".to_vec(), b"not coded"),
        (Some(Coding::Zstd), Vec::new(), b""),
    ];
    for (coding, collected, said) in cases {
        match AwaitingHead::new(kind, 60).on_head(429, coding) {
            AfterHead::Collect(mut collection) => {
                assert_eq!(collection.on_idle().send, Some(b":\n\n".to_vec()));
                assert_eq!(
                    collection.on_body(Some(&collected)),
                    build(kind, Some(429), Some(said), None)
                );
            }
            _ => panic!("an error is collected"),
        }
    }
}

#[test]
fn unreadable_error_body_leaves_the_status() {
    match AwaitingHead::new(EndpointKind::GeminiStream, 60).on_head(503, Some(Coding::Gzip)) {
        AfterHead::Collect(collection) => assert_eq!(
            collection.on_body(None),
            b"data: {\"error\":{\"code\":503,\"message\":\"503 Service Unavailable\",\"status\":\"UNAVAILABLE\"}}\n\n"
        ),
        _ => panic!("an error is collected"),
    }
}

#[test]
fn error_body_that_grows_too_long_is_told_raw() {
    let bomb = gzipped(&vec![b'a'; 1024 * 1024 + 1]);
    match AwaitingHead::new(EndpointKind::GeminiStream, 60).on_head(500, Some(Coding::Gzip)) {
        AfterHead::Collect(collection) => assert_eq!(
            collection.on_body(Some(&bomb)),
            build(EndpointKind::GeminiStream, Some(500), Some(&bomb), None)
        ),
        _ => panic!("an error is collected"),
    }
    let fits = gzipped(&vec![b'a'; 1024 * 1024]);
    match AwaitingHead::new(EndpointKind::GeminiStream, 60).on_head(500, Some(Coding::Gzip)) {
        AfterHead::Collect(collection) => {
            let event = collection.on_body(Some(&fits));
            assert!(event.windows(4096).any(|w| w.iter().all(|b| *b == b'a')));
        }
        _ => panic!("an error is collected"),
    }
}

#[test]
fn decoded_bytes_go_before_raw_ones() {
    assert_eq!(decoded_or_raw(b"raw", Ok(b"plain".to_vec())), b"plain");
    assert_eq!(decoded_or_raw(b"raw", Err(DecodeError::Malformed)), b"raw");
    assert_eq!(
        decoded_or_raw(b"raw", Err(DecodeError::LimitExceeded)),
        b"raw"
    );
}
