//! Which requests ask for a streamed reply.

use http::header::{HeaderMap, HeaderValue, ACCEPT};
use keep_sse::detect::{
    accepts_event_stream, has_alt_sse, match_endpoint, probe_stream_flag, EndpointKind,
};
use serde::de::{Deserialize, Deserializer, Error, IgnoredAny, MapAccess, SeqAccess, Visitor};

#[test]
fn chat_completions_prefix_invariant() {
    assert_eq!(
        match_endpoint("POST", "/chat/completions", None),
        Some(EndpointKind::ChatCompletions)
    );
    assert_eq!(
        match_endpoint("POST", "/api/v1/chat/completions", None),
        Some(EndpointKind::ChatCompletions)
    );
    assert_eq!(
        match_endpoint("POST", "/openai/api/v1/chat/completions", None),
        Some(EndpointKind::ChatCompletions)
    );
}

#[test]
fn messages_suffix_segment_only() {
    assert_eq!(
        match_endpoint("POST", "/v1/messages", None),
        Some(EndpointKind::AnthropicMessages)
    );
    assert_eq!(match_endpoint("POST", "/v1/messages/batches", None), None);
    assert_eq!(match_endpoint("POST", "/v1/notmessages", None), None);
}

#[test]
fn responses_suffix_segment_only() {
    assert_eq!(
        match_endpoint("POST", "/v1/responses", None),
        Some(EndpointKind::Responses)
    );
    assert_eq!(match_endpoint("POST", "/v1/responses/abc", None), None);
}

#[test]
fn non_post_not_matched() {
    assert_eq!(match_endpoint("GET", "/chat/completions", None), None);
}

#[test]
fn gemini_alt_sse_required() {
    assert_eq!(
        match_endpoint(
            "POST",
            "/v1beta/models/gemini-pro:streamGenerateContent",
            Some("alt=sse")
        ),
        Some(EndpointKind::GeminiStream)
    );
    assert_eq!(
        match_endpoint(
            "POST",
            "/v1beta/models/gemini-pro:streamGenerateContent",
            Some("foo=bar&alt=sse")
        ),
        Some(EndpointKind::GeminiStream)
    );
    assert_eq!(
        match_endpoint(
            "POST",
            "/v1beta/models/gemini-pro:streamGenerateContent",
            Some("alt=json")
        ),
        None
    );
    assert_eq!(
        match_endpoint("POST", "/v1beta/models/gemini-pro:streamGenerateContent", None),
        None
    );
}

/// A request body as JSON: a structure with one member, which reads as `false` where it is
/// absent, and members that do not matter.
struct Probe {
    stream: bool,
}

struct ProbeVisitor;

impl<'de> Visitor<'de> for ProbeVisitor {
    type Value = Probe;

    fn expecting(&self, f: &mut std::fmt::Formatter<'_>) -> std::fmt::Result {
        f.write_str("a request body")
    }

    fn visit_seq<A: SeqAccess<'de>>(self, mut seq: A) -> Result<Probe, A::Error> {
        let stream = seq.next_element::<bool>()?.unwrap_or_default();
        Ok(Probe { stream })
    }

    fn visit_map<A: MapAccess<'de>>(self, mut map: A) -> Result<Probe, A::Error> {
        let mut stream = None;
        while let Some(key) = map.next_key::<String>()? {
            if key != "stream" {
                map.next_value::<IgnoredAny>()?;
            } else if stream.is_some() {
                return Err(A::Error::duplicate_field("stream"));
            } else {
                stream = Some(map.next_value::<bool>()?);
            }
        }
        Ok(Probe {
            stream: stream.unwrap_or_default(),
        })
    }
}

impl<'de> Deserialize<'de> for Probe {
    fn deserialize<D: Deserializer<'de>>(deserializer: D) -> Result<Probe, D::Error> {
        deserializer.deserialize_struct("Probe", &["stream"], ProbeVisitor)
    }
}

/// Reads a body and hands the library what it says.
fn probe(body: &[u8]) -> bool {
    let read = serde_json::from_slice::<Probe>(body).ok();
    probe_stream_flag(body, read.map(|p| p.stream))
}

#[test]
fn stream_flag_probing() {
    assert!(probe(br#"{"stream":true}"#));
    assert!(probe(br#"{"stream":true,"model":"x"}"#));
    assert!(probe(br#"{"model":"x","stream":true}"#));
    assert!(!probe(br#"{"stream":false}"#));
    assert!(!probe(br#"{"model":"x"}"#));
    assert!(!probe(br#"not json"#));
    assert!(!probe(br#"{"stream":"true"}"#));
}

#[test]
fn only_an_object_has_a_member() {
    assert!(probe(b" \t\r\n{\"stream\":true}\n"));
    assert!(!probe(b"[true]"));
    assert!(!probe(b" [true]"));
    assert!(!probe(b"true"));
    assert!(!probe(b""));
    assert!(!probe(b" "));
    assert!(!probe(br#"{"stream":true,"stream":true}"#));
    assert!(probe(br#"{"n":1e999,"stream":true}"#));
    assert!(!probe_stream_flag(b"[true]", Some(true)));
    assert!(probe_stream_flag(b"{", Some(true)));
    assert!(!probe_stream_flag(b"{", Some(false)));
    assert!(!probe_stream_flag(b"{", None));
}

#[test]
fn methods_are_told_apart_by_case() {
    assert_eq!(match_endpoint("post", "/chat/completions", None), None);
    assert_eq!(match_endpoint("", "/chat/completions", None), None);
}

#[test]
fn alt_sse_among_other_pairs() {
    assert!(has_alt_sse("alt=sse"));
    assert!(has_alt_sse("a=b&alt=sse&c=d"));
    assert!(has_alt_sse("alt=sse&"));
    assert!(has_alt_sse("&alt=sse"));
    assert!(has_alt_sse("?alt=sse"));
    assert!(!has_alt_sse("??alt=sse"));
    assert!(!has_alt_sse(""));
    assert!(!has_alt_sse("alt"));
    assert!(!has_alt_sse("alt="));
    assert!(!has_alt_sse("alt=sse2"));
    assert!(!has_alt_sse("xalt=sse"));
    assert!(!has_alt_sse("ALT=sse"));
    assert!(!has_alt_sse("alt=sse=1"));
}

fn accepting(values: &[&'static str]) -> HeaderMap {
    let mut headers = HeaderMap::new();
    for value in values {
        headers.append(ACCEPT, HeaderValue::from_static(value));
    }
    headers
}

#[test]
fn accept_has_to_be_exactly_the_event_stream() {
    assert!(accepts_event_stream(&accepting(&["text/event-stream"])));
    assert!(accepts_event_stream(&accepting(&["  text/event-stream\t"])));
    assert!(!accepts_event_stream(&accepting(&[
        "text/event-stream, application/json"
    ])));
    assert!(!accepts_event_stream(&accepting(&[
        "text/event-stream; charset=utf-8"
    ])));
    assert!(!accepts_event_stream(&accepting(&["Text/Event-Stream"])));
    assert!(!accepts_event_stream(&accepting(&[""])));
    assert!(!accepts_event_stream(&accepting(&[])));
    assert!(!accepts_event_stream(&accepting(&[
        "text/event-stream",
        "application/json"
    ])));
}

#[test]
fn accept_that_is_no_text_asks_for_nothing() {
    let mut headers = HeaderMap::new();
    headers.insert(
        ACCEPT,
        HeaderValue::from_bytes(b"text/event-stream\xff").unwrap(),
    );
    assert!(!accepts_event_stream(&headers));
}
