//! The events that tell a client that its request failed.

use keep_sse::detect::EndpointKind;
use keep_sse::error_event::{
    anthropic_error_type, anthropic_payload, build, chat_error_type, chat_payload, frame,
    gemini_payload, gemini_status, message, message_with_phrase, responses_code,
    responses_payload, status_line, ErrorFields, MAX_MSG,
};

fn fields(code: Option<&str>, message: Option<&str>, param: Option<&str>) -> ErrorFields {
    ErrorFields {
        code: code.map(str::to_string),
        message: message.map(str::to_string),
        param: param.map(str::to_string),
    }
}

fn text(bytes: &[u8]) -> &str {
    std::str::from_utf8(bytes).unwrap()
}

#[test]
fn chat_standard_error_body_passes_through() {
    let body = br#"{"error":{"message":"rate limited","type":"rate_limit_error","param":null,"code":null}}"#;
    let out = build(EndpointKind::ChatCompletions, Some(429), Some(body), None);
    let expected = "data: {\"error\":{\"code\":null,\"message\":\"rate limited\",\"param\":null,\"type\":\"rate_limit_error\"}}\n\ndata: [DONE]\n\n";
    assert_eq!(out, expected.as_bytes());
}

#[test]
fn chat_synthesized_from_non_json_body() {
    let out = build(EndpointKind::ChatCompletions, Some(500), Some(b"oops"), None);
    let s = text(&out);
    assert!(s.starts_with("data: {\"error\":"));
    assert!(s.contains("\"type\":\"server_error\""));
    assert!(s.contains("\"message\":\"oops\""));
    assert!(s.ends_with("\n\ndata: [DONE]\n\n"));
}

#[test]
fn chat_connection_failure() {
    let out = build(
        EndpointKind::ChatCompletions,
        None,
        None,
        Some("connection refused"),
    );
    let s = text(&out);
    assert!(s.contains("\"type\":\"server_error\""));
    assert!(s.contains("upstream request failed: connection refused"));
    assert!(s.ends_with("\n\ndata: [DONE]\n\n"));
}

#[test]
fn responses_standard_error_body_extracts_fields() {
    let body = br#"{"error":{"code":"rate_limit_exceeded","message":"slow down","param":null}}"#;
    let out = build(EndpointKind::Responses, Some(429), Some(body), None);
    let s = text(&out);
    assert!(s.starts_with("event: error\n"));
    assert!(s.contains("\"code\":\"rate_limit_exceeded\""));
    assert!(s.contains("\"message\":\"slow down\""));
    assert!(s.contains("\"sequence_number\":0"));
    assert!(s.ends_with("\n\n"));
}

#[test]
fn responses_synthesized_from_non_json_body() {
    let out = build(EndpointKind::Responses, Some(500), Some(b"fail"), None);
    let s = text(&out);
    assert!(s.contains("\"code\":\"server_error\""));
    assert!(s.contains("\"message\":\"fail\""));
}

#[test]
fn responses_connection_failure() {
    let out = build(EndpointKind::Responses, None, None, Some("timeout"));
    let s = text(&out);
    assert!(s.contains("\"code\":\"server_error\""));
    assert!(s.contains("upstream request failed: timeout"));
}

#[test]
fn anthropic_standard_error_body_passes_through() {
    let body = br#"{"type":"error","error":{"type":"rate_limit_error","message":"slow down"}}"#;
    let out = build(EndpointKind::AnthropicMessages, Some(429), Some(body), None);
    let expected = "event: error\ndata: {\"error\":{\"message\":\"slow down\",\"type\":\"rate_limit_error\"},\"type\":\"error\"}\n\n";
    assert_eq!(out, expected.as_bytes());
}

#[test]
fn anthropic_synthesized_429() {
    let out = build(
        EndpointKind::AnthropicMessages,
        Some(429),
        Some(b"nope"),
        None,
    );
    let s = text(&out);
    assert!(s.contains("\"type\":\"rate_limit_error\""));
    assert!(s.contains("\"message\":\"nope\""));
}

#[test]
fn anthropic_synthesized_401() {
    let out = build(
        EndpointKind::AnthropicMessages,
        Some(401),
        Some(b"bad key"),
        None,
    );
    assert!(text(&out).contains("\"type\":\"authentication_error\""));
}

#[test]
fn anthropic_connection_failure() {
    let out = build(
        EndpointKind::AnthropicMessages,
        None,
        None,
        Some("dns error"),
    );
    let s = text(&out);
    assert!(s.contains("\"type\":\"api_error\""));
    assert!(s.contains("upstream request failed: dns error"));
}

#[test]
fn gemini_standard_error_body_passes_through() {
    let body = br#"{"error":{"code":429,"message":"slow down","status":"RESOURCE_EXHAUSTED"}}"#;
    let out = build(EndpointKind::GeminiStream, Some(429), Some(body), None);
    let expected = "data: {\"error\":{\"code\":429,\"message\":\"slow down\",\"status\":\"RESOURCE_EXHAUSTED\"}}\n\n";
    assert_eq!(out, expected.as_bytes());
}

#[test]
fn gemini_synthesized_500() {
    let out = build(EndpointKind::GeminiStream, Some(500), Some(b"err"), None);
    let s = text(&out);
    assert!(s.contains("\"status\":\"INTERNAL\""));
    assert!(s.contains("\"code\":500"));
    assert!(s.contains("\"message\":\"err\""));
}

#[test]
fn gemini_connection_failure() {
    let out = build(EndpointKind::GeminiStream, None, None, Some("refused"));
    let s = text(&out);
    assert!(s.contains("\"status\":\"UNKNOWN\""));
    assert!(s.contains("\"code\":502"));
    assert!(s.contains("upstream request failed: refused"));
}

#[test]
fn chat_pretty_printed_reserialized_single_line() {
    let body = br#"{
  "error": { "message": "rate limited", "type": "rate_limit_error" }
}"#;
    let out = build(EndpointKind::ChatCompletions, Some(429), Some(body), None);
    let s = text(&out);
    let data_line = s.lines().next().unwrap();
    assert!(data_line.starts_with("data: {"));
    assert!(!data_line.contains('\n'));
    assert!(s.contains("\"message\":\"rate limited\""));
    assert!(s.contains("\"type\":\"rate_limit_error\""));
    assert!(s.ends_with("\n\ndata: [DONE]\n\n"));
}

#[test]
fn message_truncation_lands_on_char_boundary() {
    let prefix = "a".repeat(MAX_MSG - 1);
    let body = format!("{prefix}éé");
    let out = message(Some(body.as_bytes()), None, 502);
    assert!(out.len() <= MAX_MSG);
    assert_eq!(out.len(), MAX_MSG - 1);
    assert!(out.is_char_boundary(out.len()));
}

#[test]
fn message_that_just_fits_is_kept() {
    let body = "b".repeat(MAX_MSG);
    assert_eq!(message(Some(body.as_bytes()), None, 502), body);
    let longer = "b".repeat(MAX_MSG + 1);
    assert_eq!(message(Some(longer.as_bytes()), None, 502), body);
    let padded = format!("  {longer}\n");
    assert_eq!(message(Some(padded.as_bytes()), None, 502), body);
}

#[test]
fn message_of_a_blank_or_unreadable_body_is_the_status_line() {
    assert_eq!(message(Some(b" \n\t "), None, 503), "503 Service Unavailable");
    assert_eq!(message(Some(b"\xff\xfe"), None, 404), "404 Not Found");
    assert_eq!(message(Some(b""), None, 429), "429 Too Many Requests");
    assert_eq!(message(None, None, 502), "502 Bad Gateway");
    assert_eq!(message(None, None, 599), "599 Bad Gateway");
}

#[test]
fn message_trims_white_space_beyond_ascii() {
    assert_eq!(
        message(Some("\u{2003} hi \u{85}".as_bytes()), None, 500),
        "hi"
    );
}

#[test]
fn a_reason_goes_before_a_body() {
    assert_eq!(
        message(Some(b"body"), Some("reset"), 500),
        "upstream request failed: reset"
    );
    assert_eq!(
        message_with_phrase(None, None, 418, Some("I'm a teapot")),
        "418 I'm a teapot"
    );
    assert_eq!(status_line(7, None), "7 Bad Gateway");
}

#[test]
fn events_made_up_whole() {
    assert_eq!(
        text(&build(EndpointKind::ChatCompletions, Some(404), Some(b"no \"model\"\n"), None)),
        "data: {\"error\":{\"code\":null,\"message\":\"no \\\"model\\\"\",\"param\":null,\"type\":\"invalid_request_error\"}}\n\ndata: [DONE]\n\n"
    );
    assert_eq!(
        text(&build(EndpointKind::Responses, Some(404), Some(b"gone"), None)),
        "event: error\ndata: {\"code\":\"invalid_request_error\",\"message\":\"gone\",\"param\":null,\"sequence_number\":0,\"type\":\"error\"}\n\n"
    );
    assert_eq!(
        text(&build(EndpointKind::AnthropicMessages, Some(529), None, None)),
        "event: error\ndata: {\"error\":{\"message\":\"529 Bad Gateway\",\"type\":\"overloaded_error\"},\"type\":\"error\"}\n\n"
    );
    assert_eq!(
        text(&build(EndpointKind::GeminiStream, Some(504), Some(b"late"), None)),
        "data: {\"error\":{\"code\":504,\"message\":\"late\",\"status\":\"DEADLINE_EXCEEDED\"}}\n\n"
    );
}

#[test]
fn control_characters_of_a_body_are_escaped() {
    let out = build(
        EndpointKind::GeminiStream,
        Some(500),
        Some(b"a\nb\rc\td\x08e\x0cf\x01g\x1fh\\i\x7fj"),
        None,
    );
    assert_eq!(
        text(&out),
        "data: {\"error\":{\"code\":500,\"message\":\"a\\nb\\rc\\td\\be\\ff\\u0001g\\u001fh\\\\i\u{7f}j\",\"status\":\"INTERNAL\"}}\n\n"
    );
}

#[test]
fn responses_error_keeps_its_parameter() {
    let body = br#"{"error":{"param":{"b":1,"a":[2]},"code":"c","message":"m"}}"#;
    assert_eq!(
        text(&build(EndpointKind::Responses, Some(400), Some(body), None)),
        "event: error\ndata: {\"code\":\"c\",\"message\":\"m\",\"param\":{\"a\":[2],\"b\":1},\"sequence_number\":0,\"type\":\"error\"}\n\n"
    );
    let body = br#"{"error":{"code":"c","message":"m"}}"#;
    assert!(text(&build(EndpointKind::Responses, Some(400), Some(body), None))
        .contains("\"param\":null"));
}

#[test]
fn responses_error_is_taken_member_by_member() {
    let body = br#"{"error":{"code":null,"message":"slow down","param":"model"}}"#;
    assert_eq!(
        text(&build(EndpointKind::Responses, Some(429), Some(body), None)),
        "event: error\ndata: {\"code\":\"rate_limit_exceeded\",\"message\":\"slow down\",\"param\":\"model\",\"sequence_number\":0,\"type\":\"error\"}\n\n"
    );
    let body = br#"{"error":{"message":"m"}}"#;
    assert_eq!(
        text(&build(EndpointKind::Responses, Some(503), Some(body), None)),
        "event: error\ndata: {\"code\":\"server_error\",\"message\":\"m\",\"param\":null,\"sequence_number\":0,\"type\":\"error\"}\n\n"
    );
    let body = br#"{"error":{"code":"c"}}"#;
    assert_eq!(
        text(&build(EndpointKind::Responses, Some(503), Some(body), None)),
        "event: error\ndata: {\"code\":\"c\",\"message\":\"{\\\"error\\\":{\\\"code\\\":\\\"c\\\"}}\",\"param\":null,\"sequence_number\":0,\"type\":\"error\"}\n\n"
    );
    let body = br#"{"error":{"code":429,"message":["m"],"param":1}}"#;
    let out = build(EndpointKind::Responses, Some(400), Some(body), None);
    assert!(text(&out).contains("\"code\":\"invalid_request_error\""));
    assert!(text(&out).contains("\"param\":1,"));
    let body = br#"{"error":"rate limited"}"#;
    let out = build(EndpointKind::Responses, Some(429), Some(body), None);
    assert!(text(&out).contains("\"message\":\"{\\\"error\\\":\\\"rate limited\\\"}\",\"param\":null"));
}

#[test]
fn anthropic_error_needs_its_type() {
    let body = br#"{"error":{"message":"m"}}"#;
    let out = build(EndpointKind::AnthropicMessages, Some(403), Some(body), None);
    assert!(text(&out).contains("\"type\":\"permission_error\""));
    let body = br#"{"type":"error"}"#;
    let out = build(EndpointKind::AnthropicMessages, Some(403), Some(body), None);
    assert!(text(&out).contains("\"type\":\"permission_error\""));
}

#[test]
fn error_member_of_any_form_is_taken_over() {
    let out = build(
        EndpointKind::ChatCompletions,
        Some(429),
        Some(b"{\"error\":\"rate limited\"}"),
        None,
    );
    assert_eq!(
        text(&out),
        "data: {\"error\":\"rate limited\"}\n\ndata: [DONE]\n\n"
    );
}

#[test]
fn array_is_no_error_of_an_interface() {
    let out = build(
        EndpointKind::GeminiStream,
        Some(500),
        Some(b"[{\"error\":{}}]"),
        None,
    );
    assert!(text(&out).contains("\"status\":\"INTERNAL\""));
}

#[test]
fn payloads_by_status() {
    assert_eq!(
        chat_payload(None, 429, "m"),
        "{\"error\":{\"code\":null,\"message\":\"m\",\"param\":null,\"type\":\"rate_limit_error\"}}"
    );
    assert_eq!(chat_payload(Some("{}"), 429, "m"), "{}");
    assert_eq!(
        responses_payload(fields(None, None, None), 302, "m"),
        "{\"code\":\"invalid_request_error\",\"message\":\"m\",\"param\":null,\"sequence_number\":0,\"type\":\"error\"}"
    );
    assert_eq!(
        responses_payload(fields(Some("c"), Some("t"), Some("[1]")), 500, "m"),
        "{\"code\":\"c\",\"message\":\"t\",\"param\":[1],\"sequence_number\":0,\"type\":\"error\"}"
    );
    assert_eq!(
        anthropic_payload(None, 413, "m"),
        "{\"error\":{\"message\":\"m\",\"type\":\"request_too_large\"},\"type\":\"error\"}"
    );
    assert_eq!(anthropic_payload(Some("{}"), 413, "m"), "{}");
    assert_eq!(
        gemini_payload(None, 401, "m"),
        "{\"error\":{\"code\":401,\"message\":\"m\",\"status\":\"UNAUTHENTICATED\"}}"
    );
    assert_eq!(gemini_payload(Some("{}"), 401, "m"), "{}");
    assert_eq!(
        frame(EndpointKind::Responses, "{}"),
        b"event: error\ndata: {}\n\n"
    );
}

#[test]
fn no_reply_is_told_as_a_bad_gateway() {
    for kind in [
        EndpointKind::ChatCompletions,
        EndpointKind::Responses,
        EndpointKind::AnthropicMessages,
        EndpointKind::GeminiStream,
    ] {
        assert_eq!(
            build(kind, None, None, Some("reset")),
            build(kind, Some(502), None, Some("reset"))
        );
    }
}

#[test]
fn own_error_is_carried_whatever_the_status() {
    let body = br#"{"type":"error","error":{"code":"c","message":"m"}}"#;
    for kind in [
        EndpointKind::ChatCompletions,
        EndpointKind::Responses,
        EndpointKind::AnthropicMessages,
        EndpointKind::GeminiStream,
    ] {
        assert_eq!(
            build(kind, Some(429), Some(body), None),
            build(kind, Some(500), Some(body), Some("late"))
        );
    }
}

#[test]
fn names_for_statuses() {
    assert_eq!(chat_error_type(399), "server_error");
    assert_eq!(chat_error_type(400), "invalid_request_error");
    assert_eq!(chat_error_type(499), "invalid_request_error");
    assert_eq!(chat_error_type(500), "server_error");
    assert_eq!(responses_code(429), "rate_limit_exceeded");
    assert_eq!(responses_code(599), "server_error");
    assert_eq!(responses_code(600), "invalid_request_error");
    assert_eq!(anthropic_error_type(400), "invalid_request_error");
    assert_eq!(anthropic_error_type(404), "not_found_error");
    assert_eq!(anthropic_error_type(500), "api_error");
    assert_eq!(gemini_status(400), "INVALID_ARGUMENT");
    assert_eq!(gemini_status(403), "PERMISSION_DENIED");
    assert_eq!(gemini_status(404), "NOT_FOUND");
    assert_eq!(gemini_status(429), "RESOURCE_EXHAUSTED");
    assert_eq!(gemini_status(503), "UNAVAILABLE");
    assert_eq!(gemini_status(418), "UNKNOWN");
}
