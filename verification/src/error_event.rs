//! The events that tell a client, in the manner of the interface that it uses, that its request
//! failed upstream.
//!
//! Where the upstream's error body is already an error of that interface, the event carries it
//! as it is, on one line; for the Responses interface it carries the members of that error, each
//! as far as it is there. Otherwise an error is made up from the status and the body.

use crate::boundary::{at_event_boundary, two_line_feeds_end_an_event};
use crate::detect::EndpointKind;
use crate::json::{
    is_one_line, json_at, json_quote, json_string, json_string_at, json_text, quoted,
    quoted_is_one_line,
};
use crate::reading::{
    are_event_lines, boundary_is_between_events, events_of, is_unbroken, written,
    written_event_is_read,
};
use crate::text::{
    cut_to_bytes, decimal, decimal_text, lemma_encode_concat, lemma_utf8_prefix, same_text,
    str_view, text_view, trim, trimmed, utf8_prefix, utf8_text,
};
use vstd::prelude::*;
use vstd::slice::slice_to_vec;
use vstd::string::*;
use vstd::utf8::*;

verus! {

broadcast use vstd::string::group_string_axioms;

/// The most bytes that an error message takes from an upstream body.
pub const MAX_MSG: usize = 4096;

/// The status that stands for a request that got no reply at all.
pub const BAD_GATEWAY: u16 = 502;

/// The bytes of an optional body.
pub open spec fn body_view(body: Option<&[u8]>) -> Option<Seq<u8>> {
    match body {
        Some(b) => Some(b@),
        None => None,
    }
}

/// The phrase that the `http` crate lists for a status code.
pub uninterp spec fn reason_phrase(code: u16) -> Option<Seq<char>>;

/// `http::StatusCode::canonical_reason`; `None` too for a number that is no status code.
#[verifier::external_body]
fn canonical_reason(code: u16) -> (res: Option<&'static str>)
    ensures
        str_view(res) == reason_phrase(code),
{
    http::StatusCode::from_u16(code).ok()?.canonical_reason()
}

/// A status line: the code and its phrase, which is `Bad Gateway` where the code has none.
pub open spec fn status_line_of(code: u16, phrase: Option<Seq<char>>) -> Seq<char> {
    decimal(code as nat) + " "@ + (match phrase {
        Some(p) => p,
        None => "Bad Gateway"@,
    })
}

/// Writes a status line.
pub fn status_line(code: u16, phrase: Option<&str>) -> (res: String)
    ensures
        res@ == status_line_of(code, str_view(phrase)),
{
    let mut s = decimal_text(code as u64);
    s.append(" ");
    match phrase {
        Some(p) => s.append(p),
        None => s.append("Bad Gateway"),
    }
    s
}

/// What an error message says: why the request failed, where that is known; else what the
/// upstream's body says, without the white space around it and cut down to `MAX_MSG` bytes;
/// else, where the body is no text or is blank, the status line.
pub open spec fn message_of(
    body: Option<Seq<u8>>,
    reason: Option<Seq<char>>,
    status: u16,
    phrase: Option<Seq<char>>,
) -> Seq<char> {
    match reason {
        Some(r) => "upstream request failed: "@ + r,
        None => match body {
            Some(b) => if valid_utf8(b) && trim(decode_utf8(b)).len() > 0 {
                utf8_prefix(trim(decode_utf8(b)), MAX_MSG as nat)
            } else {
                status_line_of(status, phrase)
            },
            None => status_line_of(status, phrase),
        },
    }
}

/// Writes an error message for a status whose phrase is given.
pub fn message_with_phrase(
    body: Option<&[u8]>,
    reason: Option<&str>,
    status: u16,
    phrase: Option<&str>,
) -> (res: String)
    ensures
        res@ == message_of(body_view(body), str_view(reason), status, str_view(phrase)),
{
    if let Some(r) = reason {
        let mut s = "upstream request failed: ".to_owned();
        s.append(r);
        return s;
    }
    match body {
        Some(b) => match utf8_text(b) {
            Some(text) => {
                let text = trimmed(text);
                if text.is_empty() {
                    status_line(status, phrase)
                } else {
                    cut_to_bytes(text, MAX_MSG).to_owned()
                }
            },
            None => status_line(status, phrase),
        },
        None => status_line(status, phrase),
    }
}

/// Writes an error message.
pub fn message(body: Option<&[u8]>, reason: Option<&str>, status: u16) -> (res: String)
    ensures
        res@ == message_of(body_view(body), str_view(reason), status, reason_phrase(status)),
{
    message_with_phrase(body, reason, status, canonical_reason(status))
}

/// The body as JSON on one line, where it is an object with a member `error`.
pub open spec fn top_level_error(body: Seq<u8>) -> Option<Seq<char>> {
    if json_text(body, "/error"@) is Some {
        json_text(body, ""@)
    } else {
        None
    }
}

/// The body as JSON on one line, where it is an object with a member `error` and a member
/// `type` that is the string `error`.
pub open spec fn typed_error(body: Seq<u8>) -> Option<Seq<char>> {
    if json_string(body, "/type"@) == Some("error"@) {
        top_level_error(body)
    } else {
        None
    }
}

/// The members `code` and `message` of the member `error` of the body, where they are strings, and
/// its member `param`, where there is one, as JSON on one line.
pub open spec fn error_fields(body: Seq<u8>) -> (
    Option<Seq<char>>,
    Option<Seq<char>>,
    Option<Seq<char>>,
) {
    (
        json_string(body, "/error/code"@),
        json_string(body, "/error/message"@),
        json_text(body, "/error/param"@),
    )
}

/// Reads the body as an error with a top-level member `error`.
fn parse_top_level_error(body: &[u8]) -> (res: Option<String>)
    ensures
        text_view(res) == top_level_error(body@),
        res matches Some(text) ==> is_one_line(text@),
{
    match json_at(body, "/error") {
        Some(_) => json_at(body, ""),
        None => None,
    }
}

/// Reads the body as an error of the Anthropic interface.
fn parse_anthropic_error(body: &[u8]) -> (res: Option<String>)
    ensures
        text_view(res) == typed_error(body@),
        res matches Some(text) ==> is_one_line(text@),
{
    match json_string_at(body, "/type") {
        Some(kind) => if same_text(kind.as_str(), "error") {
            parse_top_level_error(body)
        } else {
            None
        },
        None => None,
    }
}

/// What an upstream's error says, each text on its own: any of them may be missing.
pub struct ErrorFields {
    /// The code.
    pub code: Option<String>,
    /// The message.
    pub message: Option<String>,
    /// What the error is about, as JSON.
    pub param: Option<String>,
}

impl View for ErrorFields {
    type V = (Option<Seq<char>>, Option<Seq<char>>, Option<Seq<char>>);

    open spec fn view(&self) -> (Option<Seq<char>>, Option<Seq<char>>, Option<Seq<char>>) {
        (text_view(self.code), text_view(self.message), text_view(self.param))
    }
}

/// Reads from the body what a Responses error says. Each text is taken where it is there, whatever
/// the others are.
fn parse_responses_error(body: &[u8]) -> (res: ErrorFields)
    ensures
        res@ == error_fields(body@),
        res.param matches Some(param) ==> is_one_line(param@),
{
    ErrorFields {
        code: json_string_at(body, "/error/code"),
        message: json_string_at(body, "/error/message"),
        param: json_at(body, "/error/param"),
    }
}

/// The kind of error that the Chat Completions interface names for a status.
pub open spec fn chat_error_type_of(status: u16) -> Seq<char> {
    if status == 429 {
        "rate_limit_error"@
    } else if 400 <= status < 500 {
        "invalid_request_error"@
    } else {
        "server_error"@
    }
}

/// The kind of error that the Chat Completions interface names for a status.
pub fn chat_error_type(status: u16) -> (res: &'static str)
    ensures
        res@ == chat_error_type_of(status),
{
    if status == 429 {
        "rate_limit_error"
    } else if 400 <= status && status < 500 {
        "invalid_request_error"
    } else {
        "server_error"
    }
}

/// The code that the Responses interface names for a status.
pub open spec fn responses_code_of(status: u16) -> Seq<char> {
    if status == 429 {
        "rate_limit_exceeded"@
    } else if 500 <= status < 600 {
        "server_error"@
    } else {
        "invalid_request_error"@
    }
}

/// The code that the Responses interface names for a status.
pub fn responses_code(status: u16) -> (res: &'static str)
    ensures
        res@ == responses_code_of(status),
{
    if status == 429 {
        "rate_limit_exceeded"
    } else if 500 <= status && status < 600 {
        "server_error"
    } else {
        "invalid_request_error"
    }
}

/// The kind of error that the Anthropic interface names for a status.
pub open spec fn anthropic_error_type_of(status: u16) -> Seq<char> {
    match status {
        400 => "invalid_request_error"@,
        401 => "authentication_error"@,
        403 => "permission_error"@,
        404 => "not_found_error"@,
        413 => "request_too_large"@,
        429 => "rate_limit_error"@,
        529 => "overloaded_error"@,
        _ => "api_error"@,
    }
}

/// The kind of error that the Anthropic interface names for a status.
pub fn anthropic_error_type(status: u16) -> (res: &'static str)
    ensures
        res@ == anthropic_error_type_of(status),
{
    match status {
        400 => "invalid_request_error",
        401 => "authentication_error",
        403 => "permission_error",
        404 => "not_found_error",
        413 => "request_too_large",
        429 => "rate_limit_error",
        529 => "overloaded_error",
        _ => "api_error",
    }
}

/// The state that the Gemini interface names for a status.
pub open spec fn gemini_status_of(status: u16) -> Seq<char> {
    match status {
        400 => "INVALID_ARGUMENT"@,
        401 => "UNAUTHENTICATED"@,
        403 => "PERMISSION_DENIED"@,
        404 => "NOT_FOUND"@,
        429 => "RESOURCE_EXHAUSTED"@,
        500 => "INTERNAL"@,
        503 => "UNAVAILABLE"@,
        504 => "DEADLINE_EXCEEDED"@,
        _ => "UNKNOWN"@,
    }
}

/// The state that the Gemini interface names for a status.
pub fn gemini_status(status: u16) -> (res: &'static str)
    ensures
        res@ == gemini_status_of(status),
{
    match status {
        400 => "INVALID_ARGUMENT",
        401 => "UNAUTHENTICATED",
        403 => "PERMISSION_DENIED",
        404 => "NOT_FOUND",
        429 => "RESOURCE_EXHAUSTED",
        500 => "INTERNAL",
        503 => "UNAVAILABLE",
        504 => "DEADLINE_EXCEEDED",
        _ => "UNKNOWN",
    }
}

/// The error of the Chat Completions interface for a status and a message.
pub open spec fn chat_error(status: u16, message: Seq<char>) -> Seq<char> {
    "{\"error\":{\"code\":null,\"message\":"@ + quoted(message) + ",\"param\":null,\"type\":"@
        + quoted(chat_error_type_of(status)) + "}}"@
}

/// The data of a Chat Completions error: `standard`, the upstream's own error, where there is
/// one.
pub fn chat_payload(standard: Option<&str>, status: u16, message: &str) -> (res: String)
    ensures
        res@ == (match str_view(standard) {
            Some(text) => text,
            None => chat_error(status, message@),
        }),
        standard is None ==> is_one_line(res@),
{
    if let Some(text) = standard {
        return text.to_owned();
    }
    let mut s = "{\"error\":{\"code\":null,\"message\":".to_owned();
    s.append(json_quote(message).as_str());
    s.append(",\"param\":null,\"type\":");
    s.append(json_quote(chat_error_type(status)).as_str());
    s.append("}}");
    proof {
        reveal_strlit("{\"error\":{\"code\":null,\"message\":");
        reveal_strlit(",\"param\":null,\"type\":");
        reveal_strlit("}}");
        quoted_is_one_line(message@);
        quoted_is_one_line(chat_error_type_of(status));
    }
    s
}

/// The error of the Responses interface with the given texts; `param` is itself JSON.
pub open spec fn responses_error(
    code: Seq<char>,
    message: Seq<char>,
    param: Seq<char>,
) -> Seq<char> {
    "{\"code\":"@ + quoted(code) + ",\"message\":"@ + quoted(message) + ",\"param\":"@ + param
        + ",\"sequence_number\":0,\"type\":\"error\"}"@
}

/// What a Responses error says: each of the texts of the upstream's own error, where it is there;
/// else the code for the status, the message, and `null`.
pub open spec fn responses_fields(
    own: (Option<Seq<char>>, Option<Seq<char>>, Option<Seq<char>>),
    status: u16,
    message: Seq<char>,
) -> (Seq<char>, Seq<char>, Seq<char>) {
    (
        match own.0 {
            Some(code) => code,
            None => responses_code_of(status),
        },
        match own.1 {
            Some(text) => text,
            None => message,
        },
        match own.2 {
            Some(param) => param,
            None => "null"@,
        },
    )
}

/// The data of a Responses error: made of the texts of `own`, the upstream's own error, as far as
/// they are there.
pub fn responses_payload(own: ErrorFields, status: u16, message: &str) -> (res: String)
    ensures
        res@ == ({
            let (code, text, param) = responses_fields(own@, status, message@);
            responses_error(code, text, param)
        }),
        (own.param matches Some(param) ==> is_one_line(param@)) ==> is_one_line(res@),
{
    let ghost said = responses_fields(own@, status, message@);
    let code = match own.code {
        Some(code) => code,
        None => responses_code(status).to_owned(),
    };
    let text = match own.message {
        Some(text) => text,
        None => message.to_owned(),
    };
    let param = match own.param {
        Some(param) => param,
        None => "null".to_owned(),
    };
    let mut s = "{\"code\":".to_owned();
    s.append(json_quote(code.as_str()).as_str());
    s.append(",\"message\":");
    s.append(json_quote(text.as_str()).as_str());
    s.append(",\"param\":");
    s.append(param.as_str());
    s.append(",\"sequence_number\":0,\"type\":\"error\"}");
    proof {
        assert((code@, text@, param@) == said);
        reveal_strlit("null");
        reveal_strlit("{\"code\":");
        reveal_strlit(",\"message\":");
        reveal_strlit(",\"param\":");
        reveal_strlit(",\"sequence_number\":0,\"type\":\"error\"}");
        quoted_is_one_line(code@);
        quoted_is_one_line(text@);
    }
    s
}

/// The error of the Anthropic interface for a status and a message.
pub open spec fn anthropic_error(status: u16, message: Seq<char>) -> Seq<char> {
    "{\"error\":{\"message\":"@ + quoted(message) + ",\"type\":"@ + quoted(
        anthropic_error_type_of(status),
    ) + "},\"type\":\"error\"}"@
}

/// The data of an Anthropic error: `standard`, the upstream's own error, where there is one.
pub fn anthropic_payload(standard: Option<&str>, status: u16, message: &str) -> (res: String)
    ensures
        res@ == (match str_view(standard) {
            Some(text) => text,
            None => anthropic_error(status, message@),
        }),
        standard is None ==> is_one_line(res@),
{
    if let Some(text) = standard {
        return text.to_owned();
    }
    let mut s = "{\"error\":{\"message\":".to_owned();
    s.append(json_quote(message).as_str());
    s.append(",\"type\":");
    s.append(json_quote(anthropic_error_type(status)).as_str());
    s.append("},\"type\":\"error\"}");
    proof {
        reveal_strlit("{\"error\":{\"message\":");
        reveal_strlit(",\"type\":");
        reveal_strlit("},\"type\":\"error\"}");
        quoted_is_one_line(message@);
        quoted_is_one_line(anthropic_error_type_of(status));
    }
    s
}

/// The error of the Gemini interface for a status and a message.
pub open spec fn gemini_error(status: u16, message: Seq<char>) -> Seq<char> {
    "{\"error\":{\"code\":"@ + decimal(status as nat) + ",\"message\":"@ + quoted(message)
        + ",\"status\":"@ + quoted(gemini_status_of(status)) + "}}"@
}

/// The data of a Gemini error: `standard`, the upstream's own error, where there is one.
pub fn gemini_payload(standard: Option<&str>, status: u16, message: &str) -> (res: String)
    ensures
        res@ == (match str_view(standard) {
            Some(text) => text,
            None => gemini_error(status, message@),
        }),
        standard is None ==> is_one_line(res@),
{
    if let Some(text) = standard {
        return text.to_owned();
    }
    let mut s = "{\"error\":{\"code\":".to_owned();
    s.append(decimal_text(status as u64).as_str());
    s.append(",\"message\":");
    s.append(json_quote(message).as_str());
    s.append(",\"status\":");
    s.append(json_quote(gemini_status(status)).as_str());
    s.append("}}");
    proof {
        reveal_strlit("{\"error\":{\"code\":");
        reveal_strlit(",\"message\":");
        reveal_strlit(",\"status\":");
        reveal_strlit("}}");
        lemma_decimal_is_one_line(status as nat);
        quoted_is_one_line(message@);
        quoted_is_one_line(gemini_status_of(status));
    }
    s
}

proof fn lemma_decimal_is_one_line(n: nat)
    ensures
        is_one_line(decimal(n)),
    decreases n,
{
    if n >= 10 {
        lemma_decimal_is_one_line(n / 10);
    }
}

/// The event, or for the Chat Completions interface the two events, that carry an error.
pub open spec fn framed(kind: EndpointKind, payload: Seq<char>) -> Seq<char> {
    match kind {
        EndpointKind::ChatCompletions => "data: "@ + payload + "\n\ndata: [DONE]\n\n"@,
        EndpointKind::Responses => "event: error\ndata: "@ + payload + "\n\n"@,
        EndpointKind::AnthropicMessages => "event: error\ndata: "@ + payload + "\n\n"@,
        EndpointKind::GeminiStream => "data: "@ + payload + "\n\n"@,
    }
}

/// Puts the data of an error into the events of the interface.
pub fn frame(kind: EndpointKind, payload: &str) -> (res: Vec<u8>)
    ensures
        res@ == encode_utf8(framed(kind, payload@)),
{
    let (head, tail) = match kind {
        EndpointKind::ChatCompletions => ("data: ", "\n\ndata: [DONE]\n\n"),
        EndpointKind::Responses => ("event: error\ndata: ", "\n\n"),
        EndpointKind::AnthropicMessages => ("event: error\ndata: ", "\n\n"),
        EndpointKind::GeminiStream => ("data: ", "\n\n"),
    };
    let mut s = head.to_owned();
    s.append(payload);
    s.append(tail);
    slice_to_vec(s.as_str().as_bytes())
}

/// The upstream's own error, as the reader `parsed` finds it in a body that is there and is not
/// empty.
pub open spec fn own_error<T>(
    body: Option<Seq<u8>>,
    parsed: spec_fn(Seq<u8>) -> Option<T>,
) -> Option<T> {
    match body {
        Some(b) => if b.len() > 0 {
            parsed(b)
        } else {
            None
        },
        None => None,
    }
}

/// What the upstream's own error says, as far as there is a body that is not empty.
pub open spec fn own_fields(body: Option<Seq<u8>>) -> (
    Option<Seq<char>>,
    Option<Seq<char>>,
    Option<Seq<char>>,
) {
    match body {
        Some(b) => if b.len() > 0 {
            error_fields(b)
        } else {
            (None, None, None)
        },
        None => (None, None, None),
    }
}

/// The data of the error that stands for a failed request.
pub open spec fn error_payload(
    kind: EndpointKind,
    status: Option<u16>,
    body: Option<Seq<u8>>,
    reason: Option<Seq<char>>,
) -> Seq<char> {
    let code = match status {
        Some(code) => code,
        None => BAD_GATEWAY,
    };
    let message = message_of(body, reason, code, reason_phrase(code));
    match kind {
        EndpointKind::ChatCompletions => match own_error(body, |b| top_level_error(b)) {
            Some(text) => text,
            None => chat_error(code, message),
        },
        EndpointKind::Responses => {
            let (c, m, p) = responses_fields(own_fields(body), code, message);
            responses_error(c, m, p)
        },
        EndpointKind::AnthropicMessages => match own_error(body, |b| typed_error(b)) {
            Some(text) => text,
            None => anthropic_error(code, message),
        },
        EndpointKind::GeminiStream => match own_error(body, |b| top_level_error(b)) {
            Some(text) => text,
            None => gemini_error(code, message),
        },
    }
}

/// The events that stand for a failed request.
pub open spec fn error_text(
    kind: EndpointKind,
    status: Option<u16>,
    body: Option<Seq<u8>>,
    reason: Option<Seq<char>>,
) -> Seq<char> {
    framed(kind, error_payload(kind, status, body, reason))
}

/// Builds the events that tell a client that its request failed. There is a status where the
/// upstream replied, a body where its reply was read, and a reason where there was no reply or it
/// broke off. The data of the error is always on one line.
pub fn build(
    kind: EndpointKind,
    status: Option<u16>,
    body: Option<&[u8]>,
    reason: Option<&str>,
) -> (res: Vec<u8>)
    ensures
        res@ == encode_utf8(error_text(kind, status, body_view(body), str_view(reason))),
        is_one_line(error_payload(kind, status, body_view(body), str_view(reason))),
{
    let code: u16 = match status {
        Some(code) => code,
        None => BAD_GATEWAY,
    };
    let text = message(body, reason, code);
    let filled: Option<&[u8]> = match body {
        Some(b) => if b.len() > 0 {
            Some(b)
        } else {
            None
        },
        None => None,
    };
    let payload = match kind {
        EndpointKind::Responses => {
            let own = match filled {
                Some(b) => parse_responses_error(b),
                None => ErrorFields { code: None, message: None, param: None },
            };
            responses_payload(own, code, text.as_str())
        },
        EndpointKind::AnthropicMessages => {
            let standard = match filled {
                Some(b) => parse_anthropic_error(b),
                None => None,
            };
            match standard {
                Some(t) => anthropic_payload(Some(t.as_str()), code, text.as_str()),
                None => anthropic_payload(None, code, text.as_str()),
            }
        },
        EndpointKind::ChatCompletions => {
            let standard = match filled {
                Some(b) => parse_top_level_error(b),
                None => None,
            };
            match standard {
                Some(t) => chat_payload(Some(t.as_str()), code, text.as_str()),
                None => chat_payload(None, code, text.as_str()),
            }
        },
        EndpointKind::GeminiStream => {
            let standard = match filled {
                Some(b) => parse_top_level_error(b),
                None => None,
            };
            match standard {
                Some(t) => gemini_payload(Some(t.as_str()), code, text.as_str()),
                None => gemini_payload(None, code, text.as_str()),
            }
        },
    };
    frame(kind, payload.as_str())
}

/// A message that is taken from a body is a beginning of what the body says, and takes at most
/// `MAX_MSG` bytes.
pub proof fn message_from_body_is_bounded(body: Seq<u8>, status: u16, phrase: Option<Seq<char>>)
    requires
        valid_utf8(body),
        trim(decode_utf8(body)).len() > 0,
    ensures
        message_of(Some(body), None, status, phrase).is_prefix_of(trim(decode_utf8(body))),
        encode_utf8(message_of(Some(body), None, status, phrase)).len() <= MAX_MSG,
{
    lemma_utf8_prefix(trim(decode_utf8(body)), MAX_MSG as nat);
}

/// A request that got no reply is reported as one that was answered with `BAD_GATEWAY`.
pub proof fn no_reply_counts_as_bad_gateway(
    kind: EndpointKind,
    body: Option<Seq<u8>>,
    reason: Option<Seq<char>>,
)
    ensures
        error_text(kind, None, body, reason) == error_text(kind, Some(BAD_GATEWAY), body, reason),
{
}

/// An error that the upstream already put in the manner of the interface is carried whatever the
/// status and the reason are. For the Responses interface that is one with a code and a message.
pub proof fn own_error_is_carried(
    kind: EndpointKind,
    body: Seq<u8>,
    own: Seq<char>,
    status: Option<u16>,
    reason: Option<Seq<char>>,
)
    requires
        body.len() > 0,
        match kind {
            EndpointKind::ChatCompletions => top_level_error(body) == Some(own),
            EndpointKind::Responses => {
                &&& error_fields(body).0 matches Some(code)
                &&& error_fields(body).1 matches Some(message)
                &&& own == responses_error(
                    code,
                    message,
                    match error_fields(body).2 {
                        Some(param) => param,
                        None => "null"@,
                    },
                )
            },
            EndpointKind::AnthropicMessages => typed_error(body) == Some(own),
            EndpointKind::GeminiStream => top_level_error(body) == Some(own),
        },
    ensures
        error_payload(kind, status, Some(body), reason) == own,
{
}

/// What the upstream's own error says under `message` and `param` is what a Responses error says,
/// whatever else is missing from it.
pub proof fn own_texts_are_carried(
    body: Seq<u8>,
    text: Seq<char>,
    param: Seq<char>,
    status: Option<u16>,
    reason: Option<Seq<char>>,
)
    requires
        body.len() > 0,
        json_string(body, "/error/message"@) == Some(text),
        json_text(body, "/error/param"@) == Some(param),
    ensures
        error_payload(EndpointKind::Responses, status, Some(body), reason) == responses_error(
            match json_string(body, "/error/code"@) {
                Some(code) => code,
                None => responses_code_of(
                    match status {
                        Some(code) => code,
                        None => BAD_GATEWAY,
                    },
                ),
            },
            text,
            param,
        ),
{
}

/// Behind the events of an error the stream stands at an event boundary, wherever it stood
/// before.
pub proof fn error_ends_at_boundary(before: Seq<u8>, kind: EndpointKind, payload: Seq<char>)
    ensures
        at_event_boundary(before + encode_utf8(framed(kind, payload))),
{
    let head = framed_head(kind, payload);
    lemma_framed(kind, payload);
    lemma_encode_concat(head, "\n\n"@);
    lemma_two_line_feeds();
    assert(before + encode_utf8(framed(kind, payload)) =~= before + encode_utf8(head) + seq![
        10u8,
        10u8,
    ]);
    two_line_feeds_end_an_event(before + encode_utf8(head));
}

/// What stands before the empty line that ends the events of an error.
spec fn framed_head(kind: EndpointKind, payload: Seq<char>) -> Seq<char> {
    match kind {
        EndpointKind::ChatCompletions => "data: "@ + payload + "\n\n"@ + "data: [DONE]"@,
        EndpointKind::Responses => "event: error"@ + "\n"@ + "data: "@ + payload,
        EndpointKind::AnthropicMessages => "event: error"@ + "\n"@ + "data: "@ + payload,
        EndpointKind::GeminiStream => "data: "@ + payload,
    }
}

proof fn lemma_framed(kind: EndpointKind, payload: Seq<char>)
    ensures
        framed(kind, payload) == framed_head(kind, payload) + "\n\n"@,
{
    reveal_strlit("\n\ndata: [DONE]\n\n");
    reveal_strlit("event: error\ndata: ");
    reveal_strlit("data: [DONE]");
    reveal_strlit("event: error");
    reveal_strlit("data: ");
    reveal_strlit("\n\n");
    reveal_strlit("\n");
    assert(framed(kind, payload) =~= framed_head(kind, payload) + "\n\n"@);
}

proof fn lemma_two_line_feeds()
    ensures
        encode_utf8("\n\n"@) == seq![10u8, 10u8],
        encode_utf8("\n"@) == seq![10u8],
{
    reveal_strlit("\n\n");
    reveal_strlit("\n");
    is_ascii_chars_encode_utf8("\n\n"@);
    is_ascii_chars_encode_utf8("\n"@);
    assert(encode_utf8("\n\n"@) =~= seq![10u8, 10u8]);
    assert(encode_utf8("\n"@) =~= seq![10u8]);
}

/// The line of an event that gives its data.
pub open spec fn data_line(payload: Seq<char>) -> Seq<u8> {
    encode_utf8("data: "@ + payload)
}

/// The events that a client reads from the events of an error: of each, the lines.
pub open spec fn framed_events(kind: EndpointKind, payload: Seq<char>) -> Seq<Seq<Seq<u8>>> {
    match kind {
        EndpointKind::ChatCompletions => seq![
            seq![data_line(payload)],
            seq![data_line("[DONE]"@)],
        ],
        EndpointKind::Responses => seq![seq![encode_utf8("event: error"@), data_line(payload)]],
        EndpointKind::AnthropicMessages => seq![
            seq![encode_utf8("event: error"@), data_line(payload)],
        ],
        EndpointKind::GeminiStream => seq![seq![data_line(payload)]],
    }
}

/// The encoding of one line holds no line break.
proof fn lemma_one_line_is_unbroken(s: Seq<char>)
    requires
        is_one_line(s),
    ensures
        is_unbroken(encode_utf8(s)),
    decreases s.len(),
{
    if s.len() > 0 {
        assert(s[0] != '\n' && s[0] != '\r');
        assert(is_one_line(s.drop_first())) by {
            assert forall|i: int| 0 <= i < s.drop_first().len() implies #[trigger] s.drop_first()[i]
                != '\n' && s.drop_first()[i] != '\r' by {
                assert(s.drop_first()[i] == s[i + 1]);
            }
        }
        lemma_one_line_is_unbroken(s.drop_first());
        lemma_scalar_is_unbroken(s[0]);
    }
}

proof fn lemma_scalar_is_unbroken(c: char)
    requires
        c != '\n',
        c != '\r',
    ensures
        is_unbroken(encode_scalar(c as u32)),
{
    let v = c as u32;
    assert(v != 10 && v != 13);
    assert(v <= 0x7f ==> (v & 0x7f) as u8 == v) by (bit_vector);
    assert(0x80u8 | ((v & 0x3f) as u8) >= 0x80) by (bit_vector);
    assert(0x80u8 | (((v >> 6) & 0x3f) as u8) >= 0x80) by (bit_vector);
    assert(0x80u8 | (((v >> 12) & 0x3f) as u8) >= 0x80) by (bit_vector);
    assert(0xc0u8 | (((v >> 6) & 0x1f) as u8) >= 0x80) by (bit_vector);
    assert(0xe0u8 | (((v >> 12) & 0x0f) as u8) >= 0x80) by (bit_vector);
    assert(0xf0u8 | (((v >> 18) & 0x7) as u8) >= 0x80) by (bit_vector);
}

/// The events of an error, as lines.
proof fn lemma_framed_lines(kind: EndpointKind, payload: Seq<char>)
    requires
        is_one_line(payload),
    ensures
        forall|i: int|
            0 <= i < framed_events(kind, payload).len() ==> are_event_lines(
                #[trigger] framed_events(kind, payload)[i],
            ),
        encode_utf8(framed(kind, payload)) == (match kind {
            EndpointKind::ChatCompletions => written(framed_events(kind, payload)[0]) + seq![10u8]
                + (written(framed_events(kind, payload)[1]) + seq![10u8]),
            _ => written(framed_events(kind, payload)[0]) + seq![10u8],
        }),
{
    let events = framed_events(kind, payload);
    let lf = seq![10u8];
    let data = data_line(payload);
    let done = data_line("[DONE]"@);
    let name = encode_utf8("event: error"@);
    reveal_strlit("data: ");
    reveal_strlit("[DONE]");
    reveal_strlit("data: [DONE]");
    reveal_strlit("event: error");
    is_ascii_chars_encode_utf8("data: "@);
    is_ascii_chars_encode_utf8("event: error"@);
    lemma_encode_concat("data: "@, payload);
    lemma_encode_concat("data: "@, "[DONE]"@);
    lemma_one_line_is_unbroken("data: "@ + payload);
    lemma_one_line_is_unbroken("data: "@ + "[DONE]"@);
    lemma_one_line_is_unbroken("event: error"@);
    assert(data[0] == 100 && done[0] == 100 && name[0] == 101);
    lemma_two_line_feeds();
    lemma_framed(kind, payload);
    lemma_encode_concat(framed_head(kind, payload), "\n\n"@);
    reveal_with_fuel(written, 3);
    match kind {
        EndpointKind::ChatCompletions => {
            lemma_encode_concat("data: "@ + payload + "\n\n"@, "data: [DONE]"@);
            lemma_encode_concat("data: "@ + payload, "\n\n"@);
            assert("data: [DONE]"@ =~= "data: "@ + "[DONE]"@);
            assert(written(events[0]) =~= data + lf);
            assert(written(events[1]) =~= done + lf);
            assert(encode_utf8(framed(kind, payload)) =~= (data + lf) + lf + ((done + lf) + lf));
        },
        EndpointKind::GeminiStream => {
            assert(written(events[0]) =~= data + lf);
            assert(encode_utf8(framed(kind, payload)) =~= (data + lf) + lf);
        },
        _ => {
            assert("event: error"@ + "\n"@ + "data: "@ + payload =~= "event: error"@ + "\n"@ + (
            "data: "@ + payload));
            lemma_encode_concat("event: error"@ + "\n"@, "data: "@ + payload);
            lemma_encode_concat("event: error"@, "\n"@);
            assert(written(events[0]) =~= name + lf + data + lf);
            assert(encode_utf8(framed(kind, payload)) =~= (name + lf + data + lf) + lf);
        },
    }
}

/// The events of an error, put at an event boundary, are read by the client as just those
/// events, behind all that it has read before: one event that carries the data on one line, and
/// for the Chat Completions interface the closing event too.
pub proof fn error_is_read_back(before: Seq<u8>, kind: EndpointKind, payload: Seq<char>)
    requires
        at_event_boundary(before),
        is_one_line(payload),
    ensures
        events_of(before + encode_utf8(framed(kind, payload))) == events_of(before)
            + framed_events(kind, payload),
{
    let events = framed_events(kind, payload);
    let lf = seq![10u8];
    boundary_is_between_events(before);
    lemma_framed_lines(kind, payload);
    written_event_is_read(before, events[0]);
    if kind is ChatCompletions {
        let first = before + (written(events[0]) + lf);
        written_event_is_read(first, events[1]);
        assert(before + encode_utf8(framed(kind, payload)) =~= first + (written(events[1]) + lf));
        assert(events_of(before) + events =~= events_of(before).push(events[0]).push(events[1]));
    } else {
        assert(events_of(before) + events =~= events_of(before).push(events[0]));
    }
}

} // verus!
