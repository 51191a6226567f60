//! Laws of the errors that clients are told: their texts, and the events that carry them.

use crate::boundary::at_event_boundary;
use crate::detect::EndpointKind;
use crate::error_event::{
    anthropic_error, anthropic_error_type_of, body_view, chat_error, chat_error_type_of,
    error_is_read_back, error_payload, error_text, framed, gemini_error, gemini_status_of,
    message_of, reason_phrase, responses_code_of, responses_error, responses_fields,
    status_line_of, top_level_error, typed_error, MAX_MSG,
};
use crate::headers::header_fields;
use crate::json::{is_one_line, json_string, json_text, quoted};
use crate::laws::texts::{cutting_keeps_the_most, plain_json_strings};
use crate::proxy::{error_json, is_json_error, Reply};
use crate::reading::events_of;
use crate::sse::reads_only_error;
use crate::text::{decimal, trim};
use vstd::prelude::*;
use vstd::utf8::*;

verus! {

/// The members of a JSON object in a row, each with its name and, as JSON, its value.
pub open spec fn members(list: Seq<(Seq<char>, Seq<char>)>) -> Seq<char>
    decreases list.len(),
{
    if list.len() == 0 {
        Seq::empty()
    } else {
        let last = quoted(list.last().0) + seq![':'] + list.last().1;
        if list.len() == 1 {
            last
        } else {
            members(list.drop_last()) + seq![','] + last
        }
    }
}

/// A JSON object with these members, in this order.
pub open spec fn object(list: Seq<(Seq<char>, Seq<char>)>) -> Seq<char> {
    seq!['{'] + members(list) + seq!['}']
}

proof fn lemma_one_member(a: Seq<char>, x: Seq<char>)
    ensures
        object(seq![(a, x)]) == seq!['{'] + (quoted(a) + seq![':'] + x) + seq!['}'],
{
}

proof fn lemma_two_members(a: Seq<char>, x: Seq<char>, b: Seq<char>, y: Seq<char>)
    ensures
        members(seq![(a, x), (b, y)]) == (quoted(a) + seq![':'] + x) + seq![','] + (quoted(b)
            + seq![':'] + y),
{
    let list = seq![(a, x), (b, y)];
    assert(list.drop_last() =~= seq![(a, x)]);
    assert(members(seq![(a, x)]) == quoted(a) + seq![':'] + x);
}

proof fn lemma_three_members(
    a: Seq<char>,
    x: Seq<char>,
    b: Seq<char>,
    y: Seq<char>,
    c: Seq<char>,
    z: Seq<char>,
)
    ensures
        members(seq![(a, x), (b, y), (c, z)]) == (quoted(a) + seq![':'] + x) + seq![','] + (quoted(b)
            + seq![':'] + y) + seq![','] + (quoted(c) + seq![':'] + z),
{
    let list = seq![(a, x), (b, y), (c, z)];
    assert(list.drop_last() =~= seq![(a, x), (b, y)]);
    lemma_two_members(a, x, b, y);
}

proof fn lemma_four_members(
    a: Seq<char>,
    x: Seq<char>,
    b: Seq<char>,
    y: Seq<char>,
    c: Seq<char>,
    z: Seq<char>,
    d: Seq<char>,
    w: Seq<char>,
)
    ensures
        members(seq![(a, x), (b, y), (c, z), (d, w)]) == (quoted(a) + seq![':'] + x) + seq![','] + (
        quoted(b) + seq![':'] + y) + seq![','] + (quoted(c) + seq![':'] + z) + seq![','] + (quoted(d)
            + seq![':'] + w),
{
    let list = seq![(a, x), (b, y), (c, z), (d, w)];
    assert(list.drop_last() =~= seq![(a, x), (b, y), (c, z)]);
    lemma_three_members(a, x, b, y, c, z);
}

proof fn lemma_five_members(
    a: Seq<char>,
    x: Seq<char>,
    b: Seq<char>,
    y: Seq<char>,
    c: Seq<char>,
    z: Seq<char>,
    d: Seq<char>,
    w: Seq<char>,
    e: Seq<char>,
    v: Seq<char>,
)
    ensures
        members(seq![(a, x), (b, y), (c, z), (d, w), (e, v)]) == (quoted(a) + seq![':'] + x)
            + seq![','] + (quoted(b) + seq![':'] + y) + seq![','] + (quoted(c) + seq![':'] + z)
            + seq![','] + (quoted(d) + seq![':'] + w) + seq![','] + (quoted(e) + seq![':'] + v),
{
    let list = seq![(a, x), (b, y), (c, z), (d, w), (e, v)];
    assert(list.drop_last() =~= seq![(a, x), (b, y), (c, z), (d, w)]);
    lemma_four_members(a, x, b, y, c, z, d, w);
}

proof fn lemma_member_names()
    ensures
        quoted("error"@) == "\"error\""@,
        quoted("code"@) == "\"code\""@,
        quoted("message"@) == "\"message\""@,
        quoted("param"@) == "\"param\""@,
        quoted("type"@) == "\"type\""@,
        quoted("status"@) == "\"status\""@,
        quoted("sequence_number"@) == "\"sequence_number\""@,
{
    reveal_strlit("error");
    reveal_strlit("code");
    reveal_strlit("message");
    reveal_strlit("param");
    reveal_strlit("type");
    reveal_strlit("status");
    reveal_strlit("sequence_number");
    plain_json_strings("error"@);
    plain_json_strings("code"@);
    plain_json_strings("message"@);
    plain_json_strings("param"@);
    plain_json_strings("type"@);
    plain_json_strings("status"@);
    plain_json_strings("sequence_number"@);
    reveal_strlit("\"error\"");
    reveal_strlit("\"code\"");
    reveal_strlit("\"message\"");
    reveal_strlit("\"param\"");
    reveal_strlit("\"type\"");
    reveal_strlit("\"status\"");
    reveal_strlit("\"sequence_number\"");
    assert(quoted("error"@) =~= "\"error\""@);
    assert(quoted("code"@) =~= "\"code\""@);
    assert(quoted("message"@) =~= "\"message\""@);
    assert(quoted("param"@) =~= "\"param\""@);
    assert(quoted("type"@) =~= "\"type\""@);
    assert(quoted("status"@) =~= "\"status\""@);
    assert(quoted("sequence_number"@) =~= "\"sequence_number\""@);
}

/// A Chat Completions error is an object whose one member, the error, holds a message, a type, and
/// neither code nor parameter.
pub proof fn chat_errors_as_objects(status: u16, message: Seq<char>)
    ensures
        chat_error(status, message) == object(
            seq![
                (
                    "error"@,
                    object(
                        seq![
                            ("code"@, "null"@),
                            ("message"@, quoted(message)),
                            ("param"@, "null"@),
                            ("type"@, quoted(chat_error_type_of(status))),
                        ],
                    ),
                ),
            ],
        ),
{
    let kind = quoted(chat_error_type_of(status));
    lemma_member_names();
    lemma_four_members(
        "code"@,
        "null"@,
        "message"@,
        quoted(message),
        "param"@,
        "null"@,
        "type"@,
        kind,
    );
    let inner = object(
        seq![
            ("code"@, "null"@),
            ("message"@, quoted(message)),
            ("param"@, "null"@),
            ("type"@, kind),
        ],
    );
    lemma_one_member("error"@, inner);
    reveal_strlit("null");
    reveal_strlit("\"error\"");
    reveal_strlit("\"code\"");
    reveal_strlit("\"message\"");
    reveal_strlit("\"param\"");
    reveal_strlit("\"type\"");
    reveal_strlit("{\"error\":{\"code\":null,\"message\":");
    reveal_strlit(",\"param\":null,\"type\":");
    reveal_strlit("}}");
    assert(chat_error(status, message) =~= object(seq![("error"@, inner)]));
}

/// A Responses error is an object with a code, a message, a parameter, the sequence number zero and
/// the type `error`.
pub proof fn responses_errors_as_objects(code: Seq<char>, message: Seq<char>, param: Seq<char>)
    ensures
        responses_error(code, message, param) == object(
            seq![
                ("code"@, quoted(code)),
                ("message"@, quoted(message)),
                ("param"@, param),
                ("sequence_number"@, decimal(0)),
                ("type"@, quoted("error"@)),
            ],
        ),
{
    lemma_member_names();
    lemma_five_members(
        "code"@,
        quoted(code),
        "message"@,
        quoted(message),
        "param"@,
        param,
        "sequence_number"@,
        decimal(0),
        "type"@,
        quoted("error"@),
    );
    reveal_strlit("\"error\"");
    reveal_strlit("\"code\"");
    reveal_strlit("\"message\"");
    reveal_strlit("\"param\"");
    reveal_strlit("\"type\"");
    reveal_strlit("\"sequence_number\"");
    reveal_strlit("{\"code\":");
    reveal_strlit(",\"message\":");
    reveal_strlit(",\"param\":");
    reveal_strlit(",\"sequence_number\":0,\"type\":\"error\"}");
    assert(decimal(0) =~= seq!['0']);
    assert(responses_error(code, message, param) =~= object(
        seq![
            ("code"@, quoted(code)),
            ("message"@, quoted(message)),
            ("param"@, param),
            ("sequence_number"@, decimal(0)),
            ("type"@, quoted("error"@)),
        ],
    ));
}

/// An Anthropic error is an object of the type `error` whose error holds a message and a type.
pub proof fn anthropic_errors_as_objects(status: u16, message: Seq<char>)
    ensures
        anthropic_error(status, message) == object(
            seq![
                (
                    "error"@,
                    object(
                        seq![
                            ("message"@, quoted(message)),
                            ("type"@, quoted(anthropic_error_type_of(status))),
                        ],
                    ),
                ),
                ("type"@, quoted("error"@)),
            ],
        ),
{
    let kind = quoted(anthropic_error_type_of(status));
    lemma_member_names();
    lemma_two_members("message"@, quoted(message), "type"@, kind);
    let inner = object(seq![("message"@, quoted(message)), ("type"@, kind)]);
    lemma_two_members("error"@, inner, "type"@, quoted("error"@));
    reveal_strlit("\"error\"");
    reveal_strlit("\"message\"");
    reveal_strlit("\"type\"");
    reveal_strlit("{\"error\":{\"message\":");
    reveal_strlit(",\"type\":");
    reveal_strlit("},\"type\":\"error\"}");
    assert(anthropic_error(status, message) =~= object(
        seq![("error"@, inner), ("type"@, quoted("error"@))],
    ));
}

/// A Gemini error is an object whose one member, the error, holds the status code as a number, a
/// message and a state.
pub proof fn gemini_errors_as_objects(status: u16, message: Seq<char>)
    ensures
        gemini_error(status, message) == object(
            seq![
                (
                    "error"@,
                    object(
                        seq![
                            ("code"@, decimal(status as nat)),
                            ("message"@, quoted(message)),
                            ("status"@, quoted(gemini_status_of(status))),
                        ],
                    ),
                ),
            ],
        ),
{
    let state = quoted(gemini_status_of(status));
    lemma_member_names();
    lemma_three_members(
        "code"@,
        decimal(status as nat),
        "message"@,
        quoted(message),
        "status"@,
        state,
    );
    let inner = object(
        seq![
            ("code"@, decimal(status as nat)),
            ("message"@, quoted(message)),
            ("status"@, state),
        ],
    );
    lemma_one_member("error"@, inner);
    reveal_strlit("\"error\"");
    reveal_strlit("\"code\"");
    reveal_strlit("\"message\"");
    reveal_strlit("\"status\"");
    reveal_strlit("{\"error\":{\"code\":");
    reveal_strlit(",\"message\":");
    reveal_strlit(",\"status\":");
    reveal_strlit("}}");
    assert(gemini_error(status, message) =~= object(seq![("error"@, inner)]));
}

/// The gateway's own JSON errors are objects whose one member, the error, holds a message and a
/// type.
pub proof fn own_errors_as_objects(message: Seq<char>, kind: Seq<char>)
    ensures
        error_json(message, kind) == object(
            seq![
                ("error"@, object(seq![("message"@, quoted(message)), ("type"@, quoted(kind))])),
            ],
        ),
{
    lemma_member_names();
    lemma_two_members("message"@, quoted(message), "type"@, quoted(kind));
    let inner = object(seq![("message"@, quoted(message)), ("type"@, quoted(kind))]);
    lemma_one_member("error"@, inner);
    reveal_strlit("\"error\"");
    reveal_strlit("\"message\"");
    reveal_strlit("\"type\"");
    reveal_strlit("{\"error\":{\"message\":");
    reveal_strlit(",\"type\":");
    reveal_strlit("}}");
    assert(error_json(message, kind) =~= object(seq![("error"@, inner)]));
}

/// A reply that carries an error as JSON has the status, the type of JSON as its only field, and
/// the error as its body.
pub proof fn replies_with_errors(
    reply: Reply,
    status: u16,
    message: Seq<char>,
    kind: Seq<char>,
    name: Seq<char>,
)
    requires
        is_json_error(reply, status, message, kind),
    ensures
        reply.status == status,
        header_fields(reply.headers).dom().contains(name) <==> name == "content-type"@,
        header_fields(reply.headers)["content-type"@] == seq![encode_utf8("application/json"@)],
        reply.body@ == encode_utf8(error_json(message, kind)),
{
}

/// Chat Completions clients are told of a rate limit by status 429, of a bad request by any other
/// client error, and of a server error by everything else.
pub proof fn chat_types_by_status(status: u16)
    ensures
        status == 429 ==> chat_error_type_of(status) == "rate_limit_error"@,
        status / 100 == 4 && status != 429 ==> chat_error_type_of(status)
            == "invalid_request_error"@,
        status / 100 != 4 ==> chat_error_type_of(status) == "server_error"@,
{
}

/// Responses clients are told of a rate limit by status 429, of a server error by any server error,
/// and of a bad request by everything else.
pub proof fn responses_codes_by_status(status: u16)
    ensures
        status == 429 ==> responses_code_of(status) == "rate_limit_exceeded"@,
        status / 100 == 5 ==> responses_code_of(status) == "server_error"@,
        status / 100 != 5 && status != 429 ==> responses_code_of(status)
            == "invalid_request_error"@,
{
}

/// Anthropic clients are told a type of its own for seven statuses, and `api_error` for the others.
pub proof fn anthropic_types_by_status(status: u16)
    ensures
        status == 400 ==> anthropic_error_type_of(status) == "invalid_request_error"@,
        status == 401 ==> anthropic_error_type_of(status) == "authentication_error"@,
        status == 403 ==> anthropic_error_type_of(status) == "permission_error"@,
        status == 404 ==> anthropic_error_type_of(status) == "not_found_error"@,
        status == 413 ==> anthropic_error_type_of(status) == "request_too_large"@,
        status == 429 ==> anthropic_error_type_of(status) == "rate_limit_error"@,
        status == 529 ==> anthropic_error_type_of(status) == "overloaded_error"@,
        ![400u16, 401, 403, 404, 413, 429, 529]@.contains(status) ==> anthropic_error_type_of(status)
            == "api_error"@,
{
    let known = [400u16, 401, 403, 404, 413, 429, 529]@;
    assert(known[0] == 400 && known[1] == 401 && known[2] == 403 && known[3] == 404 && known[4]
        == 413 && known[5] == 429 && known[6] == 529);
}

/// Gemini clients are told a state of its own for eight statuses, and `UNKNOWN` for the others.
pub proof fn gemini_states_by_status(status: u16)
    ensures
        status == 400 ==> gemini_status_of(status) == "INVALID_ARGUMENT"@,
        status == 401 ==> gemini_status_of(status) == "UNAUTHENTICATED"@,
        status == 403 ==> gemini_status_of(status) == "PERMISSION_DENIED"@,
        status == 404 ==> gemini_status_of(status) == "NOT_FOUND"@,
        status == 429 ==> gemini_status_of(status) == "RESOURCE_EXHAUSTED"@,
        status == 500 ==> gemini_status_of(status) == "INTERNAL"@,
        status == 503 ==> gemini_status_of(status) == "UNAVAILABLE"@,
        status == 504 ==> gemini_status_of(status) == "DEADLINE_EXCEEDED"@,
        ![400u16, 401, 403, 404, 429, 500, 503, 504]@.contains(status) ==> gemini_status_of(status)
            == "UNKNOWN"@,
{
    let known = [400u16, 401, 403, 404, 429, 500, 503, 504]@;
    assert(known[0] == 400 && known[1] == 401 && known[2] == 403 && known[3] == 404 && known[4]
        == 429 && known[5] == 500 && known[6] == 503 && known[7] == 504);
}

/// A status line is the code, a space, and the phrase of the code, or `Bad Gateway` where it has
/// none.
pub proof fn status_lines(code: u16, phrase: Seq<char>)
    ensures
        status_line_of(code, Some(phrase)) == decimal(code as nat) + seq![' '] + phrase,
        status_line_of(code, None) == status_line_of(code, Some("Bad Gateway"@)),
{
    reveal_strlit(" ");
    assert(" "@ =~= seq![' ']);
}

/// Where the reason of a failure is known, the message is that reason, whatever else there is.
pub proof fn reasons_go_first(
    body: Option<Seq<u8>>,
    reason: Seq<char>,
    status: u16,
    phrase: Option<Seq<char>>,
)
    ensures
        message_of(body, Some(reason), status, phrase) == "upstream request failed: "@ + reason,
{
}

/// Without a reason the message is what the body says, trimmed: all of it where that takes at most
/// 4096 bytes, and else the longest beginning of it that does.
pub proof fn bodies_speak_for_themselves(
    body: Seq<u8>,
    status: u16,
    phrase: Option<Seq<char>>,
    other: Seq<char>,
)
    requires
        valid_utf8(body),
        trim(decode_utf8(body)).len() > 0,
        other.is_prefix_of(trim(decode_utf8(body))),
        encode_utf8(other).len() <= 4096,
    ensures
        message_of(Some(body), None, status, phrase).is_prefix_of(trim(decode_utf8(body))),
        encode_utf8(message_of(Some(body), None, status, phrase)).len() <= 4096,
        other.len() <= message_of(Some(body), None, status, phrase).len(),
        MAX_MSG == 4096,
{
    cutting_keeps_the_most(trim(decode_utf8(body)), 4096, other);
}

/// Without a reason and without a body that says anything, the message is the status line.
pub proof fn silent_bodies_leave_the_status(
    body: Option<Seq<u8>>,
    status: u16,
    phrase: Option<Seq<char>>,
)
    requires
        body matches Some(b) ==> !valid_utf8(b) || trim(decode_utf8(b)).len() == 0,
    ensures
        message_of(body, None, status, phrase) == status_line_of(status, phrase),
{
}

/// A body is an error of the interface if it is JSON with a member `error`, and for the Anthropic
/// interface also of the type `error`; it is then told as it is, on one line.
pub proof fn own_errors_by_their_members(body: Seq<u8>, text: Seq<char>)
    ensures
        top_level_error(body) == Some(text) <==> json_text(body, "/error"@) is Some && json_text(
            body,
            ""@,
        ) == Some(text),
        typed_error(body) == Some(text) <==> json_text(body, "/error"@) is Some && json_text(
            body,
            ""@,
        ) == Some(text) && json_string(body, "/type"@) == Some("error"@),
{
}

/// Optional bodies are there with their bytes, or are not there.
pub proof fn optional_bodies(body: &[u8])
    ensures
        body_view(Some(body)) == Some(body@),
        body_view(None) is None,
{
}

/// What a Responses error says, member by member: what the upstream's error says where it does, and
/// else what the gateway says.
pub proof fn responses_members(
    own: (Option<Seq<char>>, Option<Seq<char>>, Option<Seq<char>>),
    status: u16,
    message: Seq<char>,
)
    ensures
        own.0 matches Some(code) ==> responses_fields(own, status, message).0 == code,
        own.0 is None ==> responses_fields(own, status, message).0 == responses_code_of(status),
        own.1 matches Some(text) ==> responses_fields(own, status, message).1 == text,
        own.1 is None ==> responses_fields(own, status, message).1 == message,
        own.2 matches Some(param) ==> responses_fields(own, status, message).2 == param,
        own.2 is None ==> responses_fields(own, status, message).2 == "null"@,
{
}

/// Chat Completions, Gemini and Anthropic clients are told the upstream's own error where its body
/// is one.
pub proof fn own_errors_are_told(
    body: Seq<u8>,
    whole: Seq<char>,
    status: Option<u16>,
    reason: Option<Seq<char>>,
)
    requires
        body.len() > 0,
        json_text(body, ""@) == Some(whole),
        json_text(body, "/error"@) is Some,
    ensures
        error_payload(EndpointKind::ChatCompletions, status, Some(body), reason) == whole,
        error_payload(EndpointKind::GeminiStream, status, Some(body), reason) == whole,
        json_string(body, "/type"@) == Some("error"@) ==> error_payload(
            EndpointKind::AnthropicMessages,
            status,
            Some(body),
            reason,
        ) == whole,
{
}

/// Where the body is no error of the interface, clients are told one that is made up of the status,
/// which is 502 where there was no reply, and the message.
pub proof fn other_errors_are_made_up(
    status: Option<u16>,
    body: Option<Seq<u8>>,
    reason: Option<Seq<char>>,
)
    requires
        body matches Some(b) ==> b.len() == 0 || json_text(b, "/error"@) is None,
    ensures
        ({
            let code = match status {
                Some(code) => code,
                None => 502u16,
            };
            let message = message_of(body, reason, code, reason_phrase(code));
            &&& error_payload(EndpointKind::ChatCompletions, status, body, reason) == chat_error(
                code,
                message,
            )
            &&& error_payload(EndpointKind::AnthropicMessages, status, body, reason)
                == anthropic_error(code, message)
            &&& error_payload(EndpointKind::GeminiStream, status, body, reason) == gemini_error(
                code,
                message,
            )
        }),
{
}

/// An Anthropic client is told a made-up error also where the body is not of the type `error`.
pub proof fn untyped_errors_are_made_up(
    body: Seq<u8>,
    status: u16,
    reason: Option<Seq<char>>,
)
    requires
        json_string(body, "/type"@) != Some("error"@),
    ensures
        error_payload(EndpointKind::AnthropicMessages, Some(status), Some(body), reason)
            == anthropic_error(
            status,
            message_of(Some(body), reason, status, reason_phrase(status)),
        ),
{
}

/// A Responses client is told each member of the upstream's own error that is there, and for the
/// others what is made up of the status and the message.
pub proof fn responses_errors_are_filled_in(
    status: u16,
    body: Seq<u8>,
    reason: Option<Seq<char>>,
    code: Seq<char>,
    text: Seq<char>,
    param: Seq<char>,
)
    requires
        body.len() > 0,
        json_string(body, "/error/code"@) == Some(code) || (json_string(body, "/error/code"@)
            is None && code == responses_code_of(status)),
        json_string(body, "/error/message"@) == Some(text) || (json_string(body, "/error/message"@)
            is None && text == message_of(Some(body), reason, status, reason_phrase(status))),
        json_text(body, "/error/param"@) == Some(param) || (json_text(body, "/error/param"@) is None
            && param == "null"@),
    ensures
        error_payload(EndpointKind::Responses, Some(status), Some(body), reason)
            == responses_error(code, text, param),
{
}

/// A Responses client whose request got no body, or an empty one, is told what is made up of the
/// status, which is 502 where there was no reply, and the message.
pub proof fn responses_errors_without_a_body(
    status: Option<u16>,
    body: Option<Seq<u8>>,
    reason: Option<Seq<char>>,
)
    requires
        body matches Some(b) ==> b.len() == 0,
    ensures
        ({
            let code = match status {
                Some(code) => code,
                None => 502u16,
            };
            error_payload(EndpointKind::Responses, status, body, reason) == responses_error(
                responses_code_of(code),
                message_of(body, reason, code, reason_phrase(code)),
                "null"@,
            )
        }),
{
}

/// The client reads an error as one event with the data on one line: for the Chat Completions and
/// Gemini interfaces the data alone, for the others behind the event's name `error`. Only Chat
/// Completions has a second event, which ends the stream.
pub proof fn errors_as_the_client_reads_them(
    before: Seq<u8>,
    payload: Seq<char>,
    status: Option<u16>,
    body: Option<Seq<u8>>,
    reason: Option<Seq<char>>,
)
    requires
        at_event_boundary(before),
        is_one_line(payload),
    ensures
        events_of(before + encode_utf8(framed(EndpointKind::ChatCompletions, payload)))
            == events_of(before).push(seq![encode_utf8("data: "@ + payload)]).push(
            seq![encode_utf8("data: [DONE]"@)],
        ),
        events_of(before + encode_utf8(framed(EndpointKind::Responses, payload))) == events_of(
            before,
        ).push(seq![encode_utf8("event: error"@), encode_utf8("data: "@ + payload)]),
        events_of(before + encode_utf8(framed(EndpointKind::AnthropicMessages, payload)))
            == events_of(before).push(
            seq![encode_utf8("event: error"@), encode_utf8("data: "@ + payload)],
        ),
        events_of(before + encode_utf8(framed(EndpointKind::GeminiStream, payload))) == events_of(
            before,
        ).push(seq![encode_utf8("data: "@ + payload)]),
        forall|kind: EndpointKind| #[trigger]
            error_text(kind, status, body, reason) == framed(
                kind,
                error_payload(kind, status, body, reason),
            ),
{
    error_is_read_back(before, EndpointKind::ChatCompletions, payload);
    error_is_read_back(before, EndpointKind::Responses, payload);
    error_is_read_back(before, EndpointKind::AnthropicMessages, payload);
    error_is_read_back(before, EndpointKind::GeminiStream, payload);
    reveal_strlit("data: ");
    reveal_strlit("[DONE]");
    reveal_strlit("data: [DONE]");
    assert("data: "@ + "[DONE]"@ =~= "data: [DONE]"@);
    let read = events_of(before);
    let data = seq![encode_utf8("data: "@ + payload)];
    let done = seq![encode_utf8("data: [DONE]"@)];
    let named = seq![encode_utf8("event: error"@), encode_utf8("data: "@ + payload)];
    assert(read + seq![data, done] =~= read.push(data).push(done));
    assert(read + seq![named] =~= read.push(named));
    assert(read + seq![data] =~= read.push(data));
}

/// The bytes of an error's events, for each interface.
pub proof fn errors_byte_by_byte(payload: Seq<char>)
    ensures
        framed(EndpointKind::ChatCompletions, payload) == "data: "@ + payload
            + "\n\ndata: [DONE]\n\n"@,
        framed(EndpointKind::GeminiStream, payload) == "data: "@ + payload + "\n\n"@,
        framed(EndpointKind::Responses, payload) == "event: error\ndata: "@ + payload + "\n\n"@,
        framed(EndpointKind::AnthropicMessages, payload) == framed(
            EndpointKind::Responses,
            payload,
        ),
{
}

/// Where nothing but heartbeats were sent before, the client has in the end read one error, as one
/// event, or for Chat Completions two.
pub proof fn one_error_is_all_that_is_read(sent: Seq<u8>, kind: EndpointKind, payload: Seq<char>)
    requires
        reads_only_error(sent, kind, payload),
    ensures
        events_of(sent + encode_utf8(framed(kind, payload))) == (match kind {
            EndpointKind::ChatCompletions => seq![
                seq![encode_utf8("data: "@ + payload)],
                seq![encode_utf8("data: [DONE]"@)],
            ],
            EndpointKind::GeminiStream => seq![seq![encode_utf8("data: "@ + payload)]],
            _ => seq![seq![encode_utf8("event: error"@), encode_utf8("data: "@ + payload)]],
        }),
{
    reveal_strlit("data: ");
    reveal_strlit("[DONE]");
    reveal_strlit("data: [DONE]");
    assert("data: "@ + "[DONE]"@ =~= "data: [DONE]"@);
}

} // verus!
