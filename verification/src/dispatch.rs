//! Which path a request takes through the gateway: the streamed one or the transparent one.

use crate::detect::{
    accepts_event_stream, asks_for_sse, asks_for_stream, endpoint_of, lemma_one_interface,
    match_endpoint, opens_object, wants_event_stream, EndpointKind,
};
use crate::encoding::{
    declared_coding, decode_bytes, decoder_read, parse_content_encoding, read_limit, within_limit,
};
use crate::headers::{field_text, first_text, header_text, values_of};
use crate::proxy::{is_json_error, json_error, Reply};
use crate::text::{parse_size, size_value, str_view, trim};
use http::HeaderMap;
use vstd::prelude::*;
use vstd::slice::slice_to_vec;

verus! {

/// What the head of a request says of its path through the gateway.
#[derive(Debug, Clone, Copy, PartialEq, Eq, Structural)]
pub enum Route {
    /// It is passed on as it is.
    Transparent,
    /// It addresses an interface, and its body is read ahead.
    Candidate(EndpointKind),
}

/// The length that a request declares for its body, where it declares one that is a number.
pub open spec fn declared_length(headers: HeaderMap) -> Option<usize> {
    match field_text(headers, "content-length"@) {
        Some(t) => size_value(t),
        None => None,
    }
}

/// The request declares a body of more than `max` bytes.
pub open spec fn is_too_long(headers: HeaderMap, max: usize) -> bool {
    declared_length(headers) matches Some(n) && n > max
}

/// What the head of a request says of its path: a request that addresses an interface is a
/// candidate for the streamed path, unless it declares too long a body.
pub open spec fn route_of(
    method: Seq<char>,
    path: Seq<char>,
    query: Option<Seq<char>>,
    headers: HeaderMap,
    max_probe_body: usize,
) -> Route {
    match endpoint_of(method, path, query) {
        Some(kind) => if is_too_long(headers, max_probe_body) {
            Route::Transparent
        } else {
            Route::Candidate(kind)
        },
        None => Route::Transparent,
    }
}

/// Decides on a request by its head.
pub fn route_request(
    method: &str,
    path: &str,
    query: Option<&str>,
    headers: &HeaderMap,
    max_probe_body: usize,
) -> (res: Route)
    ensures
        res == route_of(method@, path@, str_view(query), *headers, max_probe_body),
{
    match match_endpoint(method, path, query) {
        Some(kind) => {
            if let Some(text) = first_text(headers, "content-length") {
                if let Some(length) = parse_size(text.as_str()) {
                    if length > max_probe_body {
                        return Route::Transparent;
                    }
                }
            }
            Route::Candidate(kind)
        },
        None => Route::Transparent,
    }
}

/// The reply to a request whose body turned out to be longer than is read ahead.
pub fn response_413() -> (res: Reply)
    ensures
        is_json_error(
            res,
            413,
            "request body exceeds max-probe-body limit"@,
            "invalid_request_error"@,
        ),
{
    json_error(413, "request body exceeds max-probe-body limit", "invalid_request_error")
}

/// The reply to a request whose body could not be read.
pub fn response_400() -> (res: Reply)
    ensures
        is_json_error(res, 400, "failed to read request body"@, "invalid_request_error"@),
{
    json_error(400, "failed to read request body", "invalid_request_error")
}

/// Why a body was not read ahead.
#[derive(Debug, Clone, Copy, PartialEq, Eq, Structural)]
pub enum CollectError {
    /// It is longer than is read ahead.
    TooLong,
    /// It could not be read.
    Unreadable,
}

/// Refuses a candidate whose body was not read ahead.
pub fn refuse(error: CollectError) -> (res: Reply)
    ensures
        match error {
            CollectError::TooLong => is_json_error(
                res,
                413,
                "request body exceeds max-probe-body limit"@,
                "invalid_request_error"@,
            ),
            CollectError::Unreadable => is_json_error(
                res,
                400,
                "failed to read request body"@,
                "invalid_request_error"@,
            ),
        },
{
    match error {
        CollectError::TooLong => response_413(),
        CollectError::Unreadable => response_400(),
    }
}

/// What becomes of a candidate whose body was read.
pub enum BodyRoute {
    /// It takes the streamed path.
    Stream,
    /// It takes the streamed path if these bytes, read as JSON, ask for a streamed reply.
    Probe(Vec<u8>),
}

/// What becomes of a candidate whose body was read, over bytes.
pub enum BodyRouteView {
    /// It takes the streamed path.
    Stream,
    /// It takes the streamed path if these bytes, read as JSON, ask for a streamed reply.
    Probe(Seq<u8>),
}

impl View for BodyRoute {
    type V = BodyRouteView;

    open spec fn view(&self) -> BodyRouteView {
        match *self {
            BodyRoute::Stream => BodyRouteView::Stream,
            BodyRoute::Probe(bytes) => BodyRouteView::Probe(bytes@),
        }
    }
}

/// The bytes to look for the request's wish in: the decoded body; nothing, where that fails or
/// gives more than `max` bytes; the body itself, where its coding cannot be read.
pub open spec fn probed_bytes(headers: HeaderMap, body: Seq<u8>, max: usize) -> Seq<u8> {
    match declared_coding(headers) {
        Some(coding) => match within_limit(decoder_read(coding, body, read_limit(max)), max) {
            Ok(bytes) => bytes,
            Err(_) => Seq::empty(),
        },
        None => body,
    }
}

/// What becomes of a candidate whose body was read: a request to the Gemini interface, and one
/// that asks for an event stream in its head, take the streamed path; the others are probed.
pub open spec fn body_route_of(
    kind: EndpointKind,
    headers: HeaderMap,
    body: Seq<u8>,
    max_probe_body: usize,
) -> BodyRouteView {
    if kind == EndpointKind::GeminiStream || wants_event_stream(headers) {
        BodyRouteView::Stream
    } else {
        BodyRouteView::Probe(probed_bytes(headers, body, max_probe_body))
    }
}

/// Decides on a candidate whose body was read.
pub fn route_body(
    kind: EndpointKind,
    headers: &HeaderMap,
    body: &[u8],
    max_probe_body: usize,
) -> (res: BodyRoute)
    ensures
        res@ == body_route_of(kind, *headers, body@, max_probe_body),
{
    if kind == EndpointKind::GeminiStream || accepts_event_stream(headers) {
        return BodyRoute::Stream;
    }
    match parse_content_encoding(headers) {
        Some(coding) => match decode_bytes(coding, body, max_probe_body) {
            Ok(bytes) => BodyRoute::Probe(bytes),
            Err(_) => {
                let nothing: Vec<u8> = Vec::new();
                assert(nothing@ =~= Seq::empty());
                BodyRoute::Probe(nothing)
            },
        },
        None => BodyRoute::Probe(slice_to_vec(body)),
    }
}

/// The request takes the streamed path. `says` is a way to read JSON: what it finds in bytes under
/// the name `stream`, as [`asks_for_stream`] takes it.
pub open spec fn takes_streamed_path(
    method: Seq<char>,
    path: Seq<char>,
    query: Option<Seq<char>>,
    headers: HeaderMap,
    body: Seq<u8>,
    max_probe_body: usize,
    says: spec_fn(Seq<u8>) -> Option<bool>,
) -> bool {
    match route_of(method, path, query, headers, max_probe_body) {
        Route::Transparent => false,
        Route::Candidate(kind) => match body_route_of(kind, headers, body, max_probe_body) {
            BodyRouteView::Stream => true,
            BodyRouteView::Probe(bytes) => asks_for_stream(bytes, says(bytes)),
        },
    }
}

/// A request takes the streamed path exactly when it is a POST request whose declared length is
/// not too long, and either its path ends as that of one of the first three interfaces and it
/// asks for streaming in its body, decoded, or in its head, or its path ends as that of the Gemini
/// interface and its query asks for events. Every other request is passed on as it is. This holds
/// for every way to read JSON.
pub proof fn streamed_path_condition(
    method: Seq<char>,
    path: Seq<char>,
    query: Option<Seq<char>>,
    headers: HeaderMap,
    body: Seq<u8>,
    max_probe_body: usize,
    says: spec_fn(Seq<u8>) -> Option<bool>,
)
    ensures
        takes_streamed_path(method, path, query, headers, body, max_probe_body, says) <==> {
            let bytes = probed_bytes(headers, body, max_probe_body);
            let lengths = values_of(headers, "content-length"@);
            let accepted = values_of(headers, "accept"@);
            &&& method == "POST"@
            &&& !(lengths.len() > 0 && (header_text(lengths[0]) matches Some(t) && (size_value(t)
                matches Some(n) && n > max_probe_body)))
            &&& {
                ||| {
                    &&& "/chat/completions"@.is_suffix_of(path) || "/responses"@.is_suffix_of(path)
                        || "/messages"@.is_suffix_of(path)
                    &&& {
                        ||| opens_object(bytes) && says(bytes) == Some(true)
                        ||| {
                            &&& accepted.len() == 1
                            &&& header_text(accepted[0]) matches Some(t)
                            &&& trim(t) == "text/event-stream"@
                        }
                    }
                }
                ||| {
                    &&& ":streamGenerateContent"@.is_suffix_of(path)
                    &&& query is Some && asks_for_sse(query->0)
                }
            }
        },
{
    lemma_one_interface(path);
}

/// A body that cannot be decoded, or that decodes to more than `max_probe_body` bytes, asks for
/// nothing, however JSON is read.
pub proof fn undecodable_body_asks_for_nothing(
    headers: HeaderMap,
    body: Seq<u8>,
    max_probe_body: usize,
    stream: Option<bool>,
)
    requires
        declared_coding(headers) matches Some(coding) && within_limit(
            decoder_read(coding, body, read_limit(max_probe_body)),
            max_probe_body,
        ) is Err,
    ensures
        !asks_for_stream(probed_bytes(headers, body, max_probe_body), stream),
{
}

} // verus!
