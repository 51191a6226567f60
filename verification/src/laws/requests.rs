//! Laws of requests: which of them ask for a streamed reply, and how their bodies are read.

use crate::detect::{
    asks_for_sse, asks_for_stream, endpoint_of, lemma_one_interface, opens_object,
    wants_event_stream, EndpointKind,
};
use crate::dispatch::{
    body_route_of, declared_length, is_too_long, probed_bytes, route_of, takes_streamed_path,
    BodyRouteView, Route,
};
use crate::encoding::{
    brotli_read, bytes_view, coding_of, declared_coding, decoded_view, decoder_read, gzip_read,
    read_limit, within_limit, zlib_read, zstd_read, Coding, DecodeError,
};
use crate::headers::{header_text, values_of};
use crate::text::{list_items, lower, size_value, split, trim};
use http::HeaderMap;
use vstd::prelude::*;

verus! {

/// A request addresses an interface by its method and the end of its path, and the Gemini
/// interface by its query too; none of them gets the requests of another.
pub proof fn interface_by_path(method: Seq<char>, path: Seq<char>, query: Option<Seq<char>>)
    ensures
        endpoint_of(method, path, query) == Some(EndpointKind::ChatCompletions) <==> method
            == "POST"@ && "/chat/completions"@.is_suffix_of(path),
        endpoint_of(method, path, query) == Some(EndpointKind::Responses) <==> method == "POST"@
            && "/responses"@.is_suffix_of(path),
        endpoint_of(method, path, query) == Some(EndpointKind::AnthropicMessages) <==> method
            == "POST"@ && "/messages"@.is_suffix_of(path),
        endpoint_of(method, path, query) == Some(EndpointKind::GeminiStream) <==> method == "POST"@
            && ":streamGenerateContent"@.is_suffix_of(path) && query is Some && asks_for_sse(
            query->0,
        ),
{
    lemma_one_interface(path);
}

/// Where the pieces of a split text start.
spec fn starts(s: Seq<char>, sep: char) -> Seq<int>
    decreases s.len(),
{
    if s.len() == 0 {
        seq![0int]
    } else if s.last() == sep {
        starts(s.drop_last(), sep).push(s.len() as int)
    } else {
        starts(s.drop_last(), sep)
    }
}

/// The piece `k` of `s` is what stands from `at` to the next separator.
spec fn is_piece(s: Seq<char>, sep: char, k: int, at: int) -> bool {
    let piece = split(s, sep)[k];
    let end = at + piece.len();
    &&& 0 <= at <= end <= s.len()
    &&& s.subrange(at, end) == piece
    &&& !piece.contains(sep)
    &&& at == 0 || s[at - 1] == sep
    &&& if k == split(s, sep).len() - 1 {
        end == s.len()
    } else {
        end < s.len() && s[end] == sep
    }
}

proof fn lemma_pieces(s: Seq<char>, sep: char)
    ensures
        split(s, sep).len() > 0,
        starts(s, sep).len() == split(s, sep).len(),
        forall|k: int|
            0 <= k < split(s, sep).len() ==> is_piece(s, sep, k, #[trigger] starts(s, sep)[k]),
    decreases s.len(),
{
    let pieces = split(s, sep);
    if s.len() == 0 {
        assert(s.subrange(0, 0) =~= pieces[0]);
    } else {
        let rest = s.drop_last();
        let before = split(rest, sep);
        lemma_pieces(rest, sep);
        assert forall|k: int| 0 <= k < pieces.len() implies is_piece(
            s,
            sep,
            k,
            #[trigger] starts(s, sep)[k],
        ) by {
            let at = starts(s, sep)[k];
            if s.last() == sep {
                if k < before.len() {
                    assert(at == starts(rest, sep)[k]);
                    assert(is_piece(rest, sep, k, at));
                    assert(pieces[k] == before[k]);
                    assert(s.subrange(at, at + pieces[k].len()) =~= rest.subrange(
                        at,
                        at + pieces[k].len(),
                    ));
                } else {
                    assert(s.subrange(at, at) =~= pieces[k]);
                }
            } else {
                assert(is_piece(rest, sep, k, at));
                if k < before.len() - 1 {
                    assert(pieces[k] == before[k]);
                    assert(s.subrange(at, at + pieces[k].len()) =~= rest.subrange(
                        at,
                        at + pieces[k].len(),
                    ));
                } else {
                    assert(pieces[k] == before[k].push(s.last()));
                    assert(s.subrange(at, s.len() as int) =~= rest.subrange(
                        at,
                        rest.len() as int,
                    ).push(s.last()));
                    if pieces[k].contains(sep) {
                        let i = pieces[k].index_of(sep);
                        assert(i < before[k].len());
                        assert(before[k][i] == sep);
                    }
                }
            }
        }
    }
}

/// What stands between two separators, or between one and an end, is a piece.
proof fn lemma_is_some_piece(s: Seq<char>, sep: char, i: int, j: int) -> (k: int)
    requires
        0 <= i <= j <= s.len(),
        !s.subrange(i, j).contains(sep),
        i == 0 || s[i - 1] == sep,
        j == s.len() || s[j] == sep,
    ensures
        0 <= k < split(s, sep).len(),
        starts(s, sep)[k] == i,
        split(s, sep)[k] == s.subrange(i, j),
    decreases s.len(),
{
    let pieces = split(s, sep);
    lemma_pieces(s, sep);
    if j == s.len() {
        let k = pieces.len() - 1;
        let at = starts(s, sep)[k];
        assert(is_piece(s, sep, k, at));
        if i < at {
            assert(s.subrange(i, j)[at - 1 - i] == sep);
        }
        if at < i {
            assert(pieces[k][i - 1 - at] == sep);
        }
        k
    } else {
        let rest = s.drop_last();
        assert(s.subrange(i, j) =~= rest.subrange(i, j));
        let k = lemma_is_some_piece(rest, sep, i, j);
        lemma_pieces(rest, sep);
        assert(is_piece(rest, sep, k, i));
        k
    }
}

/// A query asks for events if `alt=sse` stands in it as a whole pair: between two `&` signs, or
/// one and an end. A question mark in front of the pairs `q` does not count.
pub proof fn alt_sse_as_a_whole_pair(query: Seq<char>, q: Seq<char>)
    requires
        query == seq!['?'] + q || (query == q && (q.len() == 0 || q[0] != '?')),
    ensures
        asks_for_sse(query) <==> exists|i: int|
            0 <= i <= q.len() - 7 && #[trigger] q.subrange(i, i + 7) == "alt=sse"@ && (i == 0
                || q[i - 1] == '&') && (i + 7 == q.len() || q[i + 7] == '&'),
{
    if query == seq!['?'] + q {
        assert(query.drop_first() =~= q);
    }
    lemma_whole_pair(q);
}

proof fn lemma_whole_pair(q: Seq<char>)
    ensures
        split(q, '&').contains("alt=sse"@) <==> exists|i: int|
            0 <= i <= q.len() - 7 && #[trigger] q.subrange(i, i + 7) == "alt=sse"@ && (i == 0
                || q[i - 1] == '&') && (i + 7 == q.len() || q[i + 7] == '&'),
{
    reveal_strlit("alt=sse");
    lemma_pieces(q, '&');
    if split(q, '&').contains("alt=sse"@) {
        let k = choose|k: int| 0 <= k < split(q, '&').len() && split(q, '&')[k] == "alt=sse"@;
        let at = starts(q, '&')[k];
        assert(is_piece(q, '&', k, at));
        assert(q.subrange(at, at + 7) == "alt=sse"@);
    }
    if exists|i: int|
        0 <= i <= q.len() - 7 && #[trigger] q.subrange(i, i + 7) == "alt=sse"@ && (i == 0 || q[i - 1]
            == '&') && (i + 7 == q.len() || q[i + 7] == '&') {
        let i = choose|i: int|
            0 <= i <= q.len() - 7 && #[trigger] q.subrange(i, i + 7) == "alt=sse"@ && (i == 0
                || q[i - 1] == '&') && (i + 7 == q.len() || q[i + 7] == '&');
        assert(!q.subrange(i, i + 7).contains('&'));
        let k = lemma_is_some_piece(q, '&', i, i + 7);
        assert(split(q, '&')[k] == "alt=sse"@);
    }
}

/// The `Accept` field asks for an event stream if and only if it has one value, that is text, and
/// the text without the white space around it is `text/event-stream`.
pub proof fn accept_is_exactly_the_event_stream(headers: HeaderMap)
    ensures
        values_of(headers, "accept"@).len() != 1 ==> !wants_event_stream(headers),
        values_of(headers, "accept"@).len() == 1 ==> match header_text(
            values_of(headers, "accept"@)[0],
        ) {
            Some(t) => wants_event_stream(headers) <==> trim(t) == "text/event-stream"@,
            None => !wants_event_stream(headers),
        },
{
}

/// A JSON text opens an object if its first byte other than a space, a tab, a line feed or a
/// carriage return is an opening brace.
pub proof fn objects_open_with_a_brace(json: Seq<u8>)
    ensures
        opens_object(json) <==> exists|i: int|
            0 <= i < json.len() && #[trigger] json[i] == 123 && forall|k: int|
                0 <= k < i ==> (#[trigger] json[k] == 32 || json[k] == 9 || json[k] == 10 || json[k]
                    == 13),
    decreases json.len(),
{
    if json.len() > 0 {
        let b = json[0];
        let rest = json.drop_first();
        objects_open_with_a_brace(rest);
        if b == 32 || b == 9 || b == 10 || b == 13 {
            if opens_object(rest) {
                let i = choose|i: int|
                    0 <= i < rest.len() && #[trigger] rest[i] == 123 && forall|k: int|
                        0 <= k < i ==> (#[trigger] rest[k] == 32 || rest[k] == 9 || rest[k] == 10
                            || rest[k] == 13);
                assert(json[i + 1] == 123);
                assert forall|k: int| 0 <= k < i + 1 implies (#[trigger] json[k] == 32 || json[k]
                    == 9 || json[k] == 10 || json[k] == 13) by {
                    if k > 0 {
                        assert(rest[k - 1] == json[k]);
                    }
                }
            }
            if exists|i: int|
                0 <= i < json.len() && #[trigger] json[i] == 123 && forall|k: int|
                    0 <= k < i ==> (#[trigger] json[k] == 32 || json[k] == 9 || json[k] == 10
                        || json[k] == 13) {
                let i = choose|i: int|
                    0 <= i < json.len() && #[trigger] json[i] == 123 && forall|k: int|
                        0 <= k < i ==> (#[trigger] json[k] == 32 || json[k] == 9 || json[k] == 10
                            || json[k] == 13);
                assert(rest[i - 1] == 123);
                assert forall|k: int| 0 <= k < i - 1 implies (#[trigger] rest[k] == 32 || rest[k]
                    == 9 || rest[k] == 10 || rest[k] == 13) by {
                    assert(rest[k] == json[k + 1]);
                }
            }
        } else if b == 123 {
            assert(json[0] == 123);
        } else {
            if exists|i: int|
                0 <= i < json.len() && #[trigger] json[i] == 123 && forall|k: int|
                    0 <= k < i ==> (#[trigger] json[k] == 32 || json[k] == 9 || json[k] == 10
                        || json[k] == 13) {
                assert(json[0] == b);
            }
        }
    }
}

/// A body asks for a streamed reply if and only if it is an object and says so.
pub proof fn bodies_ask_by_their_member(json: Seq<u8>, stream: Option<bool>)
    ensures
        asks_for_stream(json, stream) <==> opens_object(json) && stream == Some(true),
{
}

/// Each coding goes by its registered name in any case, gzip by an older one too, and no other
/// name stands for one.
pub proof fn codings_by_name(token: Seq<char>)
    ensures
        coding_of(token) == Some(Coding::Identity) <==> lower(token) == "identity"@,
        coding_of(token) == Some(Coding::Gzip) <==> lower(token) == "gzip"@ || lower(token)
            == "x-gzip"@,
        coding_of(token) == Some(Coding::Deflate) <==> lower(token) == "deflate"@,
        coding_of(token) == Some(Coding::Br) <==> lower(token) == "br"@,
        coding_of(token) == Some(Coding::Zstd) <==> lower(token) == "zstd"@,
{
    reveal_strlit("identity");
    reveal_strlit("gzip");
    reveal_strlit("x-gzip");
    reveal_strlit("deflate");
    reveal_strlit("br");
    reveal_strlit("zstd");
    assert(lower("identity"@) =~= "identity"@);
    assert(lower("gzip"@) =~= "gzip"@);
    assert(lower("x-gzip"@) =~= "x-gzip"@);
    assert(lower("deflate"@) =~= "deflate"@);
    assert(lower("br"@) =~= "br"@);
    assert(lower("zstd"@) =~= "zstd"@);
    assert("gzip"@[0] == 'g' && "zstd"@[0] == 'z');
}

/// The coding of a message is the one that its `Content-Encoding` field names: none at all where
/// there is no such field, and unreadable where it has several values, is no text, or does not
/// list exactly one coding.
pub proof fn coding_by_its_field(headers: HeaderMap)
    ensures
        values_of(headers, "content-encoding"@).len() == 0 ==> declared_coding(headers) == Some(
            Coding::Identity,
        ),
        values_of(headers, "content-encoding"@).len() > 1 ==> declared_coding(headers) is None,
        values_of(headers, "content-encoding"@).len() == 1 ==> match header_text(
            values_of(headers, "content-encoding"@)[0],
        ) {
            Some(t) => {
                &&& list_items(t).len() == 1 ==> declared_coding(headers) == coding_of(
                    list_items(t)[0],
                )
                &&& list_items(t).len() != 1 ==> declared_coding(headers) is None
            },
            None => declared_coding(headers) is None,
        },
{
}

/// Each coding is read by its own decoder, and bytes without one are read as they are.
pub proof fn decoders_by_coding(input: Seq<u8>, limit: u64)
    ensures
        decoder_read(Coding::Identity, input, limit) == Some(input),
        decoder_read(Coding::Gzip, input, limit) == gzip_read(input, limit),
        decoder_read(Coding::Deflate, input, limit) == zlib_read(input, limit),
        decoder_read(Coding::Br, input, limit) == brotli_read(input, limit),
        decoder_read(Coding::Zstd, input, limit) == zstd_read(input, limit),
{
}

/// What a decoder gave is taken in full where it keeps to the limit, and refused where it does
/// not; a decoder that failed gave nothing.
pub proof fn limits_of_decoding(read: Option<Seq<u8>>, max: usize, out: Seq<u8>)
    ensures
        within_limit(read, max) == Ok::<Seq<u8>, DecodeError>(out) <==> read == Some(out)
            && out.len() <= max,
        within_limit(read, max) == Err::<Seq<u8>, DecodeError>(DecodeError::LimitExceeded) <==> (
        read matches Some(all) && all.len() > max),
        within_limit(read, max) == Err::<Seq<u8>, DecodeError>(DecodeError::Malformed) <==> read
            is None,
{
}

/// A decoder is asked for one byte more than the limit, as far as that can be asked for.
pub proof fn one_byte_beyond_the_limit(max: usize)
    ensures
        max < u64::MAX ==> read_limit(max) == max + 1,
        max == u64::MAX ==> read_limit(max) == u64::MAX,
{
}

/// Buffers stand for their bytes, and errors for themselves.
pub proof fn buffers_and_errors(bytes: Vec<u8>, error: DecodeError)
    ensures
        bytes_view(Some(bytes)) == Some(bytes@),
        bytes_view(None) is None,
        decoded_view(Ok(bytes)) == Ok::<Seq<u8>, DecodeError>(bytes@),
        decoded_view(Err(error)) == Err::<Seq<u8>, DecodeError>(error),
{
}

/// The bytes that are probed are the decoded body, whatever the coding, where that keeps to the
/// limit; none where it does not, or where decoding fails; and the body itself where its coding
/// cannot be read.
pub proof fn bodies_are_probed_decoded(
    headers: HeaderMap,
    coding: Coding,
    body: Seq<u8>,
    bytes: Seq<u8>,
    max: usize,
)
    ensures
        declared_coding(headers) == Some(coding) && within_limit(
            decoder_read(coding, body, read_limit(max)),
            max,
        ) == Ok::<Seq<u8>, DecodeError>(bytes) ==> probed_bytes(headers, body, max) == bytes,
        declared_coding(headers) == Some(coding) && within_limit(
            decoder_read(coding, body, read_limit(max)),
            max,
        ) is Err ==> probed_bytes(headers, body, max).len() == 0,
        declared_coding(headers) is None ==> probed_bytes(headers, body, max) == body,
{
}

/// A body that is sent compressed is probed as if it had been sent plain: the outcome rests on
/// what is decoded, not on the coding.
pub proof fn compression_does_not_matter(
    compressed: HeaderMap,
    coding: Coding,
    body: Seq<u8>,
    plain: HeaderMap,
    bytes: Seq<u8>,
    max: usize,
)
    requires
        declared_coding(compressed) == Some(coding),
        decoder_read(coding, body, read_limit(max)) == Some(bytes),
        declared_coding(plain) == Some(Coding::Identity),
    ensures
        probed_bytes(compressed, body, max) == probed_bytes(plain, bytes, max),
{
}

/// The length that counts is the number in the first value of `Content-Length`; a request is too
/// long if it states one that is more than the limit.
pub proof fn lengths_by_their_field(headers: HeaderMap, max: usize)
    ensures
        is_too_long(headers, max) <==> {
            let values = values_of(headers, "content-length"@);
            &&& values.len() > 0
            &&& header_text(values[0]) matches Some(t)
            &&& size_value(t) matches Some(n)
            &&& n > max
        },
        declared_length(headers) is Some ==> values_of(headers, "content-length"@).len() > 0,
{
}

/// A request is a candidate for the streamed path if and only if it addresses an interface and is
/// not too long, and keeps that interface; otherwise it is passed on.
pub proof fn candidates_by_interface(
    method: Seq<char>,
    path: Seq<char>,
    query: Option<Seq<char>>,
    headers: HeaderMap,
    max: usize,
    kind: EndpointKind,
)
    ensures
        route_of(method, path, query, headers, max) == Route::Candidate(kind) <==> endpoint_of(
            method,
            path,
            query,
        ) == Some(kind) && !is_too_long(headers, max),
        route_of(method, path, query, headers, max) == Route::Transparent <==> endpoint_of(
            method,
            path,
            query,
        ) is None || is_too_long(headers, max),
{
}

/// A candidate whose body was read takes the streamed path at once if it addresses the Gemini
/// interface or its one `Accept` value is `text/event-stream`, and only then; else its body is
/// probed.
pub proof fn streamed_without_a_probe(
    kind: EndpointKind,
    headers: HeaderMap,
    body: Seq<u8>,
    max: usize,
)
    ensures
        body_route_of(kind, headers, body, max) == BodyRouteView::Stream <==> {
            ||| kind == EndpointKind::GeminiStream
            ||| {
                &&& values_of(headers, "accept"@).len() == 1
                &&& header_text(values_of(headers, "accept"@)[0]) matches Some(t)
                &&& trim(t) == "text/event-stream"@
            }
        },
        body_route_of(kind, headers, body, max) != BodyRouteView::Stream ==> body_route_of(
            kind,
            headers,
            body,
            max,
        ) == BodyRouteView::Probe(probed_bytes(headers, body, max)),
{
}

/// A request to one of the first three interfaces that does not ask for events in its head takes
/// the streamed path if and only if what its body decodes to is a JSON object that says so.
pub proof fn streamed_by_the_body(
    method: Seq<char>,
    path: Seq<char>,
    query: Option<Seq<char>>,
    headers: HeaderMap,
    coding: Coding,
    body: Seq<u8>,
    bytes: Seq<u8>,
    max: usize,
    says: spec_fn(Seq<u8>) -> Option<bool>,
)
    requires
        method == "POST"@,
        "/chat/completions"@.is_suffix_of(path) || "/responses"@.is_suffix_of(path)
            || "/messages"@.is_suffix_of(path),
        values_of(headers, "content-length"@).len() == 0,
        values_of(headers, "accept"@).len() == 1 ==> (header_text(values_of(headers, "accept"@)[0])
            matches Some(t) ==> trim(t) != "text/event-stream"@),
        declared_coding(headers) == Some(coding),
        decoder_read(coding, body, read_limit(max)) == Some(bytes),
        bytes.len() <= max,
    ensures
        takes_streamed_path(method, path, query, headers, body, max, says) <==> opens_object(bytes)
            && says(bytes) == Some(true),
{
    interface_by_path(method, path, query);
    lemma_one_interface(path);
}

} // verus!
