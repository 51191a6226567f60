//! Laws of what is passed on: header fields in both directions, the head of a reply, and the event
//! stream that the client gets.

use crate::boundary::at_event_boundary;
use crate::encoding::{
    declared_coding, decoder_read, read_limit, within_limit, Coding, DecodeError,
};
use crate::headers::{header_text, values_of};
use crate::proxy::{
    connection_values, end_to_end, hop_by_hop, one_lists, upstream_fields, value_lists,
};
use crate::reading::{adds_only_heartbeats, events_of, heartbeat_bytes};
use crate::sse::{
    bridged_fields, completed, declares_event_stream, decoded_or_raw_of, gateway_fields,
    head_route_of, is_heartbeat, is_skipped, is_success, joined, only_kept_alive, readable_body,
    HeadRoute, Turn, MAX_ERROR_BODY,
};
use crate::text::{list_items, lower, split, trim};
use http::HeaderMap;
use vstd::prelude::*;
use vstd::utf8::*;

verus! {

/// A field is listed if one of the values of the `Connection` field, read as a list, holds its
/// name in any case.
pub proof fn listed_by_connection(fields: Map<Seq<char>, Seq<Seq<u8>>>, name: Seq<char>)
    ensures
        !fields.dom().contains("connection"@) ==> !one_lists(connection_values(fields), name),
        fields.dom().contains("connection"@) ==> (one_lists(connection_values(fields), name)
            <==> exists|i: int, j: int|
            #![trigger fields["connection"@][i], list_items(header_text(fields["connection"@][i])->0)[j]]
            0 <= i < fields["connection"@].len() && header_text(fields["connection"@][i]) is Some
                && 0 <= j < list_items(header_text(fields["connection"@][i])->0).len() && lower(
                list_items(header_text(fields["connection"@][i])->0)[j],
            ) == name),
{
    if fields.dom().contains("connection"@) {
        let values = fields["connection"@];
        assert(connection_values(fields) == values);
        if one_lists(values, name) {
            let i = choose|i: int| 0 <= i < values.len() && value_lists(#[trigger] values[i], name);
            let items = list_items(header_text(values[i])->0);
            let j = choose|j: int| 0 <= j < items.len() && lower(#[trigger] items[j]) == name;
            assert(lower(list_items(header_text(fields["connection"@][i])->0)[j]) == name);
        }
        if exists|i: int, j: int|
            #![trigger values[i], list_items(header_text(values[i])->0)[j]]
            0 <= i < values.len() && header_text(values[i]) is Some && 0 <= j < list_items(
                header_text(values[i])->0,
            ).len() && lower(list_items(header_text(values[i])->0)[j]) == name {
            let (i, j) = choose|i: int, j: int|
                #![trigger values[i], list_items(header_text(values[i])->0)[j]]
                0 <= i < values.len() && header_text(values[i]) is Some && 0 <= j < list_items(
                    header_text(values[i])->0,
                ).len() && lower(list_items(header_text(values[i])->0)[j]) == name;
            assert(value_lists(values[i], name));
        }
    }
}

/// Every field is passed on with all its values, unless it has one of eight names or the
/// `Connection` field lists it.
pub proof fn every_other_field_is_passed_on(
    fields: Map<Seq<char>, Seq<Seq<u8>>>,
    name: Seq<char>,
)
    requires
        fields.dom().contains(name),
        !one_lists(connection_values(fields), name),
        name != "connection"@,
        name != "keep-alive"@,
        name != "transfer-encoding"@,
        name != "te"@,
        name != "trailer"@,
        name != "upgrade"@,
        name != "proxy-authorization"@,
        name != "proxy-authenticate"@,
    ensures
        end_to_end(fields).dom().contains(name),
        end_to_end(fields)[name] == fields[name],
{
    assert(!hop_by_hop(fields).contains(name));
}

/// The fields of eight names, and those that the `Connection` field lists, are never passed on.
pub proof fn connection_fields_are_held_back(
    fields: Map<Seq<char>, Seq<Seq<u8>>>,
    name: Seq<char>,
)
    requires
        one_lists(connection_values(fields), name) || name == "connection"@ || name
            == "keep-alive"@ || name == "transfer-encoding"@ || name == "te"@ || name == "trailer"@
            || name == "upgrade"@ || name == "proxy-authorization"@ || name
            == "proxy-authenticate"@,
    ensures
        !end_to_end(fields).dom().contains(name),
{
    assert(hop_by_hop(fields).contains(name));
}

/// Nothing is put in or changed on the way: a field that is passed on was there, with the same
/// values.
pub proof fn nothing_is_put_in(fields: Map<Seq<char>, Seq<Seq<u8>>>, name: Seq<char>)
    requires
        end_to_end(fields).dom().contains(name),
    ensures
        fields.dom().contains(name),
        end_to_end(fields)[name] == fields[name],
{
}

/// The client's credentials, what it accepts and what it sends reach the upstream as they are,
/// unless the `Connection` field lists them.
pub proof fn requests_keep_their_own_fields(
    fields: Map<Seq<char>, Seq<Seq<u8>>>,
    authority: Seq<char>,
    name: Seq<char>,
)
    requires
        fields.dom().contains(name),
        !one_lists(connection_values(fields), name),
        name == "authorization"@ || name == "x-api-key"@ || name == "accept"@ || name
            == "accept-encoding"@ || name == "content-type"@ || name == "content-encoding"@ || name
            == "content-length"@ || name == "user-agent"@ || name == "cookie"@,
    ensures
        end_to_end(fields).dom().contains(name),
        end_to_end(fields)[name] == fields[name],
        upstream_fields(fields, authority).dom().contains(name),
        upstream_fields(fields, authority)[name] == fields[name],
{
    lemma_names_differ(name);
    every_other_field_is_passed_on(fields, name);
    requests_differ_in_the_host_only(fields, authority, name);
}

proof fn lemma_names_differ(name: Seq<char>)
    requires
        name == "authorization"@ || name == "x-api-key"@ || name == "accept"@ || name
            == "accept-encoding"@ || name == "content-type"@ || name == "content-encoding"@ || name
            == "content-length"@ || name == "user-agent"@ || name == "cookie"@,
    ensures
        name != "connection"@,
        name != "keep-alive"@,
        name != "transfer-encoding"@,
        name != "te"@,
        name != "trailer"@,
        name != "upgrade"@,
        name != "proxy-authorization"@,
        name != "proxy-authenticate"@,
        name != "host"@,
{
    reveal_strlit("authorization");
    reveal_strlit("x-api-key");
    reveal_strlit("accept");
    reveal_strlit("accept-encoding");
    reveal_strlit("content-type");
    reveal_strlit("content-encoding");
    reveal_strlit("content-length");
    reveal_strlit("user-agent");
    reveal_strlit("cookie");
    lemma_connection_names();
    assert("user-agent"@[0] == 'u' && "content-type"@[0] == 'c');
    assert("connection"@[0] == 'c' && "keep-alive"@[0] == 'k');
    assert("authorization"@.len() == 13 && "x-api-key"@.len() == 9 && "accept"@.len() == 6);
    assert("cookie"@.len() == 6 && "upgrade"@.len() == 7 && "host"@.len() == 4);
}

proof fn lemma_connection_names()
    ensures
        "connection"@.len() == 10,
        "connection"@[0] == 'c',
        "keep-alive"@.len() == 10,
        "keep-alive"@[0] == 'k',
        "transfer-encoding"@.len() == 17,
        "te"@.len() == 2,
        "trailer"@.len() == 7,
        "upgrade"@.len() == 7,
        "proxy-authorization"@.len() == 19,
        "proxy-authenticate"@.len() == 18,
        "host"@.len() == 4,
{
    reveal_strlit("host");
    reveal_strlit("connection");
    reveal_strlit("keep-alive");
    reveal_strlit("transfer-encoding");
    reveal_strlit("te");
    reveal_strlit("trailer");
    reveal_strlit("upgrade");
    reveal_strlit("proxy-authorization");
    reveal_strlit("proxy-authenticate");
}

/// But for the `Host` field, the upstream gets just the fields that are passed on.
pub proof fn requests_differ_in_the_host_only(
    fields: Map<Seq<char>, Seq<Seq<u8>>>,
    authority: Seq<char>,
    name: Seq<char>,
)
    requires
        name != "host"@,
    ensures
        upstream_fields(fields, authority).dom().contains(name) <==> end_to_end(
            fields,
        ).dom().contains(name),
        end_to_end(fields).dom().contains(name) ==> upstream_fields(fields, authority)[name]
            == end_to_end(fields)[name],
{
    lemma_connection_names();
    let with_host = fields.insert("host"@, seq![encode_utf8(authority)]);
    assert("host"@ != "connection"@);
    assert(connection_values(with_host) == connection_values(fields));
    assert(hop_by_hop(with_host) =~= hop_by_hop(fields));
}

/// The `Host` field that the upstream gets holds its own authority and nothing else, whatever the
/// client sent; it is missing only where the `Connection` field lists it.
pub proof fn host_is_the_authority(
    fields: Map<Seq<char>, Seq<Seq<u8>>>,
    authority: Seq<char>,
)
    ensures
        upstream_fields(fields, authority).dom().contains("host"@) <==> !one_lists(
            connection_values(fields),
            "host"@,
        ),
        !one_lists(connection_values(fields), "host"@) ==> upstream_fields(
            fields,
            authority,
        )["host"@] == seq![encode_utf8(authority)],
{
    lemma_connection_names();
    let with_host = fields.insert("host"@, seq![encode_utf8(authority)]);
    assert("host"@ != "connection"@);
    assert(connection_values(with_host) == connection_values(fields));
    assert(hop_by_hop(with_host) =~= hop_by_hop(fields));
}

/// A bridged reply asks not to be buffered and has neither a length nor a coding; every other
/// field is that of the upstream's reply as it is passed on.
pub proof fn bridged_replies_keep_their_fields(
    fields: Map<Seq<char>, Seq<Seq<u8>>>,
    name: Seq<char>,
)
    ensures
        bridged_fields(fields).dom().contains("x-accel-buffering"@),
        bridged_fields(fields)["x-accel-buffering"@] == seq![encode_utf8("no"@)],
        !bridged_fields(fields).dom().contains("content-length"@),
        !bridged_fields(fields).dom().contains("content-encoding"@),
        name != "x-accel-buffering"@ && name != "content-length"@ && name != "content-encoding"@
            ==> {
            &&& bridged_fields(fields).dom().contains(name) <==> end_to_end(fields).dom().contains(
                name,
            )
            &&& end_to_end(fields).dom().contains(name) ==> bridged_fields(fields)[name]
                == end_to_end(fields)[name]
        },
{
    reveal_strlit("x-accel-buffering");
    reveal_strlit("content-length");
    reveal_strlit("content-encoding");
    assert("x-accel-buffering"@.len() == 17 && "content-length"@.len() == 14
        && "content-encoding"@.len() == 16);
}

/// The event stream that the gateway opens itself has three fields: its type, that it is not to be
/// cached, and that it is not to be buffered.
pub proof fn own_streams_have_three_fields(name: Seq<char>)
    ensures
        gateway_fields().dom().contains(name) <==> name == "content-type"@ || name
            == "cache-control"@ || name == "x-accel-buffering"@,
        gateway_fields()["content-type"@] == seq![encode_utf8("text/event-stream; charset=utf-8"@)],
        gateway_fields()["cache-control"@] == seq![encode_utf8("no-cache"@)],
        gateway_fields()["x-accel-buffering"@] == seq![encode_utf8("no"@)],
{
    reveal_strlit("content-type");
    reveal_strlit("cache-control");
    reveal_strlit("x-accel-buffering");
    assert("content-type"@.len() == 12 && "cache-control"@.len() == 13 && "x-accel-buffering"@.len()
        == 17);
}

/// Success is a status from 200 to 299.
pub proof fn successes_are_two_hundreds(status: u16)
    ensures
        is_success(status) <==> status / 100 == 2,
{
}

/// A reply declares an event stream if its `Content-Type` field is text whose part before the
/// first semicolon, or the whole where there is none, is `text/event-stream` in any case, but for
/// white space around it.
pub proof fn event_streams_by_media_type(headers: HeaderMap, text: Seq<char>, end: int)
    requires
        values_of(headers, "content-type"@).len() > 0,
        header_text(values_of(headers, "content-type"@)[0]) == Some(text),
        0 <= end <= text.len(),
        forall|i: int| 0 <= i < end ==> text[i] != ';',
        end == text.len() || text[end] == ';',
    ensures
        declares_event_stream(headers) <==> lower(trim(text.take(end))) == "text/event-stream"@,
{
    lemma_first_piece(text, ';', end);
    reveal_strlit("text/event-stream");
    assert(lower("text/event-stream"@) =~= "text/event-stream"@);
}

proof fn lemma_first_piece(s: Seq<char>, sep: char, end: int)
    requires
        0 <= end <= s.len(),
        forall|i: int| 0 <= i < end ==> s[i] != sep,
        end == s.len() || s[end] == sep,
    ensures
        split(s, sep).len() > 0,
        split(s, sep)[0] == s.take(end),
        end == s.len() ==> split(s, sep).len() == 1,
    decreases s.len(),
{
    if s.len() == 0 {
        assert(s.take(end) =~= Seq::<char>::empty());
    } else {
        let rest = s.drop_last();
        if end == s.len() {
            lemma_first_piece(rest, sep, end - 1);
            assert(rest.take(end - 1).push(s.last()) =~= s.take(end));
            assert(s[end - 1] == s.last());
        } else {
            lemma_first_piece(rest, sep, end);
            assert(rest.take(end) =~= s.take(end));
            if end < rest.len() {
                lemma_more_pieces(rest, sep, end);
            }
        }
    }
}

proof fn lemma_more_pieces(s: Seq<char>, sep: char, at: int)
    requires
        0 <= at < s.len(),
        s[at] == sep,
    ensures
        split(s, sep).len() > 1,
    decreases s.len(),
{
    crate::text::lemma_split_nonempty(s.drop_last(), sep);
    if at < s.len() - 1 {
        lemma_more_pieces(s.drop_last(), sep, at);
    }
}

/// A reply without a `Content-Type` field, or with one that is no text, declares no event stream.
pub proof fn untyped_replies_are_no_event_streams(headers: HeaderMap)
    requires
        values_of(headers, "content-type"@).len() == 0 || header_text(
            values_of(headers, "content-type"@)[0],
        ) is None,
    ensures
        !declares_event_stream(headers),
{
}

/// A reply in time is bridged if and only if it is a success, declares an event stream and is in a
/// coding that can be read, and it is then decoded by the coding that it declares.
pub proof fn bridged_by_the_declared_coding(status: u16, headers: HeaderMap, coding: Coding)
    ensures
        head_route_of(status, headers) == HeadRoute::Bridge(coding) <==> 200 <= status <= 299
            && declares_event_stream(headers) && declared_coding(headers) == Some(coding),
        head_route_of(status, headers) == HeadRoute::PassThrough <==> !(200 <= status <= 299)
            || !declares_event_stream(headers) || declared_coding(headers) is None,
{
}

/// What an error body says is what it decodes to, whatever its coding, where that keeps to a
/// mebibyte; else, and where it cannot be decoded or has no coding, the body itself.
pub proof fn error_bodies_are_read_decoded(coding: Coding, body: Seq<u8>, bytes: Seq<u8>)
    ensures
        coding != Coding::Identity && within_limit(
            decoder_read(coding, body, read_limit(1048576)),
            1048576,
        ) == Ok::<Seq<u8>, DecodeError>(bytes) ==> readable_body(Some(coding), body) == bytes,
        coding != Coding::Identity && within_limit(
            decoder_read(coding, body, read_limit(1048576)),
            1048576,
        ) is Err ==> readable_body(Some(coding), body) == body,
        readable_body(Some(Coding::Identity), body) == body,
        readable_body(None, body) == body,
        MAX_ERROR_BODY == 1048576,
{
}

/// An error body that was sent compressed says the same as one that was sent plain.
pub proof fn compressed_errors_say_the_same(coding: Coding, body: Seq<u8>, bytes: Seq<u8>)
    requires
        decoder_read(coding, body, 1048577) == Some(bytes),
        bytes.len() <= 1048576,
    ensures
        readable_body(Some(coding), body) == readable_body(None, bytes),
{
}

/// What could be decoded goes before what was sent.
pub proof fn decoded_goes_first(
    body: Seq<u8>,
    decoded: Result<Seq<u8>, DecodeError>,
)
    ensures
        decoded matches Ok(bytes) ==> decoded_or_raw_of(body, decoded) == bytes,
        decoded is Err ==> decoded_or_raw_of(body, decoded) == body,
{
}

/// A heartbeat is a colon and two line feeds.
pub proof fn heartbeats_are_colons()
    ensures
        heartbeat_bytes() == encode_utf8(":\n\n"@),
        heartbeat_bytes().len() == 3,
        heartbeat_bytes()[0] == 58,
        heartbeat_bytes()[1] == 10,
        heartbeat_bytes()[2] == 10,
{
    reveal_strlit(":\n\n");
    is_ascii_chars_encode_utf8(":\n\n"@);
    assert(heartbeat_bytes() =~= encode_utf8(":\n\n"@));
}

/// A turn that sends a heartbeat sends a colon and two line feeds, one that is skipped sends
/// nothing, and both are followed by a full interval.
pub proof fn turns_start_a_full_interval(turn: Turn, interval: u64)
    ensures
        is_heartbeat(turn, interval) <==> turn.wait == interval && (turn.send matches Some(bytes)
            && bytes@ == seq![58u8, 10u8, 10u8]),
        is_skipped(turn, interval) <==> turn.wait == interval && turn.send is None,
{
}

/// A stream stands at an event boundary if nothing was sent, or it is one line terminator, or it
/// ends with two, be they LF, CR or the pair CR LF.
pub proof fn boundaries_by_their_endings(s: Seq<u8>)
    ensures
        at_event_boundary(s) <==> {
            let n = s.len();
            ||| n == 0
            ||| n == 1 && (s[0] == 10 || s[0] == 13)
            ||| n == 2 && s[0] == 13 && s[1] == 10
            ||| n >= 2 && s[n - 1] == 10 && s[n - 2] == 10
            ||| n >= 2 && s[n - 1] == 13 && (s[n - 2] == 10 || s[n - 2] == 13)
            ||| n >= 3 && s[n - 1] == 10 && s[n - 2] == 13 && (s[n - 3] == 10 || s[n - 3] == 13)
        },
{
}

/// A broken stream is completed by two line feeds, and one that stands at a boundary by nothing.
pub proof fn completion_of_streams(sent: Seq<u8>)
    ensures
        at_event_boundary(sent) ==> completed(sent) == sent,
        !at_event_boundary(sent) ==> completed(sent) == sent + encode_utf8("\n\n"@),
{
    reveal_strlit("\n\n");
    is_ascii_chars_encode_utf8("\n\n"@);
    assert(encode_utf8("\n\n"@) =~= seq![10u8, 10u8]);
}

/// Pieces are sent one behind the other.
pub proof fn pieces_in_a_row(pieces: Seq<Vec<u8>>, last: Vec<u8>)
    ensures
        joined(Seq::empty()) == Seq::<u8>::empty(),
        joined(pieces.push(last)) == joined(pieces) + last@,
{
    assert(pieces.push(last).drop_last() =~= pieces);
}

/// Where only heartbeats were sent, the bytes are heartbeats one behind the other.
pub proof fn kept_alive_by_heartbeats_only(sent: Seq<u8>)
    requires
        only_kept_alive(sent),
    ensures
        sent.len() % 3 == 0,
        forall|i: int|
            0 <= i < sent.len() ==> #[trigger] sent[i] == (if i % 3 == 0 {
                58u8
            } else {
                10u8
            }),
        at_event_boundary(sent),
        events_of(sent).len() == 0,
{
    lemma_only_heartbeats(sent);
}

proof fn lemma_only_heartbeats(sent: Seq<u8>)
    requires
        adds_only_heartbeats(sent, Seq::empty()),
    ensures
        sent.len() % 3 == 0,
        forall|i: int|
            0 <= i < sent.len() ==> #[trigger] sent[i] == (if i % 3 == 0 {
                58u8
            } else {
                10u8
            }),
    decreases sent.len(),
{
    if sent.len() > 0 {
        let n = sent.len() as int;
        let before = sent.take(n - 3);
        let last = sent.subrange(n - 3, n);
        lemma_only_heartbeats(before);
        assert(last =~= heartbeat_bytes());
        assert forall|i: int| 0 <= i < n implies #[trigger] sent[i] == (if i % 3 == 0 {
            58u8
        } else {
            10u8
        }) by {
            if i < n - 3 {
                assert(before[i] == sent[i]);
            } else {
                assert(last[i - (n - 3)] == sent[i]);
            }
        }
    }
}

/// The bytes of the source are all there, and the rest is heartbeats.
pub proof fn nothing_is_lost(sent: Seq<u8>, source: Seq<u8>)
    requires
        adds_only_heartbeats(sent, source),
    ensures
        sent.len() >= source.len(),
        (sent.len() - source.len()) % 3 == 0,
        sent.len() == source.len() ==> sent == source,
        sent.to_multiset().count(58) - source.to_multiset().count(58) == (sent.len() - source.len())
            / 3,
    decreases sent.len(),
{
    broadcast use vstd::seq_lib::group_to_multiset_ensures;

    if sent.len() > 0 {
        let n = sent.len() as int;
        if source.len() > 0 && sent.last() == source.last() && adds_only_heartbeats(
            sent.drop_last(),
            source.drop_last(),
        ) {
            nothing_is_lost(sent.drop_last(), source.drop_last());
            assert(sent.drop_last().push(sent.last()) =~= sent);
            assert(source.drop_last().push(source.last()) =~= source);
        } else {
            let before = sent.take(n - 3);
            nothing_is_lost(before, source);
            let last = sent.subrange(n - 3, n);
            assert(last =~= heartbeat_bytes());
            assert(last[0] == 58 && last[1] == 10 && last[2] == 10);
            assert(before.push(58u8).push(10u8).push(10u8) =~= sent) by {
                assert(sent[n - 3] == last[0] && sent[n - 2] == last[1] && sent[n - 1] == last[2]);
            }
        }
    }
}

} // verus!
