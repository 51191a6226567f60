//! The streamed path: what the client is told first, and how the upstream's reply is bridged
//! into an event stream that is kept alive.
//!
//! A reply is waited for during one heartbeat interval. One that comes in time decides what the
//! client gets. Otherwise the gateway opens an event stream itself, and the reply is bridged
//! into it later: an [`AwaitingHead`] becomes, when the reply's head comes, a [`Relay`] or an
//! [`ErrorCollection`].

use crate::boundary::{
    at_event_boundary, same_place, same_place_after, two_line_feeds_end_an_event,
    EventBoundaryTracker,
};
use crate::detect::EndpointKind;
use crate::encoding::{
    declared_coding, decode_bytes, decoded_view, decoder_read, parse_content_encoding,
    read_limit, within_limit, Coding, DecodeError,
};
use crate::error_event;
use crate::error_event::{error_is_read_back, error_payload, error_text, framed, framed_events};
use crate::headers::{
    field_text, first_text, has_room, header_fields, insert, no_headers, remove, NoRoom,
    MAX_NAMES,
};
use crate::proxy::{end_to_end, strip_hop_by_hop};
use crate::reading::{
    adds_only_heartbeats, events_of, heartbeat_bytes, heartbeat_follows, heartbeat_is_invisible,
    lemma_alike_after, lemma_heartbeat_alike, nothing_read, read, read_in_pieces, reads_on_alike,
    same_bytes_follow,
};
use crate::text::{
    lower, same_but_case, same_ignoring_case, split, split_at_each, trim, trimmed, views,
};
use http::HeaderMap;
use vstd::prelude::*;
use vstd::slice::slice_to_vec;
use vstd::utf8::*;

verus! {

/// The most bytes that are read, and that are decoded, of an upstream's error body.
pub const MAX_ERROR_BODY: usize = 1048576;

/// The bytes of a heartbeat.
pub fn heartbeat() -> (res: Vec<u8>)
    ensures
        res@ == heartbeat_bytes(),
{
    let res: Vec<u8> = vec![58u8, 10u8, 10u8];
    assert(res@ =~= heartbeat_bytes());
    res
}

/// The status says that the request succeeded.
pub open spec fn is_success(status: u16) -> bool {
    200 <= status < 300
}

/// The reply declares that its body is an event stream: the media type before the parameters is
/// `text/event-stream`, whatever the case of its letters.
pub open spec fn declares_event_stream(headers: HeaderMap) -> bool {
    match field_text(headers, "content-type"@) {
        Some(t) => same_but_case(trim(split(t, ';')[0]), "text/event-stream"@),
        None => false,
    }
}

/// Whether a reply declares that its body is an event stream.
pub fn is_event_stream(headers: &HeaderMap) -> (res: bool)
    ensures
        res == declares_event_stream(*headers),
{
    match first_text(headers, "content-type") {
        Some(t) => {
            let pieces = split_at_each(t.as_str(), ';');
            proof {
                crate::text::lemma_split_nonempty(t@, ';');
                assert(views(pieces@).len() == pieces@.len());
                assert(views(pieces@)[0] == pieces@[0]@);
            }
            same_ignoring_case(trimmed(pieces[0]), "text/event-stream")
        },
        None => false,
    }
}

/// What becomes of a reply whose head came within the interval.
#[derive(Debug, Clone, Copy, PartialEq, Eq, Structural)]
pub enum HeadRoute {
    /// Its head is passed on, and its body, which is in this coding, is bridged.
    Bridge(Coding),
    /// It is passed on as it is.
    PassThrough,
}

/// What becomes of a reply: it is bridged if it is a successful event stream in a coding that
/// can be read, and passed on as it is otherwise.
pub open spec fn head_route_of(status: u16, headers: HeaderMap) -> HeadRoute {
    if is_success(status) && declares_event_stream(headers) {
        match declared_coding(headers) {
            Some(coding) => HeadRoute::Bridge(coding),
            None => HeadRoute::PassThrough,
        }
    } else {
        HeadRoute::PassThrough
    }
}

/// Decides what becomes of a reply whose head came within the interval.
pub fn route_head(status: u16, headers: &HeaderMap) -> (res: HeadRoute)
    ensures
        res == head_route_of(status, *headers),
{
    if 200 <= status && status < 300 && is_event_stream(headers) {
        match parse_content_encoding(headers) {
            Some(coding) => HeadRoute::Bridge(coding),
            None => HeadRoute::PassThrough,
        }
    } else {
        HeadRoute::PassThrough
    }
}

/// The fields of a bridged reply: those of the upstream's reply that are passed on, without the
/// length and the coding of a body that is not the upstream's any more, and with the request not
/// to buffer.
pub open spec fn bridged_fields(fields: Map<Seq<char>, Seq<Seq<u8>>>) -> Map<
    Seq<char>,
    Seq<Seq<u8>>,
> {
    end_to_end(fields).remove("content-length"@).remove("content-encoding"@).insert(
        "x-accel-buffering"@,
        seq![encode_utf8("no"@)],
    )
}

/// Makes the fields of the upstream's reply those of the bridged reply. Where the request not to
/// buffer cannot be put in, which happens only beyond `MAX_NAMES` names, it is missing.
pub fn bridged_headers(headers: &mut HeaderMap) -> (res: Result<(), NoRoom>)
    ensures
        has_room(*old(headers)) ==> res is Ok,
        res is Err ==> {
            let others = header_fields(*final(headers)).dom();
            others.finite() ==> others.len() > MAX_NAMES
        },
        header_fields(*final(headers)) == (if res is Ok {
            bridged_fields(header_fields(*old(headers)))
        } else {
            end_to_end(header_fields(*old(headers))).remove("content-length"@).remove(
                "content-encoding"@,
            )
        }),
{
    let ghost before = header_fields(*headers);
    proof {
        reveal_strlit("content-length");
        reveal_strlit("content-encoding");
        reveal_strlit("X-Accel-Buffering");
        reveal_strlit("x-accel-buffering");
        reveal_strlit("no");
        assert(lower("content-length"@) =~= "content-length"@);
        assert(lower("content-encoding"@) =~= "content-encoding"@);
        assert(lower("X-Accel-Buffering"@) =~= "x-accel-buffering"@);
    }
    strip_hop_by_hop(headers);
    remove(headers, "content-length");
    remove(headers, "content-encoding");
    proof {
        if before.dom().finite() {
            vstd::set_lib::lemma_len_subset(header_fields(*headers).dom(), before.dom());
        }
    }
    if insert(headers, "X-Accel-Buffering", "no") {
        Ok(())
    } else {
        Err(NoRoom)
    }
}

/// The fields of the event stream that the gateway opens itself.
pub open spec fn gateway_fields() -> Map<Seq<char>, Seq<Seq<u8>>> {
    map![
        "content-type"@ => seq![encode_utf8("text/event-stream; charset=utf-8"@)],
        "cache-control"@ => seq![encode_utf8("no-cache"@)],
        "x-accel-buffering"@ => seq![encode_utf8("no"@)],
    ]
}

/// The head of a reply.
pub struct Head {
    /// The status code.
    pub status: u16,
    /// The header fields.
    pub headers: HeaderMap,
}

/// Makes the head of the event stream that the gateway opens itself.
pub fn gateway_head() -> (res: Head)
    ensures
        res.status == 200,
        header_fields(res.headers) == gateway_fields(),
{
    let mut headers = no_headers();
    proof {
        reveal_strlit("content-type");
        reveal_strlit("text/event-stream; charset=utf-8");
        reveal_strlit("cache-control");
        reveal_strlit("no-cache");
        reveal_strlit("X-Accel-Buffering");
        reveal_strlit("x-accel-buffering");
        reveal_strlit("no");
        assert(lower("content-type"@) =~= "content-type"@);
        assert(lower("cache-control"@) =~= "cache-control"@);
        assert(lower("X-Accel-Buffering"@) =~= "x-accel-buffering"@);
    }
    let typed = insert(&mut headers, "content-type", "text/event-stream; charset=utf-8");
    let uncached = insert(&mut headers, "cache-control", "no-cache");
    let unbuffered = insert(&mut headers, "X-Accel-Buffering", "no");
    assert(typed && uncached && unbuffered);
    assert(header_fields(headers) =~= gateway_fields());
    Head { status: 200, headers }
}

/// Neither the event stream that the gateway opens itself nor a bridged reply has a coding: the
/// client always gets plain bytes.
pub proof fn streams_are_never_coded(fields: Map<Seq<char>, Seq<Seq<u8>>>)
    ensures
        !gateway_fields().dom().contains("content-encoding"@),
        !bridged_fields(fields).dom().contains("content-encoding"@),
{
    reveal_strlit("content-type");
    reveal_strlit("cache-control");
    reveal_strlit("x-accel-buffering");
    reveal_strlit("content-encoding");
    assert("content-encoding"@.len() == 16 && "x-accel-buffering"@.len() == 17);
    assert("content-type"@.len() == 12 && "cache-control"@.len() == 13);
}

/// Only heartbeats were sent: the client has read no event, and stands between events.
pub open spec fn only_kept_alive(sent: Seq<u8>) -> bool {
    &&& adds_only_heartbeats(sent, Seq::empty())
    &&& at_event_boundary(sent)
    &&& events_of(sent).len() == 0
}

proof fn lemma_still_kept_alive(sent: Seq<u8>)
    requires
        only_kept_alive(sent),
    ensures
        only_kept_alive(sent + heartbeat_bytes()),
{
    heartbeat_is_invisible(sent, Seq::empty());
    assert(sent + heartbeat_bytes() + Seq::<u8>::empty() =~= sent + heartbeat_bytes());
    assert(sent + Seq::<u8>::empty() =~= sent);
    two_line_feeds_end_an_event(sent.push(58));
    assert(sent + heartbeat_bytes() =~= sent.push(58) + seq![10u8, 10u8]);
    heartbeat_follows(sent, Seq::empty());
}

/// What the client has read, all in all, when a stream on which nothing but heartbeats were sent
/// ends with an error.
pub open spec fn reads_only_error(sent: Seq<u8>, kind: EndpointKind, payload: Seq<char>) -> bool {
    events_of(sent + encode_utf8(framed(kind, payload))) == framed_events(kind, payload)
}

proof fn lemma_reads_only_error(sent: Seq<u8>, kind: EndpointKind, payload: Seq<char>)
    requires
        only_kept_alive(sent),
        crate::json::is_one_line(payload),
    ensures
        reads_only_error(sent, kind, payload),
{
    error_is_read_back(sent, kind, payload);
    assert(events_of(sent) + framed_events(kind, payload) =~= framed_events(kind, payload));
}

/// What is done when the interval has passed without a byte for the client.
pub struct Turn {
    /// What is sent to the client, if anything.
    pub send: Option<Vec<u8>>,
    /// The seconds after which, if no byte went to the client meanwhile, the interval has passed
    /// again. They count from when what is sent was handed over.
    pub wait: u64,
}

/// The turn sends a heartbeat, and the next one comes after `interval` seconds.
pub open spec fn is_heartbeat(turn: Turn, interval: u64) -> bool {
    &&& turn.send matches Some(bytes) && bytes@ == heartbeat_bytes()
    &&& turn.wait == interval
}

/// The turn sends nothing, and the next one comes after `interval` seconds.
pub open spec fn is_skipped(turn: Turn, interval: u64) -> bool {
    turn.send is None && turn.wait == interval
}

/// How the waiting for the head of a reply stands.
pub struct AwaitingHeadView {
    /// The interface that the client uses.
    pub kind: EndpointKind,
    /// Seconds of silence after which a heartbeat is sent.
    pub interval: u64,
    /// The bytes that were sent to the client.
    pub sent: Seq<u8>,
}

/// The gateway has opened an event stream, and waits for the head of the upstream's reply.
pub struct AwaitingHead {
    kind: EndpointKind,
    interval: u64,
    sent: Ghost<Seq<u8>>,
}

impl View for AwaitingHead {
    type V = AwaitingHeadView;

    closed spec fn view(&self) -> AwaitingHeadView {
        AwaitingHeadView { kind: self.kind, interval: self.interval, sent: self.sent@ }
    }
}

/// What comes after the head of the upstream's reply.
pub enum AfterHead {
    /// The body, which is in this coding, is relayed.
    Relay(Relay, Coding),
    /// The body is collected, because it says what went wrong.
    Collect(ErrorCollection),
    /// These last bytes are sent, because the body cannot be read.
    Failed(Vec<u8>),
}

impl AwaitingHead {
    #[verifier::type_invariant]
    spec fn wf(&self) -> bool {
        only_kept_alive(self.sent@)
    }

    /// Nothing was sent yet; a heartbeat is due after `interval` seconds of silence.
    pub fn new(kind: EndpointKind, interval: u64) -> (res: Self)
        ensures
            res@ == (AwaitingHeadView { kind, interval, sent: Seq::empty() }),
    {
        AwaitingHead { kind, interval, sent: Ghost(Seq::empty()) }
    }

    /// The interval has passed without a byte for the client: it is sent a heartbeat, and the
    /// interval starts anew.
    pub fn on_idle(&mut self) -> (res: Turn)
        ensures
            is_heartbeat(res, old(self)@.interval),
            final(self)@ == (AwaitingHeadView {
                sent: old(self)@.sent + heartbeat_bytes(),
                ..old(self)@
            }),
            only_kept_alive(final(self)@.sent),
    {
        proof {
            use_type_invariant(&*self);
            lemma_still_kept_alive(self.sent@);
        }
        *self =
        AwaitingHead {
            kind: self.kind,
            interval: self.interval,
            sent: Ghost(self.sent@ + heartbeat_bytes()),
        };
        Turn { send: Some(heartbeat()), wait: self.interval }
    }

    /// The seconds, from when the stream was opened, after which the interval has passed for the
    /// first time.
    pub fn first_wait(&self) -> (res: u64)
        ensures
            res == self@.interval,
    {
        self.interval
    }

    /// There will be no reply, for the reason given: the client is told so, and nothing else is
    /// sent.
    pub fn on_request_failed(self, reason: &str) -> (res: Vec<u8>)
        ensures
            res@ == encode_utf8(error_text(self@.kind, None, None, Some(reason@))),
            reads_only_error(
                self@.sent,
                self@.kind,
                error_payload(self@.kind, None, None, Some(reason@)),
            ),
    {
        proof {
            use_type_invariant(&self);
        }
        let event = error_event::build(self.kind, None, None, Some(reason));
        proof {
            lemma_reads_only_error(
                self.sent@,
                self.kind,
                error_payload(self.kind, None, None, Some(reason@)),
            );
        }
        event
    }

    /// The head of the reply has come, with this status and this coding; `None` stands for a
    /// coding that cannot be read. Unless it comes to the end, nothing is sent, so the interval
    /// that has begun runs on.
    pub fn on_head(self, status: u16, coding: Option<Coding>) -> (res: AfterHead)
        ensures
            only_kept_alive(self@.sent),
            match res {
                AfterHead::Relay(relay, c) => {
                    &&& is_success(status)
                    &&& coding == Some(c)
                    &&& relay@ == (RelayView {
                        kind: self@.kind,
                        interval: self@.interval,
                        upstream: Seq::empty(),
                        sent: self@.sent,
                    })
                    &&& adds_only_heartbeats(relay@.sent, relay@.upstream)
                },
                AfterHead::Collect(collection) => {
                    &&& !is_success(status)
                    &&& collection@ == (ErrorCollectionView {
                        kind: self@.kind,
                        interval: self@.interval,
                        status,
                        coding,
                        sent: self@.sent,
                    })
                },
                AfterHead::Failed(event) => {
                    let reason = "unsupported upstream content-encoding"@;
                    &&& is_success(status)
                    &&& coding is None
                    &&& event@ == encode_utf8(error_text(self@.kind, None, None, Some(reason)))
                    &&& reads_only_error(
                        self@.sent,
                        self@.kind,
                        error_payload(self@.kind, None, None, Some(reason)),
                    )
                },
            },
    {
        proof {
            use_type_invariant(&self);
        }
        if 200 <= status && status < 300 {
            match coding {
                Some(c) => {
                    AfterHead::Relay(
                        Relay {
                            kind: self.kind,
                            interval: self.interval,
                            tracker: EventBoundaryTracker::new(),
                            sent: self.sent,
                        },
                        c,
                    )
                },
                None => AfterHead::Failed(
                    self.on_request_failed("unsupported upstream content-encoding"),
                ),
            }
        } else {
            AfterHead::Collect(
                ErrorCollection {
                    kind: self.kind,
                    interval: self.interval,
                    status,
                    coding,
                    sent: self.sent,
                },
            )
        }
    }
}

/// What a relay has done.
pub struct RelayView {
    /// The interface that the client uses.
    pub kind: EndpointKind,
    /// Seconds of silence after which a heartbeat is due.
    pub interval: u64,
    /// The bytes that came from the upstream.
    pub upstream: Seq<u8>,
    /// The bytes that were sent to the client.
    pub sent: Seq<u8>,
}

/// The upstream's body is relayed to the client, and kept alive where it falls silent.
pub struct Relay {
    kind: EndpointKind,
    interval: u64,
    tracker: EventBoundaryTracker,
    sent: Ghost<Seq<u8>>,
}

impl View for Relay {
    type V = RelayView;

    closed spec fn view(&self) -> RelayView {
        RelayView {
            kind: self.kind,
            interval: self.interval,
            upstream: self.tracker@,
            sent: self.sent@,
        }
    }
}

/// What was sent is as good as what came: whatever follows, the client will read the same events,
/// and the event boundaries are the same.
spec fn follows(sent: Seq<u8>, upstream: Seq<u8>) -> bool {
    &&& same_place(sent, upstream)
    &&& reads_on_alike(read(nothing_read(), sent), read(nothing_read(), upstream))
}

proof fn lemma_follows_chunk(sent: Seq<u8>, upstream: Seq<u8>, bytes: Seq<u8>)
    requires
        follows(sent, upstream),
    ensures
        follows(sent + bytes, upstream + bytes),
{
    same_place_after(sent, upstream, bytes);
    lemma_alike_after(read(nothing_read(), sent), read(nothing_read(), upstream), bytes);
    read_in_pieces(nothing_read(), sent, bytes);
    read_in_pieces(nothing_read(), upstream, bytes);
}

proof fn lemma_follows_heartbeat(sent: Seq<u8>, upstream: Seq<u8>)
    requires
        follows(sent, upstream),
        at_event_boundary(sent),
    ensures
        follows(sent + heartbeat_bytes(), upstream),
{
    lemma_heartbeat_alike(sent);
    two_line_feeds_end_an_event(sent.push(58));
    assert(sent + heartbeat_bytes() =~= sent.push(58) + seq![10u8, 10u8]);
}

proof fn lemma_heartbeats_follow(sent: Seq<u8>, source: Seq<u8>)
    requires
        adds_only_heartbeats(sent, source),
    ensures
        follows(sent, source),
    decreases sent.len(),
{
    if sent.len() > 0 {
        if source.len() > 0 && sent.last() == source.last() && adds_only_heartbeats(
            sent.drop_last(),
            source.drop_last(),
        ) {
            let last = seq![sent.last()];
            lemma_heartbeats_follow(sent.drop_last(), source.drop_last());
            lemma_follows_chunk(sent.drop_last(), source.drop_last(), last);
            assert(sent.drop_last() + last =~= sent);
            assert(source.drop_last() + last =~= source);
        } else {
            let before = sent.take(sent.len() - 3);
            lemma_heartbeats_follow(before, source);
            lemma_follows_heartbeat(before, source);
            assert(before + heartbeat_bytes() =~= sent);
        }
    }
}

/// However many heartbeats are put in at event boundaries, the client reads the same events, and
/// the stream ends at an event boundary exactly if it does without them.
pub proof fn heartbeats_are_invisible(sent: Seq<u8>, source: Seq<u8>)
    requires
        adds_only_heartbeats(sent, source),
    ensures
        events_of(sent) == events_of(source),
        at_event_boundary(sent) == at_event_boundary(source),
{
    lemma_heartbeats_follow(sent, source);
}

/// The pieces of a stream in a row.
pub open spec fn joined(pieces: Seq<Vec<u8>>) -> Seq<u8>
    decreases pieces.len(),
{
    if pieces.len() == 0 {
        Seq::empty()
    } else {
        joined(pieces.drop_last()) + pieces.last()@
    }
}

/// A stream whose last event is complete: the bytes, and where the last event is not complete
/// the two line feeds that end it.
pub open spec fn completed(sent: Seq<u8>) -> Seq<u8> {
    if at_event_boundary(sent) {
        sent
    } else {
        sent + seq![10u8, 10u8]
    }
}

impl Relay {
    #[verifier::type_invariant]
    spec fn wf(&self) -> bool {
        adds_only_heartbeats(self.sent@, self.tracker@)
    }

    /// Nothing came, and nothing was sent yet; a heartbeat is due after `interval` seconds of
    /// silence.
    pub fn new(kind: EndpointKind, interval: u64) -> (res: Self)
        ensures
            res@ == (RelayView { kind, interval, upstream: Seq::empty(), sent: Seq::empty() }),
            adds_only_heartbeats(res@.sent, res@.upstream),
    {
        Relay { kind, interval, tracker: EventBoundaryTracker::new(), sent: Ghost(Seq::empty()) }
    }

    /// The seconds, from when the relay began, after which the interval has passed for the first
    /// time, where nothing came before.
    pub fn first_wait(&self) -> (res: u64)
        ensures
            res == self@.interval,
    {
        self.interval
    }

    /// The interval has passed without a byte for the client: it is sent a heartbeat if the
    /// upstream's stream, and with it the one that the client gets, stands at an event boundary.
    /// Either way the interval starts anew, and the client reads the events of the upstream.
    pub fn on_idle(&mut self) -> (res: Turn)
        ensures
            at_event_boundary(old(self)@.upstream) ==> is_heartbeat(res, old(self)@.interval),
            !at_event_boundary(old(self)@.upstream) ==> is_skipped(res, old(self)@.interval),
            at_event_boundary(old(self)@.sent) == at_event_boundary(old(self)@.upstream),
            final(self)@ == (RelayView {
                sent: if at_event_boundary(old(self)@.upstream) {
                    old(self)@.sent + heartbeat_bytes()
                } else {
                    old(self)@.sent
                },
                ..old(self)@
            }),
            adds_only_heartbeats(final(self)@.sent, final(self)@.upstream),
            events_of(final(self)@.sent) == events_of(final(self)@.upstream),
            at_event_boundary(final(self)@.sent) == at_event_boundary(final(self)@.upstream),
    {
        proof {
            use_type_invariant(&*self);
            heartbeats_are_invisible(self.sent@, self.tracker@);
        }
        if !self.tracker.at_boundary() {
            return Turn { send: None, wait: self.interval };
        }
        proof {
            heartbeat_follows(self.sent@, self.tracker@);
            heartbeats_are_invisible(self.sent@ + heartbeat_bytes(), self.tracker@);
        }
        *self =
        Relay {
            kind: self.kind,
            interval: self.interval,
            tracker: self.tracker,
            sent: Ghost(self.sent@ + heartbeat_bytes()),
        };
        Turn { send: Some(heartbeat()), wait: self.interval }
    }

    /// The next bytes have come from the upstream: they are sent to the client as they are. The
    /// interval starts anew: the result is how many seconds it takes.
    pub fn on_chunk(&mut self, bytes: &[u8]) -> (wait: u64)
        ensures
            wait == old(self)@.interval,
            final(self)@ == (RelayView {
                upstream: old(self)@.upstream + bytes@,
                sent: old(self)@.sent + bytes@,
                ..old(self)@
            }),
            adds_only_heartbeats(final(self)@.sent, final(self)@.upstream),
            events_of(final(self)@.sent) == events_of(final(self)@.upstream),
            at_event_boundary(final(self)@.sent) == at_event_boundary(final(self)@.upstream),
    {
        proof {
            use_type_invariant(&*self);
            same_bytes_follow(self.sent@, self.tracker@, bytes@);
            heartbeats_are_invisible(self.sent@ + bytes@, self.tracker@ + bytes@);
        }
        let mut tracker = self.tracker;
        tracker.feed(bytes);
        *self =
        Relay {
            kind: self.kind,
            interval: self.interval,
            tracker,
            sent: Ghost(self.sent@ + bytes@),
        };
        self.interval
    }

    /// The upstream's body broke off, for the reason given: the event that has begun, if any, is
    /// ended, the client is told what happened, and nothing else is sent. The client has then
    /// read the upstream's events, and behind them those of the error.
    pub fn on_stream_failed(self, reason: &str) -> (res: Vec<Vec<u8>>)
        ensures
            adds_only_heartbeats(self@.sent, self@.upstream),
            self@.sent + joined(res@) == completed(self@.sent) + encode_utf8(
                error_text(self@.kind, None, None, Some(reason@)),
            ),
            res@.len() == (if at_event_boundary(self@.sent) {
                1int
            } else {
                2
            }),
            res@.last()@ == encode_utf8(error_text(self@.kind, None, None, Some(reason@))),
            events_of(self@.sent + joined(res@)) == events_of(completed(self@.upstream))
                + framed_events(
                self@.kind,
                error_payload(self@.kind, None, None, Some(reason@)),
            ),
    {
        proof {
            use_type_invariant(&self);
            lemma_heartbeats_follow(self.sent@, self.tracker@);
        }
        let mut res: Vec<Vec<u8>> = Vec::new();
        if !self.tracker.at_boundary() {
            res.push(vec![10u8, 10u8]);
            assert(res@[0]@ =~= seq![10u8, 10u8]);
        }
        let event = error_event::build(self.kind, None, None, Some(reason));
        res.push(event);
        proof {
            let sent = self.sent@;
            reveal_with_fuel(joined, 3);
            two_line_feeds_end_an_event(sent);
            lemma_follows_chunk(sent, self.tracker@, seq![10u8, 10u8]);
            error_is_read_back(
                completed(sent),
                self.kind,
                error_payload(self.kind, None, None, Some(reason@)),
            );
            assert(sent + joined(res@) =~= completed(sent) + event@);
        }
        res
    }
}

/// How a collection of an error body stands.
pub struct ErrorCollectionView {
    /// The interface that the client uses.
    pub kind: EndpointKind,
    /// Seconds of silence after which a heartbeat is sent.
    pub interval: u64,
    /// The status of the upstream's reply.
    pub status: u16,
    /// The coding of its body; `None` stands for one that cannot be read.
    pub coding: Option<Coding>,
    /// The bytes that were sent to the client.
    pub sent: Seq<u8>,
}

/// The body of an upstream's reply that reports a failure is collected, while the client is kept
/// waiting.
pub struct ErrorCollection {
    kind: EndpointKind,
    interval: u64,
    status: u16,
    coding: Option<Coding>,
    sent: Ghost<Seq<u8>>,
}

impl View for ErrorCollection {
    type V = ErrorCollectionView;

    closed spec fn view(&self) -> ErrorCollectionView {
        ErrorCollectionView {
            kind: self.kind,
            interval: self.interval,
            status: self.status,
            coding: self.coding,
            sent: self.sent@,
        }
    }
}

/// The bytes that a body stands for, where they could be decoded, and the body itself otherwise.
pub open spec fn decoded_or_raw_of(
    body: Seq<u8>,
    decoded: Result<Seq<u8>, DecodeError>,
) -> Seq<u8> {
    match decoded {
        Ok(bytes) => bytes,
        Err(_) => body,
    }
}

/// Gives the bytes that a body stands for, where they could be decoded, and the body itself
/// otherwise.
pub fn decoded_or_raw(body: &[u8], decoded: Result<Vec<u8>, DecodeError>) -> (res: Vec<u8>)
    ensures
        res@ == decoded_or_raw_of(body@, decoded_view(decoded)),
{
    match decoded {
        Ok(bytes) => bytes,
        Err(_) => slice_to_vec(body),
    }
}

/// What an error body in a coding says: it is decoded where it has a coding that can be read and
/// the outcome is not too long.
pub open spec fn readable_body(coding: Option<Coding>, body: Seq<u8>) -> Seq<u8> {
    match coding {
        None => body,
        Some(Coding::Identity) => body,
        Some(c) => decoded_or_raw_of(
            body,
            within_limit(decoder_read(c, body, read_limit(MAX_ERROR_BODY)), MAX_ERROR_BODY),
        ),
    }
}

impl ErrorCollection {
    #[verifier::type_invariant]
    spec fn wf(&self) -> bool {
        only_kept_alive(self.sent@)
    }

    /// The interval has passed without a byte for the client: it is sent a heartbeat, and the
    /// interval starts anew.
    pub fn on_idle(&mut self) -> (res: Turn)
        ensures
            is_heartbeat(res, old(self)@.interval),
            final(self)@ == (ErrorCollectionView {
                sent: old(self)@.sent + heartbeat_bytes(),
                ..old(self)@
            }),
            only_kept_alive(final(self)@.sent),
    {
        proof {
            use_type_invariant(&*self);
            lemma_still_kept_alive(self.sent@);
        }
        *self =
        ErrorCollection {
            kind: self.kind,
            interval: self.interval,
            status: self.status,
            coding: self.coding,
            sent: Ghost(self.sent@ + heartbeat_bytes()),
        };
        Turn { send: Some(heartbeat()), wait: self.interval }
    }

    /// The body has come, or could not be read within the limit (`None`): the client is told
    /// what went wrong, and nothing else is sent.
    pub fn on_body(self, body: Option<&[u8]>) -> (res: Vec<u8>)
        ensures
            ({
                let collected = match error_event::body_view(body) {
                    Some(b) => b,
                    None => Seq::empty(),
                };
                let said = readable_body(self@.coding, collected);
                &&& res@ == encode_utf8(
                    error_text(self@.kind, Some(self@.status), Some(said), None),
                )
                &&& reads_only_error(
                    self@.sent,
                    self@.kind,
                    error_payload(self@.kind, Some(self@.status), Some(said), None),
                )
            }),
    {
        proof {
            use_type_invariant(&self);
        }
        let collected: Vec<u8> = match body {
            Some(b) => slice_to_vec(b),
            None => Vec::new(),
        };
        let ghost all = collected@;
        let said = match self.coding {
            None => collected,
            Some(Coding::Identity) => collected,
            Some(c) => decoded_or_raw(
                collected.as_slice(),
                decode_bytes(c, collected.as_slice(), MAX_ERROR_BODY),
            ),
        };
        assert(said@ == readable_body(self.coding, all));
        let event = error_event::build(
            self.kind,
            Some(self.status),
            Some(said.as_slice()),
            None,
        );
        proof {
            lemma_reads_only_error(
                self.sent@,
                self.kind,
                error_payload(self.kind, Some(self.status), Some(said@), None),
            );
        }
        event
    }
}

} // verus!
