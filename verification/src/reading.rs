//! How a client reads a stream of server-sent events, and what it does not notice.

use crate::boundary::{at_event_boundary, ends_line, is_line_break, without_final_break};
use vstd::prelude::*;

verus! {

/// Where the reading of a stream stands.
#[verifier::ext_equal]
pub struct Reading {
    /// The events that were read: of each, the lines, without those that are comments.
    pub events: Seq<Seq<Seq<u8>>>,
    /// The lines of the event that has begun, without those that are comments.
    pub lines: Seq<Seq<u8>>,
    /// The line that has begun.
    pub line: Seq<u8>,
    /// The last byte was a carriage return, so a line feed ends no further line.
    pub after_cr: bool,
}

/// Nothing was read yet.
pub open spec fn nothing_read() -> Reading {
    Reading { events: Seq::empty(), lines: Seq::empty(), line: Seq::empty(), after_cr: false }
}

/// The line that has begun ends here. An empty line ends the event, unless that has no lines; a
/// line that starts with a colon is a comment.
pub open spec fn end_line(r: Reading) -> Reading {
    if r.line.len() == 0 {
        if r.lines.len() == 0 {
            r
        } else {
            Reading { events: r.events.push(r.lines), lines: Seq::empty(), ..r }
        }
    } else if r.line[0] == 58 {
        Reading { line: Seq::empty(), ..r }
    } else {
        Reading { lines: r.lines.push(r.line), line: Seq::empty(), ..r }
    }
}

/// One more byte is read. Lines end with LF, CR, or the pair CR LF.
pub open spec fn read_byte(r: Reading, b: u8) -> Reading {
    if b == 10 {
        if r.after_cr {
            Reading { after_cr: false, ..r }
        } else {
            end_line(r)
        }
    } else if b == 13 {
        Reading { after_cr: true, ..end_line(r) }
    } else {
        Reading { line: r.line.push(b), after_cr: false, ..r }
    }
}

/// The bytes `s` are read one after the other.
pub open spec fn read(r: Reading, s: Seq<u8>) -> Reading
    decreases s.len(),
{
    if s.len() == 0 {
        r
    } else {
        read_byte(read(r, s.drop_last()), s.last())
    }
}

/// The events that a client reads from a stream.
pub open spec fn events_of(s: Seq<u8>) -> Seq<Seq<Seq<u8>>> {
    read(nothing_read(), s).events
}

/// The bytes of a heartbeat: an event stream's comment, and the empty line behind it.
pub open spec fn heartbeat_bytes() -> Seq<u8> {
    seq![58u8, 10u8, 10u8]
}

/// The bytes `sent` are the bytes `source`, all of them and in their order, with nothing put in but
/// heartbeats, each at a place where what stands before it ends at an event boundary.
pub open spec fn adds_only_heartbeats(sent: Seq<u8>, source: Seq<u8>) -> bool
    decreases sent.len(),
{
    ||| sent.len() == 0 && source.len() == 0
    ||| {
        &&& sent.len() > 0
        &&& source.len() > 0
        &&& sent.last() == source.last()
        &&& adds_only_heartbeats(sent.drop_last(), source.drop_last())
    }
    ||| {
        &&& heartbeat_bytes().is_suffix_of(sent)
        &&& at_event_boundary(sent.take(sent.len() - 3))
        &&& adds_only_heartbeats(sent.take(sent.len() - 3), source)
    }
}

/// The same bytes can be put behind both.
pub proof fn same_bytes_follow(sent: Seq<u8>, source: Seq<u8>, bytes: Seq<u8>)
    requires
        adds_only_heartbeats(sent, source),
    ensures
        adds_only_heartbeats(sent + bytes, source + bytes),
    decreases bytes.len(),
{
    if bytes.len() == 0 {
        assert(sent + bytes =~= sent);
        assert(source + bytes =~= source);
    } else {
        same_bytes_follow(sent, source, bytes.drop_last());
        assert((sent + bytes).drop_last() =~= sent + bytes.drop_last());
        assert((source + bytes).drop_last() =~= source + bytes.drop_last());
    }
}

/// A heartbeat can be put behind what is sent where that ends at an event boundary.
pub proof fn heartbeat_follows(sent: Seq<u8>, source: Seq<u8>)
    requires
        adds_only_heartbeats(sent, source),
        at_event_boundary(sent),
    ensures
        adds_only_heartbeats(sent + heartbeat_bytes(), source),
{
    let longer = sent + heartbeat_bytes();
    assert(longer.take(longer.len() - 3) =~= sent);
    assert(longer.subrange(longer.len() - 3, longer.len() as int) =~= heartbeat_bytes());
}

/// No event has begun.
pub open spec fn between_events(r: Reading) -> bool {
    r.lines.len() == 0 && r.line.len() == 0
}

/// Two readings from which the same bytes lead to the same events: they differ, if at all, in a
/// carriage return that stands between two events.
pub open spec fn reads_on_alike(a: Reading, b: Reading) -> bool {
    &&& a.events == b.events
    &&& a.lines == b.lines
    &&& a.line == b.line
    &&& a.after_cr == b.after_cr || between_events(a)
}

/// Reading two pieces one after the other is reading them together.
pub proof fn read_in_pieces(r: Reading, a: Seq<u8>, b: Seq<u8>)
    ensures
        read(r, a + b) == read(read(r, a), b),
    decreases b.len(),
{
    if b.len() == 0 {
        assert(a + b =~= a);
    } else {
        assert((a + b).drop_last() =~= a + b.drop_last());
        read_in_pieces(r, a, b.drop_last());
    }
}

pub(crate) proof fn lemma_alike_after(a: Reading, b: Reading, s: Seq<u8>)
    requires
        reads_on_alike(a, b),
    ensures
        reads_on_alike(read(a, s), read(b, s)),
    decreases s.len(),
{
    if s.len() > 0 {
        lemma_alike_after(a, b, s.drop_last());
    }
}

/// What the bytes read so far tell of a reading.
proof fn lemma_reading_describes(s: Seq<u8>)
    ensures
        read(nothing_read(), s).line.len() == 0 <==> s.len() == 0 || ends_line(s),
        read(nothing_read(), s).after_cr <==> s.len() > 0 && s.last() == 13,
    decreases s.len(),
{
    if s.len() > 0 {
        lemma_reading_describes(s.drop_last());
    }
}

/// At an event boundary no event has begun: neither a line nor a part of one is pending.
pub proof fn boundary_is_between_events(s: Seq<u8>)
    requires
        at_event_boundary(s),
    ensures
        between_events(read(nothing_read(), s)),
{
    if s.len() > 0 {
        let t = s.drop_last();
        let rest = without_final_break(s);
        lemma_reading_describes(t);
        lemma_reading_describes(rest);
        lemma_reading_describes(s);
        if t.len() > 0 && t.last() == 13 && s.last() == 10 {
            assert(rest =~= t.drop_last());
        } else {
            assert(rest =~= t);
        }
    }
}

/// A heartbeat that stands at an event boundary is invisible: whatever follows it, the client
/// reads the same events as without it.
pub proof fn heartbeat_is_invisible(before: Seq<u8>, after: Seq<u8>)
    requires
        at_event_boundary(before),
    ensures
        events_of(before + heartbeat_bytes() + after) == events_of(before + after),
{
    let r = read(nothing_read(), before);
    lemma_heartbeat_alike(before);
    lemma_alike_after(read(nothing_read(), before + heartbeat_bytes()), r, after);
    read_in_pieces(nothing_read(), before + heartbeat_bytes(), after);
    read_in_pieces(nothing_read(), before, after);
}

pub(crate) proof fn lemma_heartbeat_alike(before: Seq<u8>)
    requires
        at_event_boundary(before),
    ensures
        reads_on_alike(
            read(nothing_read(), before + heartbeat_bytes()),
            read(nothing_read(), before),
        ),
{
    let r = read(nothing_read(), before);
    boundary_is_between_events(before);
    let s1 = before.push(58);
    let s2 = s1.push(10);
    let s3 = s2.push(10);
    assert(s3 =~= before + heartbeat_bytes());
    assert(s1.drop_last() =~= before);
    assert(s2.drop_last() =~= s1);
    assert(s3.drop_last() =~= s2);
    let r1 = read(nothing_read(), s1);
    assert(r1.line =~= seq![58u8]);
    let r2 = read(nothing_read(), s2);
    assert(r2.line =~= r.line);
    assert(r2.lines =~= r.lines);
}

/// The bytes hold no line break.
pub open spec fn is_unbroken(s: Seq<u8>) -> bool {
    forall|i: int| 0 <= i < s.len() ==> !is_line_break(#[trigger] s[i])
}

proof fn lemma_read_unbroken(r: Reading, s: Seq<u8>)
    requires
        is_unbroken(s),
    ensures
        read(r, s) == (Reading { line: r.line + s, after_cr: r.after_cr && s.len() == 0, ..r }),
    decreases s.len(),
{
    if s.len() > 0 {
        lemma_read_unbroken(r, s.drop_last());
        assert(!is_line_break(s[s.len() - 1]));
        assert(r.line + s =~= (r.line + s.drop_last()).push(s.last()));
    } else {
        assert(r.line + s =~= r.line);
    }
}

/// Lines that belong to an event: they are not empty, are no comments and hold no line break.
pub open spec fn are_event_lines(lines: Seq<Seq<u8>>) -> bool {
    forall|i: int|
        0 <= i < lines.len() ==> #[trigger] lines[i].len() > 0 && lines[i][0] != 58 && is_unbroken(
            lines[i],
        )
}

/// The lines, each with a line feed behind it.
pub open spec fn written(lines: Seq<Seq<u8>>) -> Seq<u8>
    decreases lines.len(),
{
    if lines.len() == 0 {
        Seq::empty()
    } else {
        written(lines.drop_last()) + lines.last() + seq![10u8]
    }
}

proof fn lemma_read_lines(r: Reading, lines: Seq<Seq<u8>>)
    requires
        between_events(r),
        are_event_lines(lines),
    ensures
        read(r, written(lines)) == (Reading {
            lines: lines,
            line: Seq::empty(),
            after_cr: r.after_cr && lines.len() == 0,
            ..r
        }),
    decreases lines.len(),
{
    if lines.len() == 0 {
        assert(r.lines =~= lines);
        assert(r.line =~= Seq::empty());
    } else {
        let before = written(lines.drop_last());
        let line = lines.last();
        assert(lines[lines.len() - 1] == line);
        lemma_read_lines(r, lines.drop_last());
        let s = read(r, before);
        read_in_pieces(r, before, line);
        lemma_read_unbroken(s, line);
        assert(s.line + line =~= line);
        assert(written(lines).drop_last() =~= before + line);
        assert(lines.drop_last().push(line) =~= lines);
    }
}

/// The lines of an event and an empty line, written where no event has begun, are read as that
/// one event.
pub proof fn written_event_is_read(before: Seq<u8>, lines: Seq<Seq<u8>>)
    requires
        between_events(read(nothing_read(), before)),
        are_event_lines(lines),
        lines.len() > 0,
    ensures
        events_of(before + (written(lines) + seq![10u8])) == events_of(before).push(lines),
        between_events(read(nothing_read(), before + (written(lines) + seq![10u8]))),
{
    let r = read(nothing_read(), before);
    let s = written(lines) + seq![10u8];
    lemma_read_lines(r, lines);
    assert(s.drop_last() =~= written(lines));
    read_in_pieces(nothing_read(), before, s);
}

} // verus!
