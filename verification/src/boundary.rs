//! Where the events of a server-sent-event byte stream end.

use vstd::prelude::*;
use vstd::slice::slice_subrange;

verus! {

/// `memchr::memchr2`: the index of the first byte of `haystack` that equals one of the two
/// needles, or `None` where neither occurs.
pub assume_specification[ memchr::memchr2 ](needle1: u8, needle2: u8, haystack: &[u8]) -> (res:
    Option<usize>)
    ensures
        match res {
            Some(i) => {
                &&& i < haystack@.len()
                &&& (haystack@[i as int] == needle1 || haystack@[i as int] == needle2)
                &&& forall|j: int| 0 <= j < i ==> haystack@[j] != needle1 && haystack@[j] != needle2
            },
            None => forall|j: int|
                0 <= j < haystack@.len() ==> haystack@[j] != needle1 && haystack@[j] != needle2,
        },
;

/// A line of an event stream ends with LF, CR, or the pair CR LF.
pub open spec fn is_line_break(b: u8) -> bool {
    b == 10 || b == 13
}

/// The stream stands right behind a line terminator.
pub open spec fn ends_line(s: Seq<u8>) -> bool {
    s.len() > 0 && is_line_break(s.last())
}

/// The stream without the line terminator that it ends with; CR LF counts as one terminator.
pub open spec fn without_final_break(s: Seq<u8>) -> Seq<u8>
    recommends
        ends_line(s),
{
    if s.len() >= 2 && s[s.len() - 2] == 13 && s[s.len() - 1] == 10 {
        s.take(s.len() - 2)
    } else {
        s.take(s.len() - 1)
    }
}

/// The stream stands at its very start or behind an empty line, which is what ends an event.
pub open spec fn at_event_boundary(s: Seq<u8>) -> bool {
    s.len() == 0 || {
        let rest = without_final_break(s);
        ends_line(s) && (rest.len() == 0 || ends_line(rest))
    }
}

/// Watches the bytes of an event stream go by and knows whether the stream stands at an event
/// boundary. It keeps three flags, whatever the length of the stream.
#[derive(Clone, Copy)]
pub struct EventBoundaryTracker {
    at_boundary: bool,
    line_empty: bool,
    prev_cr: bool,
    seen: Ghost<Seq<u8>>,
}

/// What the three flags say of a stream.
spec fn flags_describe(s: Seq<u8>, at_boundary: bool, line_empty: bool, prev_cr: bool) -> bool {
    &&& at_boundary == at_event_boundary(s)
    &&& line_empty == (s.len() == 0 || ends_line(s))
    &&& prev_cr == (s.len() > 0 && s.last() == 13)
}

impl View for EventBoundaryTracker {
    type V = Seq<u8>;

    /// All the bytes that were fed so far.
    closed spec fn view(&self) -> Seq<u8> {
        self.seen@
    }
}

impl EventBoundaryTracker {
    #[verifier::type_invariant]
    spec fn wf(&self) -> bool {
        flags_describe(self.seen@, self.at_boundary, self.line_empty, self.prev_cr)
    }

    /// A tracker for a stream of which nothing was seen.
    pub fn new() -> (res: Self)
        ensures
            res@ == Seq::<u8>::empty(),
    {
        EventBoundaryTracker {
            at_boundary: true,
            line_empty: true,
            prev_cr: false,
            seen: Ghost(Seq::empty()),
        }
    }

    /// Whether the stream seen so far stands at an event boundary.
    pub fn at_boundary(&self) -> (res: bool)
        ensures
            res == at_event_boundary(self@),
    {
        proof {
            use_type_invariant(self);
        }
        self.at_boundary
    }

    /// Takes note of the next bytes of the stream. Runs of bytes without a line break are
    /// skipped as a whole.
    pub fn feed(&mut self, bytes: &[u8])
        ensures
            final(self)@ == old(self)@ + bytes@,
    {
        proof {
            use_type_invariant(&*self);
        }
        let ghost before = self.seen@;
        let mut at_boundary = self.at_boundary;
        let mut line_empty = self.line_empty;
        let mut prev_cr = self.prev_cr;
        let mut pos: usize = 0;
        assert(before + bytes@.take(0) =~= before);
        while pos < bytes.len()
            invariant
                pos <= bytes@.len(),
                flags_describe(
                    before + bytes@.take(pos as int),
                    at_boundary,
                    line_empty,
                    prev_cr,
                ),
            decreases bytes@.len() - pos,
        {
            let rest = slice_subrange(bytes, pos, bytes.len());
            let found = memchr::memchr2(10u8, 13u8, rest);
            let next: usize = match found {
                Some(i) => pos + i,
                None => bytes.len(),
            };
            assert(forall|j: int| pos <= j < next ==> !is_line_break(#[trigger] bytes@[j])) by {
                assert forall|j: int| pos <= j < next implies !is_line_break(
                    #[trigger] bytes@[j],
                ) by {
                    assert(rest@[j - pos] == bytes@[j]);
                }
            }
            let ghost s = before + bytes@.take(pos as int);
            let ghost t = before + bytes@.take(next as int);
            if next > pos {
                prev_cr = false;
                at_boundary = false;
                line_empty = false;
                assert(t.last() == bytes@[next - 1]);
            } else {
                assert(t =~= s);
            }
            if next < bytes.len() {
                let b = bytes[next];
                assert(b == rest@[next - pos]);
                let ghost u = before + bytes@.take(next + 1);
                assert(u =~= t.push(b));
                proof {
                    lemma_one_break(t, b);
                }
                if b == 10 {
                    if prev_cr {
                        prev_cr = false;
                    } else if line_empty {
                        at_boundary = true;
                    } else {
                        at_boundary = false;
                        line_empty = true;
                    }
                } else {
                    if line_empty {
                        at_boundary = true;
                    } else {
                        at_boundary = false;
                        line_empty = true;
                    }
                    prev_cr = true;
                }
                pos = next + 1;
            } else {
                pos = next;
            }
        }
        assert(bytes@.take(pos as int) =~= bytes@);
        *self =
        EventBoundaryTracker { at_boundary, line_empty, prev_cr, seen: Ghost(before + bytes@) };
    }
}

/// How one more line break changes what the flags describe.
proof fn lemma_one_break(t: Seq<u8>, b: u8)
    requires
        is_line_break(b),
    ensures
        ends_line(t.push(b)),
        t.len() > 0 && t.last() == 13 && b == 10 ==> at_event_boundary(t.push(b))
            == at_event_boundary(t),
        !(t.len() > 0 && t.last() == 13 && b == 10) ==> at_event_boundary(t.push(b)) == (t.len()
            == 0 || ends_line(t)),
{
    let u = t.push(b);
    if t.len() > 0 && t.last() == 13 && b == 10 {
        assert(u.take(u.len() - 2) =~= t.take(t.len() - 1));
    } else {
        assert(u.take(u.len() - 1) =~= t);
    }
}

/// How one more byte that is no line break changes what the flags describe.
proof fn lemma_one_content_byte(t: Seq<u8>, b: u8)
    requires
        !is_line_break(b),
    ensures
        !ends_line(t.push(b)),
        !at_event_boundary(t.push(b)),
{
}

/// Two streams after which the same bytes lead to the same event boundaries: they differ, if at
/// all, in a carriage return at the end where both stand at a boundary.
pub open spec fn same_place(a: Seq<u8>, b: Seq<u8>) -> bool {
    &&& at_event_boundary(a) == at_event_boundary(b)
    &&& (a.len() == 0 || ends_line(a)) == (b.len() == 0 || ends_line(b))
    &&& at_event_boundary(a) || (a.len() > 0 && a.last() == 13) == (b.len() > 0 && b.last() == 13)
}

/// Streams that are at the same place stay so when the same bytes follow.
pub proof fn same_place_after(a: Seq<u8>, b: Seq<u8>, bytes: Seq<u8>)
    requires
        same_place(a, b),
    ensures
        same_place(a + bytes, b + bytes),
    decreases bytes.len(),
{
    if bytes.len() == 0 {
        assert(a + bytes =~= a);
        assert(b + bytes =~= b);
    } else {
        let s = a + bytes.drop_last();
        let t = b + bytes.drop_last();
        let x = bytes.last();
        same_place_after(a, b, bytes.drop_last());
        assert(a + bytes =~= s.push(x));
        assert(b + bytes =~= t.push(x));
        if is_line_break(x) {
            lemma_one_break(s, x);
            lemma_one_break(t, x);
        } else {
            lemma_one_content_byte(s, x);
            lemma_one_content_byte(t, x);
        }
    }
}

/// Two line feeds end whatever event has begun.
pub proof fn two_line_feeds_end_an_event(s: Seq<u8>)
    ensures
        at_event_boundary(s + seq![10u8, 10u8]),
{
    let t = s + seq![10u8, 10u8];
    assert(without_final_break(t) =~= s.push(10));
}

} // verus!
