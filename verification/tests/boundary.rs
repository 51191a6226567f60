//! Where events end in a stream of bytes.

use keep_sse::boundary::EventBoundaryTracker;

#[test]
fn boundary_lf_lf() {
    let mut t = EventBoundaryTracker::new();
    assert!(t.at_boundary());
    t.feed(b"data: hi\n\n");
    assert!(t.at_boundary());
}

#[test]
fn boundary_crlf_crlf() {
    let mut t = EventBoundaryTracker::new();
    t.feed(b"data: hi\r\n\r\n");
    assert!(t.at_boundary());
}

#[test]
fn boundary_mixed_terminators() {
    let mut t = EventBoundaryTracker::new();
    t.feed(b"data: a\n\r\n");
    assert!(t.at_boundary());
}

#[test]
fn boundary_mid_event_not_at_boundary() {
    let mut t = EventBoundaryTracker::new();
    t.feed(b"data: hi");
    assert!(!t.at_boundary());
    t.feed(b"\n");
    assert!(!t.at_boundary());
    t.feed(b"\n");
    assert!(t.at_boundary());
}

#[test]
fn boundary_split_across_feeds() {
    let mut t = EventBoundaryTracker::new();
    t.feed(b"data: hi\n");
    assert!(!t.at_boundary());
    t.feed(b"\n");
    assert!(t.at_boundary());
}

#[test]
fn boundary_cr_only_terminator() {
    let mut t = EventBoundaryTracker::new();
    t.feed(b"data: hi\r\r");
    assert!(t.at_boundary());
}

#[test]
fn boundary_cr_then_non_newline() {
    let mut t = EventBoundaryTracker::new();
    t.feed(b"data: hi\r");
    t.feed(b"data: bye\r\r");
    assert!(t.at_boundary());
}

#[test]
fn empty_feed_changes_nothing() {
    let mut t = EventBoundaryTracker::new();
    t.feed(b"");
    assert!(t.at_boundary());
    t.feed(b"x");
    t.feed(b"");
    assert!(!t.at_boundary());
}

#[test]
fn a_pair_split_between_feeds_ends_one_line() {
    let mut t = EventBoundaryTracker::new();
    t.feed(b"data: hi\r");
    t.feed(b"\n");
    assert!(!t.at_boundary());
    t.feed(b"\r");
    assert!(t.at_boundary());
    t.feed(b"\n");
    assert!(t.at_boundary());
}

#[test]
fn leading_empty_line_is_a_boundary() {
    let mut t = EventBoundaryTracker::new();
    t.feed(b"\n");
    assert!(t.at_boundary());
}

#[test]
fn feeding_byte_by_byte_agrees_with_feeding_at_once() {
    let streams: [&[u8]; 6] = [
        b"data: a\n\ndata: b\r\n\r\n",
        b"\r\n\r\nx\r\r\n",
        b"a\rb\r\r",
        b"a\n\r\n\r",
        b":\n\n",
        b"a\r\n",
    ];
    for stream in streams {
        for end in 0..=stream.len() {
            let mut at_once = EventBoundaryTracker::new();
            at_once.feed(&stream[..end]);
            let mut one_by_one = EventBoundaryTracker::new();
            for b in &stream[..end] {
                one_by_one.feed(&[*b]);
            }
            assert_eq!(at_once.at_boundary(), one_by_one.at_boundary());
        }
    }
}
