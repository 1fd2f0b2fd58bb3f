//! Marker matcher behavior on concrete streams.

use camstream::marker::{FeedResult, MarkerMatcher};

fn feed_seq(m: &mut MarkerMatcher, bytes: &[u8]) -> usize {
    m.feed_all(bytes)
}

#[test]
fn exact_marker_completes_once() {
    let mut m = MarkerMatcher::new_exact(vec![1, 1, 254, 254]);
    assert_eq!(feed_seq(&mut m, &[1, 1, 254, 254]), 1);
}

#[test]
fn exact_marker_repeated_counts_each_repetition() {
    let mut m = MarkerMatcher::new_exact(vec![1, 1, 254, 254]);
    let stream = [1, 1, 254, 254, 1, 1, 254, 254, 1, 1, 254, 254];
    assert_eq!(feed_seq(&mut m, &stream), 3);
}

#[test]
fn exact_marker_mismatch_does_not_retry_byte() {
    // After 1, 1 the third 1 mismatches position 2 and is discarded
    // outright: it does not restart a fresh match, so the remainder
    // finds no marker. This is the wire protocol's accepted limitation.
    let mut m = MarkerMatcher::new_exact(vec![1, 1, 254, 254]);
    assert_eq!(feed_seq(&mut m, &[1, 1, 1, 254, 254]), 0);
}

#[test]
fn exact_marker_feed_reports_steps() {
    let mut m = MarkerMatcher::new_exact(vec![7, 8]);
    assert_eq!(m.feed(9), FeedResult::NoMatch);
    assert_eq!(m.feed(7), FeedResult::Progress);
    assert_eq!(m.feed(8), FeedResult::Complete);
    assert_eq!(m.feed(8), FeedResult::NoMatch);
}

#[test]
fn ambiguous_marker_back_to_back_completes_twice() {
    let marker = camstream::engine::jpeg_start_marker();
    let mut stream = marker.clone();
    stream.extend_from_slice(&marker);
    let mut m = MarkerMatcher::new_ambiguous(marker);
    assert_eq!(feed_seq(&mut m, &stream), 2);
}

#[test]
fn ambiguous_marker_resynchronizes_on_interior_byte() {
    // 0xff matches position 0; 0xe0 mismatches position 1 but occurs at
    // position 3 of the marker, so the cursor resumes there instead of
    // resetting: the marker is recognized from its self-overlap.
    let marker = camstream::engine::jpeg_start_marker();
    let mut m = MarkerMatcher::new_ambiguous(marker);
    let stream = [0xff, 0xe0, 0x00, 0x10, 0x4a, 0x46, 0x49, 0x46];
    assert_eq!(feed_seq(&mut m, &stream), 1);
}

#[test]
fn exact_marker_does_not_resynchronize_on_interior_byte() {
    let marker = camstream::engine::jpeg_start_marker();
    let mut m = MarkerMatcher::new_exact(marker);
    let stream = [0xff, 0xe0, 0x00, 0x10, 0x4a, 0x46, 0x49, 0x46];
    assert_eq!(feed_seq(&mut m, &stream), 0);
}

#[test]
fn reset_forgets_partial_match() {
    let mut m = MarkerMatcher::new_exact(vec![5, 6, 7]);
    assert_eq!(m.feed(5), FeedResult::Progress);
    assert_eq!(m.feed(6), FeedResult::Progress);
    m.reset();
    assert_eq!(m.feed(7), FeedResult::NoMatch);
    assert_eq!(feed_seq(&mut m, &[5, 6, 7]), 1);
}

#[test]
fn split_feeding_matches_whole_feeding() {
    // A marker split across two polls still completes: partial-match
    // state survives the poll boundary.
    let mut split = MarkerMatcher::new_exact(vec![2, 2, 253, 253]);
    let first = feed_seq(&mut split, &[9, 2, 2]);
    let second = feed_seq(&mut split, &[253, 253, 9]);
    assert_eq!(first + second, 1);

    let mut whole = MarkerMatcher::new_exact(vec![2, 2, 253, 253]);
    assert_eq!(feed_seq(&mut whole, &[9, 2, 2, 253, 253, 9]), 1);
}
