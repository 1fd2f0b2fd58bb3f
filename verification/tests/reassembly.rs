//! Delimited payload reassembly on concrete streams.

use camstream::delimited::{DelimitedEvent, DelimitedReassembler};
use camstream::engine::jpeg_start_marker;

fn new_reassembler(max_len: usize) -> DelimitedReassembler {
    DelimitedReassembler::new(jpeg_start_marker(), 0xd9, max_len)
}

fn completed_payloads(r: &mut DelimitedReassembler, bytes: &[u8]) -> Vec<Vec<u8>> {
    let mut out = Vec::new();
    for b in bytes {
        if let DelimitedEvent::Completed(p) = r.feed(*b) {
            out.push(p);
        }
    }
    out
}

#[test]
fn one_delimited_frame_is_handed_out_whole() {
    let marker = jpeg_start_marker();
    let payload = [1u8, 2, 3, 4];
    let mut stream = marker.clone();
    stream.extend_from_slice(&payload);
    stream.extend_from_slice(&[0xff, 0xd9]);

    let mut r = new_reassembler(64);
    let outs = completed_payloads(&mut r, &stream);
    assert_eq!(outs.len(), 1);
    assert_eq!(outs[0], stream);

    // Back in seeking mode: a second identical transmission is handed
    // out again.
    let outs2 = completed_payloads(&mut r, &stream);
    assert_eq!(outs2.len(), 1);
    assert_eq!(outs2[0], stream);
}

#[test]
fn empty_payload_between_delimiters() {
    let marker = jpeg_start_marker();
    let mut stream = marker.clone();
    stream.extend_from_slice(&[0xff, 0xd9]);

    let mut r = new_reassembler(64);
    let outs = completed_payloads(&mut r, &stream);
    assert_eq!(outs.len(), 1);
    assert_eq!(outs[0], stream);
}

#[test]
fn restart_discards_stale_partial_frame() {
    let marker = jpeg_start_marker();
    let stale = [9u8, 9, 9];
    let fresh = [7u8, 8];

    let mut stream = marker.clone();
    stream.extend_from_slice(&stale);
    stream.extend_from_slice(&marker);
    stream.extend_from_slice(&fresh);
    stream.extend_from_slice(&[0xff, 0xd9]);

    let mut expected = marker.clone();
    expected.extend_from_slice(&fresh);
    expected.extend_from_slice(&[0xff, 0xd9]);

    let mut r = new_reassembler(64);
    let outs = completed_payloads(&mut r, &stream);
    assert_eq!(outs.len(), 1);
    assert_eq!(outs[0], expected);
}

#[test]
fn restart_event_is_reported() {
    let marker = jpeg_start_marker();
    let mut r = new_reassembler(64);
    for b in &marker {
        r.feed(*b);
    }
    r.feed(1);
    assert_eq!(r.feed(0xff), DelimitedEvent::Accumulated);
    assert_eq!(r.feed(0xd8), DelimitedEvent::Restarted);
}

#[test]
fn oversized_payload_forces_resync() {
    let marker = jpeg_start_marker();
    let mut r = new_reassembler(12);
    let mut opened = false;
    for b in &marker {
        if r.feed(*b) == DelimitedEvent::Opened {
            opened = true;
        }
    }
    assert!(opened);
    assert_eq!(r.feed(1), DelimitedEvent::Accumulated);
    assert_eq!(r.feed(2), DelimitedEvent::Accumulated);
    assert_eq!(r.feed(3), DelimitedEvent::Overrun);

    // Recovered: a whole transmission afterwards is handed out.
    let mut stream = marker.clone();
    stream.extend_from_slice(&[0xff, 0xd9]);
    let outs = completed_payloads(&mut r, &stream);
    assert_eq!(outs.len(), 1);
}

#[test]
fn bytes_before_the_start_marker_are_ignored() {
    let marker = jpeg_start_marker();
    let mut stream = vec![0x42u8, 0x00, 0x13];
    stream.extend_from_slice(&marker);
    stream.extend_from_slice(&[5]);
    stream.extend_from_slice(&[0xff, 0xd9]);

    let mut expected = marker.clone();
    expected.extend_from_slice(&[5]);
    expected.extend_from_slice(&[0xff, 0xd9]);

    let mut r = new_reassembler(64);
    let outs = completed_payloads(&mut r, &stream);
    assert_eq!(outs.len(), 1);
    assert_eq!(outs[0], expected);
}

#[test]
fn reset_returns_to_seeking_from_accumulation() {
    let marker = jpeg_start_marker();
    let mut r = new_reassembler(64);
    for b in &marker {
        r.feed(*b);
    }
    r.feed(1);
    r.reset();

    // Replaying a whole transmission from scratch hands out the same
    // payload a fresh reassembler would.
    let mut stream = marker.clone();
    stream.extend_from_slice(&[1, 2]);
    stream.extend_from_slice(&[0xff, 0xd9]);
    let outs = completed_payloads(&mut r, &stream);
    assert_eq!(outs.len(), 1);
    assert_eq!(outs[0], stream);
}
