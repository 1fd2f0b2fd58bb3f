//! The engine over both protocols: channel selection, batch splitting,
//! and replay after a reset.

use camstream::engine::{
    jpeg_start_marker, CompletedPayload, DelimitedEngine, Engine, JPEG_END_SUFFIX,
};
use camstream::raw::RawReassembler;

fn delimited_engine() -> DelimitedEngine {
    DelimitedEngine::new(3, jpeg_start_marker(), JPEG_END_SUFFIX, 4096)
}

fn transmission(payload: &[u8]) -> Vec<u8> {
    let mut t = jpeg_start_marker();
    t.extend_from_slice(payload);
    t.extend_from_slice(&[0xff, JPEG_END_SUFFIX]);
    t
}

#[test]
fn selector_routes_payload_to_its_channel() {
    let mut e = delimited_engine();
    let t = transmission(&[1, 2, 3]);
    let mut stream = vec![b'1'];
    stream.extend_from_slice(&t);

    let outs = e.consume(&stream);
    assert_eq!(outs.len(), 1);
    assert_eq!(outs[0].channel, 1);
    assert_eq!(outs[0].bytes, t);
}

#[test]
fn invalid_selector_bytes_are_ignored() {
    let mut e = delimited_engine();
    let t = transmission(&[9]);
    // '3' is out of range for three channels; 'x' is no digit at all.
    let mut stream = vec![b'3', b'x', 0x00, b'2'];
    stream.extend_from_slice(&t);

    let outs = e.consume(&stream);
    assert_eq!(outs.len(), 1);
    assert_eq!(outs[0].channel, 2);
}

#[test]
fn selection_reverts_after_each_completed_payload() {
    let mut e = delimited_engine();
    let t0 = transmission(&[4]);
    let t2 = transmission(&[5, 6]);
    let mut stream = vec![b'0'];
    stream.extend_from_slice(&t0);
    stream.extend_from_slice(&[b'2']);
    stream.extend_from_slice(&t2);

    let outs = e.consume(&stream);
    assert_eq!(outs.len(), 2);
    assert_eq!(outs[0].channel, 0);
    assert_eq!(outs[0].bytes, t0);
    assert_eq!(outs[1].channel, 2);
    assert_eq!(outs[1].bytes, t2);
}

#[test]
fn short_reads_do_not_corrupt_reassembly() {
    let t = transmission(&[11, 22, 33]);
    let mut stream = vec![b'0'];
    stream.extend_from_slice(&t);

    // One uninterrupted poll.
    let mut whole = delimited_engine();
    let outs_whole = whole.consume(&stream);

    // The same bytes over three polls, split inside the start marker
    // and inside the payload.
    let mut split = delimited_engine();
    let mut outs_split: Vec<CompletedPayload> = Vec::new();
    outs_split.extend(split.consume(&stream[..6]));
    outs_split.extend(split.consume(&stream[6..14]));
    outs_split.extend(split.consume(&stream[14..]));

    assert_eq!(outs_whole, outs_split);
    assert_eq!(outs_whole.len(), 1);
}

#[test]
fn replay_after_reset_hands_out_the_same_payloads() {
    let t = transmission(&[1, 2, 3, 4, 5]);
    let mut stream = vec![b'1'];
    stream.extend_from_slice(&t);
    // A second, truncated transmission that never completes.
    stream.extend_from_slice(&[b'0']);
    stream.extend_from_slice(&jpeg_start_marker());
    stream.extend_from_slice(&[7, 7]);

    let mut e = delimited_engine();
    let first = e.consume(&stream);
    e.reset();
    let second = e.consume(&stream);
    assert_eq!(first, second);
    assert_eq!(first.len(), 1);
}

#[test]
fn engine_enum_runs_the_delimited_protocol() {
    let mut e = Engine::Delimited(delimited_engine());
    let t = transmission(&[42]);
    let mut stream = vec![b'0'];
    stream.extend_from_slice(&t);
    let outs = e.consume(&stream);
    assert_eq!(outs.len(), 1);
    assert_eq!(outs[0].channel, 0);
}

#[test]
fn engine_enum_runs_the_raw_protocol() {
    let raw = RawReassembler::new(vec![2, 2, 253, 253], vec![1, 1, 254, 254], 4, 3);
    let mut e = Engine::Raw(raw);
    let outs = e.consume(&[1, 1, 254, 254]);
    assert_eq!(outs.len(), 0);
    match &e {
        Engine::Raw(r) => {
            assert_eq!(r.cursor_x(), 0);
            assert_eq!(r.cursor_y(), 1);
        },
        Engine::Delimited(_) => unreachable!(),
    }
}

#[test]
fn engine_reset_restores_the_initial_state() {
    let mut e = Engine::Delimited(delimited_engine());
    // Leave the engine mid-frame.
    let mut stream = vec![b'0'];
    stream.extend_from_slice(&jpeg_start_marker());
    stream.extend_from_slice(&[1, 2, 3]);
    assert_eq!(e.consume(&stream).len(), 0);
    e.reset();

    // A fresh transmission is reassembled as from a fresh engine.
    let t = transmission(&[8]);
    let mut stream2 = vec![b'2'];
    stream2.extend_from_slice(&t);
    let outs = e.consume(&stream2);
    assert_eq!(outs.len(), 1);
    assert_eq!(outs[0].channel, 2);
    assert_eq!(outs[0].bytes, t);
}
