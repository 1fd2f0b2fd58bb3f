//! Decoding reassembled payloads into the frame store, with the real
//! codec linked in.

use camstream::codec::FrameStore;
use camstream::engine::{jpeg_start_marker, DelimitedEngine, JPEG_END_SUFFIX};

fn tiny_jpeg(r: u8, g: u8, b: u8) -> Vec<u8> {
    let mut out: Vec<u8> = Vec::new();
    let mut enc = image::codecs::jpeg::JpegEncoder::new(&mut out);
    enc.encode(&[r, g, b], 1, 1, image::ExtendedColorType::Rgb8)
        .unwrap();
    out
}

#[test]
fn encoded_frames_start_with_the_wire_marker() {
    let jpeg = tiny_jpeg(200, 100, 50);
    let marker = jpeg_start_marker();
    assert_eq!(&jpeg[..marker.len()], &marker[..]);
    assert_eq!(&jpeg[jpeg.len() - 2..], &[0xff, JPEG_END_SUFFIX]);
}

#[test]
fn garbage_payload_fails_to_decode_and_keeps_the_store() {
    let mut store = FrameStore::new(3);
    assert_eq!(store.channel_count(), 3);
    let ok = store.submit(1, &vec![0x00, 0x01, 0x02, 0x03]);
    assert!(!ok);
    assert!(store.frame(1).is_none());
}

#[test]
fn valid_payload_decodes_into_the_channel_slot() {
    let mut store = FrameStore::new(3);
    let jpeg = tiny_jpeg(200, 100, 50);
    let ok = store.submit(2, &jpeg);
    assert!(ok);
    let frame = store.frame(2).as_ref().unwrap();
    assert_eq!(frame.width, 1);
    assert_eq!(frame.height, 1);
    assert_eq!(frame.pixels.len(), 3);
    assert!(store.frame(0).is_none());
    assert!(store.frame(1).is_none());
}

#[test]
fn failed_decode_keeps_the_previous_frame() {
    let mut store = FrameStore::new(1);
    let jpeg = tiny_jpeg(10, 20, 30);
    assert!(store.submit(0, &jpeg));
    assert!(!store.submit(0, &vec![0xde, 0xad]));
    let frame = store.frame(0).as_ref().unwrap();
    assert_eq!(frame.width, 1);
    assert_eq!(frame.height, 1);
}

#[test]
fn stream_to_screen_round_trip() {
    // A full pass: selector byte and encoded frame on the wire, one
    // payload reassembled, decoded, and stored for its channel.
    let jpeg = tiny_jpeg(250, 0, 100);
    let mut stream = vec![b'0'];
    stream.extend_from_slice(&jpeg);

    let mut engine = DelimitedEngine::new(3, jpeg_start_marker(), JPEG_END_SUFFIX, 1 << 20);
    let outs = engine.consume(&stream);
    assert_eq!(outs.len(), 1);
    assert_eq!(outs[0].channel, 0);
    assert_eq!(outs[0].bytes, jpeg);

    let mut store = FrameStore::new(3);
    let ok = store.submit(usize::from(outs[0].channel), &outs[0].bytes);
    assert!(ok);
    let frame = store.frame(0).as_ref().unwrap();
    assert_eq!(frame.width, 1);
    assert_eq!(frame.height, 1);
    assert_eq!(frame.pixels.len(), 3);
}
