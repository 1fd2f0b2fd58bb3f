//! Raw scanline reassembly on concrete streams.

use camstream::raw::RawReassembler;

const VSYNC: [u8; 4] = [2, 2, 253, 253];
const HSYNC: [u8; 4] = [1, 1, 254, 254];

fn new_raw(width: usize, height: usize) -> RawReassembler {
    RawReassembler::new(VSYNC.to_vec(), HSYNC.to_vec(), width, height)
}

#[test]
fn horizontal_syncs_advance_lines() {
    let mut r = new_raw(8, 6);
    let mut stream = Vec::new();
    for _ in 0..3 {
        stream.extend_from_slice(&HSYNC);
    }
    r.consume(&stream);
    assert_eq!(r.cursor_x(), 0);
    assert_eq!(r.cursor_y(), 3);
}

#[test]
fn vertical_sync_rehomes_the_cursor() {
    let mut r = new_raw(8, 6);
    let mut stream = Vec::new();
    stream.extend_from_slice(&HSYNC);
    stream.extend_from_slice(&HSYNC);
    stream.extend_from_slice(&VSYNC);
    r.consume(&stream);
    assert_eq!(r.cursor_x(), 0);
    assert_eq!(r.cursor_y(), 0);
}

#[test]
fn two_bytes_pack_one_pixel() {
    let mut r = new_raw(4, 4);
    r.consume(&[0xff, 0xff]);
    assert_eq!(r.cursor_x(), 1);
    let frame = r.frame_bytes();
    assert_eq!(frame[0], 0xffu8 << 3);
    assert_eq!(frame[1], ((0xffu8 & 0xe0) >> 3) | (0xffu8 << 5));
    assert_eq!(frame[2], 0xffu8 & 0xf8);
    assert_eq!(frame[3], 0);
}

#[test]
fn pixels_fill_along_the_selected_line() {
    let mut r = new_raw(4, 4);
    r.consume(&HSYNC);
    // The sync bytes were tentatively written as pixel data on line 0;
    // the completed marker then moved the cursor to line 1, where the
    // next pair lands.
    r.consume(&[0b00010_000, 0b10000_000]);
    assert_eq!(r.cursor_y(), 1);
    assert_eq!(r.cursor_x(), 1);
    let frame = r.frame_bytes();
    let base = 4 * 4;
    assert_eq!(frame[base], 0b00010_000u8 << 3);
    assert_eq!(frame[base + 2], 0b10000_000u8 & 0xf8);
}

#[test]
fn overlong_lines_drop_pixels_without_growing_the_frame() {
    let mut r = new_raw(2, 1);
    let stream = vec![7u8; 100];
    r.consume(&stream);
    assert_eq!(r.cursor_x(), 2);
    assert_eq!(r.cursor_y(), 0);
    assert_eq!(r.frame_bytes().len(), 2 * 1 * 4);
}

#[test]
fn line_count_saturates_at_the_frame_height() {
    let mut r = new_raw(2, 2);
    let mut stream = Vec::new();
    for _ in 0..5 {
        stream.extend_from_slice(&HSYNC);
    }
    r.consume(&stream);
    assert_eq!(r.cursor_y(), 2);
    assert_eq!(r.cursor_x(), 0);
}

#[test]
fn reset_zeroes_frame_and_cursor() {
    let mut r = new_raw(3, 3);
    r.consume(&[0xff, 0xff, 0xff, 0xff]);
    r.consume(&HSYNC);
    r.reset();
    assert_eq!(r.cursor_x(), 0);
    assert_eq!(r.cursor_y(), 0);
    assert!(r.frame_bytes().iter().all(|b| *b == 0));

    // Replaying the same bytes reproduces the same frame as a fresh run.
    let mut fresh = new_raw(3, 3);
    r.consume(&[0xaa, 0xbb]);
    fresh.consume(&[0xaa, 0xbb]);
    assert_eq!(r.frame_bytes(), fresh.frame_bytes());
}

#[test]
fn split_polls_reassemble_like_one() {
    let mut stream = Vec::new();
    stream.extend_from_slice(&[0x10, 0x20]);
    stream.extend_from_slice(&HSYNC);
    stream.extend_from_slice(&[0x30, 0x40]);

    let mut whole = new_raw(4, 4);
    whole.consume(&stream);

    let mut split = new_raw(4, 4);
    split.consume(&stream[..4]);
    split.consume(&stream[4..]);

    assert_eq!(whole.cursor_x(), split.cursor_x());
    assert_eq!(whole.cursor_y(), split.cursor_y());
    assert_eq!(whole.frame_bytes(), split.frame_bytes());
}
