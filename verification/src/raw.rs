//! Reassembly of raw scanline video framed by sync markers.
//!
//! A [`RawReassembler`] walks a pixel cursor over a fixed-size frame
//! buffer. Each incoming byte is first treated, tentatively, as pixel
//! data: two consecutive bytes form one two-byte color sample that is
//! packed into the four-byte pixel under the cursor, and the cursor
//! advances one pixel per pair. The byte is then fed to a vertical-sync
//! matcher, and only if that reports nothing to a horizontal-sync
//! matcher. A completed vertical sync moves the cursor to the frame's
//! top-left and discards any partial horizontal match; a completed
//! horizontal sync moves the cursor to the start of the next line. Since
//! the wire format has no escaping, marker bytes share the pixel
//! alphabet, and the bytes of a marker are written as pixel data until
//! the match completes; the next sync realigns the cursor. A cursor that
//! has run off the frame writes nothing: every frame write is bounds
//! checked, and out-of-range coordinates drop the byte silently.

use vstd::prelude::*;

use crate::marker::{match_completes, match_step, seq_repeat, FeedResult, MarkerMatcher};

verus! {

/// The abstract state of a raw reassembler: the pixel cursor, the pair
/// phase, both sync cursors, and the frame contents.
#[verifier::ext_equal]
pub ghost struct RawModel {
    /// Pixel column; `width` means the line has run full.
    pub x: nat,
    /// Pixel row; `height` means the frame has run full.
    pub y: nat,
    /// Whether the next byte is the first of a two-byte sample.
    pub first: bool,
    /// The vertical-sync matcher's cursor.
    pub vcur: nat,
    /// The horizontal-sync matcher's cursor.
    pub hcur: nat,
    /// The frame buffer: four bytes per pixel, row-major.
    pub frame: Seq<u8>,
}

/// The state of a reassembler that has consumed nothing, over a zeroed
/// frame of `w` by `h` pixels.
pub open spec fn raw_init(w: nat, h: nat) -> RawModel {
    RawModel {
        x: 0,
        y: 0,
        first: true,
        vcur: 0,
        hcur: 0,
        frame: Seq::new(w * h * 4, |i: int| 0u8),
    }
}

/// The first byte offset of the pixel at column `x`, row `y`.
pub open spec fn pixel_index(w: nat, x: nat, y: nat) -> int {
    ((y * w + x) * 4) as int
}

/// The tentative pixel write for one byte: within frame bounds, the
/// first byte of a pair seeds the pixel's low-order color bits, the
/// second completes the packing and advances the cursor one column; out
/// of bounds, the byte is dropped.
pub open spec fn raw_write(w: nat, h: nat, s: RawModel, b: u8) -> RawModel {
    if s.x < w && s.y < h {
        let i = pixel_index(w, s.x, s.y);
        if s.first {
            RawModel {
                x: s.x,
                y: s.y,
                first: false,
                vcur: s.vcur,
                hcur: s.hcur,
                frame: s.frame.update(i, b << 3).update(i + 1, (b & 0xe0) >> 3),
            }
        } else {
            RawModel {
                x: s.x + 1,
                y: s.y,
                first: true,
                vcur: s.vcur,
                hcur: s.hcur,
                frame: s.frame.update(i + 1, s.frame[i + 1] | (b << 5)).update(i + 2, b & 0xf8),
            }
        }
    } else {
        s
    }
}

/// One byte of the raw protocol: the tentative pixel write, then the
/// vertical-sync matcher, then, only if that completed nothing, the
/// horizontal-sync matcher. A completed vertical sync rehomes the cursor
/// and clears the horizontal matcher; a completed horizontal sync starts
/// the next line, capped at the frame's bottom.
pub open spec fn raw_step(vm: Seq<u8>, hm: Seq<u8>, w: nat, h: nat, s: RawModel, b: u8) -> RawModel {
    let p = raw_write(w, h, s, b);
    if match_completes(vm, s.vcur, b) {
        RawModel { x: 0, y: 0, first: true, vcur: 0, hcur: 0, frame: p.frame }
    } else {
        let vc = match_step(vm, s.vcur, b, false);
        if match_completes(hm, s.hcur, b) {
            RawModel {
                x: 0,
                y: if s.y < h {
                    s.y + 1
                } else {
                    s.y
                },
                first: true,
                vcur: vc,
                hcur: 0,
                frame: p.frame,
            }
        } else {
            RawModel {
                x: p.x,
                y: p.y,
                first: p.first,
                vcur: vc,
                hcur: match_step(hm, s.hcur, b, false),
                frame: p.frame,
            }
        }
    }
}

/// The state after consuming a whole stream, front byte first.
pub open spec fn raw_run(vm: Seq<u8>, hm: Seq<u8>, w: nat, h: nat, s: RawModel, stream: Seq<u8>) -> RawModel
    decreases stream.len(),
{
    if stream.len() == 0 {
        s
    } else {
        raw_run(vm, hm, w, h, raw_step(vm, hm, w, h, s, stream[0]), stream.drop_first())
    }
}

/// Consuming a concatenated stream is consuming its parts in order: a
/// poll boundary anywhere, such as a short read splitting a sync marker,
/// leaves the reassembler in the same state.
pub proof fn lemma_raw_run_concat(vm: Seq<u8>, hm: Seq<u8>, w: nat, h: nat, s: RawModel, a: Seq<u8>, b: Seq<u8>)
    ensures
        raw_run(vm, hm, w, h, s, a + b) == raw_run(vm, hm, w, h, raw_run(vm, hm, w, h, s, a), b),
    decreases a.len(),
{
    if a.len() == 0 {
        assert(a + b =~= b);
    } else {
        assert((a + b)[0] == a[0]);
        assert((a + b).drop_first() =~= a.drop_first() + b);
        lemma_raw_run_concat(vm, hm, w, h, raw_step(vm, hm, w, h, s, a[0]), a.drop_first(), b);
    }
}

/// A pixel write at in-bounds coordinates touches only offsets below the
/// frame's length.
pub proof fn lemma_pixel_index_bound(w: nat, h: nat, x: nat, y: nat)
    requires
        x < w,
        y < h,
    ensures
        0 <= pixel_index(w, x, y),
        pixel_index(w, x, y) + 3 < w * h * 4,
{
    assert((y * w + x) * 4 + 3 < w * h * 4) by (nonlinear_arith)
        requires
            x < w,
            y < h,
    ;
}

/// A stateful reassembler for the raw scanline protocol.
pub struct RawReassembler {
    width: usize,
    height: usize,
    x: usize,
    y: usize,
    first: bool,
    vsync: MarkerMatcher,
    hsync: MarkerMatcher,
    frame: Vec<u8>,
}

impl RawReassembler {
    /// The frame's width in pixels.
    pub closed spec fn width(self) -> nat {
        self.width as nat
    }

    /// The frame's height in pixels.
    pub closed spec fn height(self) -> nat {
        self.height as nat
    }

    /// The vertical-sync marker.
    pub closed spec fn vmarker(self) -> Seq<u8> {
        self.vsync.marker_seq()
    }

    /// The horizontal-sync marker.
    pub closed spec fn hmarker(self) -> Seq<u8> {
        self.hsync.marker_seq()
    }

    /// The abstract state this reassembler is in.
    pub closed spec fn model(self) -> RawModel {
        RawModel {
            x: self.x as nat,
            y: self.y as nat,
            first: self.first,
            vcur: self.vsync.cursor(),
            hcur: self.hsync.cursor(),
            frame: self.frame@,
        }
    }

    /// The reassembler's invariant: well-formed exact matchers, a cursor
    /// never past the frame's far edge, and a full-size frame buffer.
    pub closed spec fn wf(self) -> bool {
        &&& self.vsync.wf()
        &&& self.hsync.wf()
        &&& !self.vsync.is_ambiguous()
        &&& !self.hsync.is_ambiguous()
        &&& self.x <= self.width
        &&& self.y <= self.height
        &&& self.frame@.len() == self.width() * self.height() * 4
    }

    /// A reassembler over a zeroed `width` by `height` frame, watching
    /// for the given vertical and horizontal sync markers.
    pub fn new(vmarker: Vec<u8>, hmarker: Vec<u8>, width: usize, height: usize) -> (r: Self)
        requires
            vmarker@.len() >= 1,
            hmarker@.len() >= 1,
            width * height * 4 <= usize::MAX,
        ensures
            r.wf(),
            r.width() == width as nat,
            r.height() == height as nat,
            r.vmarker() == vmarker@,
            r.hmarker() == hmarker@,
            r.model() == raw_init(width as nat, height as nat),
    {
        let n = width * height * 4;
        let frame = vec![0u8; n];
        proof {
            assert(frame@ =~= Seq::new((width * height * 4) as nat, |i: int| 0u8));
        }
        RawReassembler {
            width,
            height,
            x: 0,
            y: 0,
            first: true,
            vsync: MarkerMatcher::new_exact(vmarker),
            hsync: MarkerMatcher::new_exact(hmarker),
            frame,
        }
    }

    /// Consume one byte of the stream.
    pub fn feed(&mut self, b: u8)
        requires
            old(self).wf(),
        ensures
            final(self).wf(),
            final(self).width() == old(self).width(),
            final(self).height() == old(self).height(),
            final(self).vmarker() == old(self).vmarker(),
            final(self).hmarker() == old(self).hmarker(),
            final(self).model() == raw_step(
                old(self).vmarker(),
                old(self).hmarker(),
                old(self).width(),
                old(self).height(),
                old(self).model(),
                b,
            ),
    {
        if self.x < self.width && self.y < self.height {
            proof {
                lemma_pixel_index_bound(
                    self.width(),
                    self.height(),
                    self.x as nat,
                    self.y as nat,
                );
            }
            let flen = self.frame.len();
            let i = (self.y * self.width + self.x) * 4;
            if self.first {
                self.frame.set(i, b << 3u8);
                self.frame.set(i + 1, (b & 0xe0) >> 3u8);
                self.first = false;
            } else {
                let seeded = self.frame[i + 1];
                self.frame.set(i + 1, seeded | (b << 5u8));
                self.frame.set(i + 2, b & 0xf8);
                self.first = true;
                self.x = self.x + 1;
            }
        }
        let rv = self.vsync.feed(b);
        if rv == FeedResult::Complete {
            self.x = 0;
            self.y = 0;
            self.first = true;
            self.hsync.reset();
        } else {
            let rh = self.hsync.feed(b);
            if rh == FeedResult::Complete {
                self.x = 0;
                if self.y < self.height {
                    self.y = self.y + 1;
                }
                self.first = true;
            }
        }
    }

    /// Consume a whole batch of bytes in order.
    pub fn consume(&mut self, bytes: &[u8])
        requires
            old(self).wf(),
        ensures
            final(self).wf(),
            final(self).width() == old(self).width(),
            final(self).height() == old(self).height(),
            final(self).vmarker() == old(self).vmarker(),
            final(self).hmarker() == old(self).hmarker(),
            final(self).model() == raw_run(
                old(self).vmarker(),
                old(self).hmarker(),
                old(self).width(),
                old(self).height(),
                old(self).model(),
                bytes@,
            ),
    {
        let ghost vm = self.vmarker();
        let ghost hm = self.hmarker();
        let ghost w = self.width();
        let ghost h = self.height();
        let ghost s0 = self.model();
        let mut idx: usize = 0;
        while idx < bytes.len()
            invariant
                self.wf(),
                self.vmarker() == vm,
                self.hmarker() == hm,
                self.width() == w,
                self.height() == h,
                idx <= bytes@.len(),
                self.model() == raw_run(vm, hm, w, h, s0, bytes@.subrange(0, idx as int)),
            decreases bytes.len() - idx,
        {
            let ghost prefix = bytes@.subrange(0, idx as int);
            self.feed(bytes[idx]);
            proof {
                assert(bytes@.subrange(0, idx as int + 1) =~= prefix + seq![bytes@[idx as int]]);
                lemma_raw_run_concat(vm, hm, w, h, s0, prefix, seq![bytes@[idx as int]]);
                assert(seq![bytes@[idx as int]].drop_first() =~= Seq::<u8>::empty());
                reveal_with_fuel(raw_run, 2);
            }
            idx = idx + 1;
        }
        proof {
            assert(bytes@.subrange(0, bytes@.len() as int) =~= bytes@);
        }
    }

    /// Discard all progress and zero the frame, as after a disconnect:
    /// exactly the state a fresh reassembler starts in.
    pub fn reset(&mut self)
        requires
            old(self).wf(),
        ensures
            final(self).wf(),
            final(self).width() == old(self).width(),
            final(self).height() == old(self).height(),
            final(self).vmarker() == old(self).vmarker(),
            final(self).hmarker() == old(self).hmarker(),
            final(self).model() == raw_init(old(self).width(), old(self).height()),
    {
        self.x = 0;
        self.y = 0;
        self.first = true;
        self.vsync.reset();
        self.hsync.reset();
        let ghost mid = *self;
        let mut i: usize = 0;
        let n = self.frame.len();
        while i < n
            invariant
                self.x == mid.x,
                self.y == mid.y,
                self.first == mid.first,
                self.vsync == mid.vsync,
                self.hsync == mid.hsync,
                self.width == mid.width,
                self.height == mid.height,
                n == self.frame@.len(),
                i <= n,
                forall|j: int| 0 <= j < i ==> self.frame@[j] == 0u8,
            decreases n - i,
        {
            self.frame.set(i, 0u8);
            i = i + 1;
        }
        proof {
            assert(self.frame@ =~= Seq::new(
                old(self).width() * old(self).height() * 4,
                |j: int| 0u8,
            ));
        }
    }

    /// The current column of the pixel cursor.
    pub fn cursor_x(&self) -> (r: usize)
        ensures
            r as nat == self.model().x,
    {
        self.x
    }

    /// The current row of the pixel cursor.
    pub fn cursor_y(&self) -> (r: usize)
        ensures
            r as nat == self.model().y,
    {
        self.y
    }

    /// The frame buffer as reassembled so far: four bytes per pixel,
    /// row-major.
    pub fn frame_bytes(&self) -> (r: &Vec<u8>)
        ensures
            r@ == self.model().frame,
    {
        &self.frame
    }
}

/// From the start of a line, with no sync match pending, one whole
/// horizontal-sync marker, fed from position `i` onward, moves the
/// cursor to the start of the next line, provided no byte of it can
/// begin the vertical marker. The marker's early bytes are tentatively
/// written as pixel data, so only the completed marker's effect on the
/// cursor is stated; the frame contents are whatever the tentative
/// writes left.
pub proof fn lemma_raw_one_hsync(vm: Seq<u8>, hm: Seq<u8>, w: nat, h: nat, s: RawModel, i: nat)
    requires
        1 <= vm.len(),
        1 <= hm.len(),
        i < hm.len(),
        forall|k: int| 0 <= k < hm.len() ==> hm[k] != vm[0],
        s.vcur == 0,
        s.hcur == i,
    ensures
        ({
            let r = raw_run(vm, hm, w, h, s, hm.subrange(i as int, hm.len() as int));
            &&& r.x == 0
            &&& r.y == (if s.y < h {
                s.y + 1
            } else {
                s.y
            })
            &&& r.first == true
            &&& r.vcur == 0
            &&& r.hcur == 0
        }),
    decreases hm.len() - i,
{
    let stream = hm.subrange(i as int, hm.len() as int);
    assert(stream[0] == hm[i as int]);
    let s1 = raw_step(vm, hm, w, h, s, hm[i as int]);
    if i + 1 == hm.len() {
        reveal_with_fuel(raw_run, 2);
        assert(stream.drop_first() =~= Seq::<u8>::empty());
    } else {
        assert(stream.drop_first() =~= hm.subrange(i as int + 1, hm.len() as int));
        lemma_raw_one_hsync(vm, hm, w, h, s1, i + 1);
    }
}

/// From a freshly reset cursor, a stream of `n` whole horizontal-sync
/// markers back to back leaves the cursor at the start of line `n`:
/// `x == 0` and `y == n`, with no sync match pending, for any `n` within
/// the frame's height — provided no byte of the horizontal marker can
/// begin the vertical marker. Pixel bytes that follow are then written
/// from `(0, n)` on, and only through bounds-checked writes.
pub proof fn lemma_raw_hsync_lines(vm: Seq<u8>, hm: Seq<u8>, w: nat, h: nat, s: RawModel, n: nat)
    requires
        1 <= vm.len(),
        1 <= hm.len(),
        forall|k: int| 0 <= k < hm.len() ==> hm[k] != vm[0],
        s.vcur == 0,
        s.hcur == 0,
        s.x == 0,
        s.first == true,
        s.y + n <= h,
    ensures
        ({
            let r = raw_run(vm, hm, w, h, s, seq_repeat(hm, n));
            &&& r.x == 0
            &&& r.y == s.y + n
            &&& r.first == true
            &&& r.vcur == 0
            &&& r.hcur == 0
        }),
    decreases n,
{
    if n == 0 {
    } else {
        lemma_raw_one_hsync(vm, hm, w, h, s, 0);
        assert(hm.subrange(0, hm.len() as int) =~= hm);
        lemma_raw_run_concat(vm, hm, w, h, s, hm, seq_repeat(hm, (n - 1) as nat));
        let s1 = raw_run(vm, hm, w, h, s, hm);
        lemma_raw_hsync_lines(vm, hm, w, h, s1, (n - 1) as nat);
    }
}

} // verus!
