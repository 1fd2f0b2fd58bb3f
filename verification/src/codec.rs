//! Decoding reassembled payloads and storing the frames per channel.
//!
//! The delimited protocol carries opaque encoded images. The codec is
//! external and fallible: a payload either decodes to an RGB pixel plane
//! with its dimensions, or it fails and the frame is dropped — a
//! malformed buffer must never do worse than fail. The [`FrameStore`]
//! keeps the most recent decoded frame of every channel; a completed
//! decode replaces the channel's slot atomically, and a failed decode
//! leaves the previous frame in place.

use vstd::prelude::*;

verus! {

/// What the external codec made of one payload, when it succeeded:
/// the image's dimensions and its RGB pixels, when decoded; `None` when
/// the codec rejected the bytes. The result depends on the payload bytes
/// alone.
pub uninterp spec fn jpeg_rgb_of(bytes: Seq<u8>) -> Option<(u32, u32, Seq<u8>)>;

/// One decoded image: dimensions and packed RGB pixels, three bytes per
/// pixel, row-major.
#[derive(Debug, PartialEq, Eq)]
pub struct DecodedFrame {
    /// The image's width in pixels.
    pub width: u32,
    /// The image's height in pixels.
    pub height: u32,
    /// The pixel plane: exactly `width * height * 3` bytes.
    pub pixels: Vec<u8>,
}

impl DecodedFrame {
    /// The frame's invariant: a full-size pixel plane.
    pub open spec fn wf(self) -> bool {
        self.pixels@.len() == self.width * self.height * 3
    }

    /// The frame as contracts see it: width, height and pixels.
    pub open spec fn view_triple(self) -> (u32, u32, Seq<u8>) {
        (self.width, self.height, self.pixels@)
    }
}

/// Relies on `image::ImageReader::decode`, with the JPEG format forced,
/// and `DynamicImage::to_rgb8` / `ImageBuffer::into_raw`: the decode
/// either yields an image or fails on malformed bytes, its result is a
/// function of the input bytes alone, and the RGB buffer holds exactly
/// `width * height * 3` bytes.
#[verifier::external_body]
fn decode_jpeg(bytes: &Vec<u8>) -> (r: Option<DecodedFrame>)
    ensures
        (match r {
            Some(f) => jpeg_rgb_of(bytes@) == Some(f.view_triple()) && f.wf(),
            None => jpeg_rgb_of(bytes@) is None,
        }),
{
    let cursor = std::io::Cursor::new(bytes.as_slice());
    match image::ImageReader::with_format(cursor, image::ImageFormat::Jpeg).decode() {
        Ok(img) => {
            let rgb = img.to_rgb8();
            let width = rgb.width();
            let height = rgb.height();
            Some(DecodedFrame { width, height, pixels: rgb.into_raw() })
        },
        Err(_) => None,
    }
}

/// The per-channel destination for decoded frames.
pub struct FrameStore {
    frames: Vec<Option<DecodedFrame>>,
}

impl FrameStore {
    /// How many channels the store holds a slot for.
    pub closed spec fn channels(self) -> nat {
        self.frames@.len()
    }

    /// The stored frames as contracts see them, one slot per channel.
    pub closed spec fn view_frames(self) -> Seq<Option<(u32, u32, Seq<u8>)>> {
        self.frames@.map_values(
            |f: Option<DecodedFrame>|
                match f {
                    Some(d) => Some(d.view_triple()),
                    None => None,
                },
        )
    }

    /// The store's invariant: every held frame has a full-size pixel
    /// plane.
    pub closed spec fn wf(self) -> bool {
        forall|i: int|
            0 <= i < self.frames@.len() ==> (#[trigger] self.frames@[i] matches Some(d) ==> d.wf())
    }

    /// An empty store with one slot per channel.
    pub fn new(channels: usize) -> (r: Self)
        ensures
            r.wf(),
            r.channels() == channels,
            forall|i: int| 0 <= i < channels ==> r.view_frames()[i] is None,
    {
        let mut frames: Vec<Option<DecodedFrame>> = Vec::new();
        let mut i: usize = 0;
        while i < channels
            invariant
                i <= channels,
                frames@.len() == i,
                forall|j: int| 0 <= j < i ==> frames@[j] is None,
            decreases channels - i,
        {
            frames.push(None);
            i = i + 1;
        }
        FrameStore { frames }
    }

    /// Take the codec's verdict on a channel's payload: a decoded frame
    /// replaces the channel's slot whole; a failure changes nothing, so
    /// the previous frame stays on display.
    pub fn store_frame(&mut self, channel: usize, decoded: Option<DecodedFrame>)
        requires
            old(self).wf(),
            channel < old(self).channels(),
            (decoded matches Some(f) ==> f.wf()),
        ensures
            final(self).wf(),
            final(self).channels() == old(self).channels(),
            (match decoded {
                Some(f) => final(self).view_frames() == old(self).view_frames().update(
                    channel as int,
                    Some(f.view_triple()),
                ),
                None => final(self).view_frames() == old(self).view_frames(),
            }),
    {
        match decoded {
            Some(f) => {
                let ghost pre = self.frames@;
                self.frames.set(channel, Some(f));
                proof {
                    assert(final(self).view_frames() =~= old(self).view_frames().update(
                        channel as int,
                        Some(f.view_triple()),
                    ));
                }
            },
            None => {},
        }
    }

    /// Hand a channel's reassembled payload to the codec: on success the
    /// decoded frame replaces the channel's slot and `true` comes back;
    /// on a decode failure the frame is dropped, the store is unchanged,
    /// and `false` comes back.
    pub fn submit(&mut self, channel: usize, payload: &Vec<u8>) -> (ok: bool)
        requires
            old(self).wf(),
            channel < old(self).channels(),
        ensures
            final(self).wf(),
            final(self).channels() == old(self).channels(),
            ok == (jpeg_rgb_of(payload@) is Some),
            (match jpeg_rgb_of(payload@) {
                Some(t) => final(self).view_frames() == old(self).view_frames().update(
                    channel as int,
                    Some(t),
                ),
                None => final(self).view_frames() == old(self).view_frames(),
            }),
    {
        let decoded = decode_jpeg(payload);
        let ok = decoded.is_some();
        self.store_frame(channel, decoded);
        ok
    }

    /// The frame currently stored for a channel, if any.
    pub fn frame(&self, channel: usize) -> (r: &Option<DecodedFrame>)
        requires
            self.wf(),
            channel < self.channels(),
        ensures
            (match r {
                Some(d) => self.view_frames()[channel as int] == Some(d.view_triple()) && d.wf(),
                None => self.view_frames()[channel as int] is None,
            }),
    {
        &self.frames[channel]
    }

    /// How many channels the store holds a slot for.
    pub fn channel_count(&self) -> (r: usize)
        ensures
            r == self.channels(),
    {
        self.frames.len()
    }
}

} // verus!
