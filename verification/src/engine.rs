//! The frame-reassembly engine: one uniform consume-bytes interface over
//! both wire protocols.
//!
//! The delimited protocol multiplexes several camera channels on one
//! link. While no channel is selected, each byte is read as a potential
//! selector: the digit bytes `'0'` up to the channel count select a
//! channel, every other byte is ignored. Once a channel is selected, all
//! bytes are routed to the delimited reassembler until it hands out a
//! completed payload, at which point the selection reverts to none and
//! the next byte is again read as a selector.
//!
//! The raw protocol has a single implicit channel and no selector phase:
//! every byte goes straight to the raw scanline reassembler.
//!
//! Which protocol is active is fixed at configuration time to match the
//! connected device's firmware, not switched per byte.

use vstd::prelude::*;

use crate::delimited::{delim_init, delim_step, DelimModel, DelimitedEvent, DelimitedReassembler};
use crate::raw::{raw_init, raw_run, RawReassembler};

verus! {

/// How many camera channels the delimited link multiplexes.
pub const N_CAMERAS: u8 = 3;

/// The byte that, after the payload-start marker's lead-in byte, ends a
/// payload: the JPEG end-of-image suffix.
pub const JPEG_END_SUFFIX: u8 = 0xd9;

/// The accumulation bound on one payload: a frame larger than this forces
/// a resync back to seeking.
pub const MAX_PAYLOAD_BYTES: usize = 1024 * 1024;

/// The payload-start marker: the JPEG start-of-image and JFIF header
/// bytes every frame of the delimited protocol begins with.
pub open spec fn jpeg_start_seq() -> Seq<u8> {
    seq![0xffu8, 0xd8, 0xff, 0xe0, 0x00, 0x10, 0x4a, 0x46, 0x49, 0x46]
}

/// The payload-start marker as a byte vector.
pub fn jpeg_start_marker() -> (r: Vec<u8>)
    ensures
        r@ == jpeg_start_seq(),
{
    let mut r: Vec<u8> = Vec::new();
    r.push(0xff);
    r.push(0xd8);
    r.push(0xff);
    r.push(0xe0);
    r.push(0x00);
    r.push(0x10);
    r.push(0x4a);
    r.push(0x46);
    r.push(0x49);
    r.push(0x46);
    proof {
        assert(r@ =~= jpeg_start_seq());
    }
    r
}

/// The abstract state of the delimited-protocol engine: the selected
/// channel, if any, and the reassembler's state.
#[verifier::ext_equal]
pub ghost struct EngineModel {
    /// The channel the stream is currently routed to.
    pub selected: Option<u8>,
    /// The delimited reassembler's state.
    pub delim: DelimModel,
}

/// The channel a selector byte picks: digit byte `'0' + c` selects
/// channel `c` when `c` is below the channel count; other bytes none.
pub open spec fn selector_channel(count: u8, b: u8) -> Option<u8> {
    if 48 <= b && b < 48 + count {
        Some((b - 48) as u8)
    } else {
        None
    }
}

/// The engine state after a reset: no channel selected, the reassembler
/// seeking from scratch.
pub open spec fn engine_init(m: Seq<u8>) -> EngineModel {
    EngineModel { selected: None, delim: delim_init(m) }
}

/// One byte of the delimited-protocol engine: while no channel is
/// selected the byte is read as a potential selector; otherwise it goes
/// to the reassembler, and a completed payload is handed out tagged with
/// the owning channel, reverting the selection.
pub open spec fn engine_step(m: Seq<u8>, end_suffix: u8, max: nat, count: u8, s: EngineModel, b: u8) -> (
    EngineModel,
    Option<(u8, Seq<u8>)>,
) {
    match s.selected {
        None => (EngineModel { selected: selector_channel(count, b), delim: s.delim }, None),
        Some(ch) => {
            let stepped = delim_step(m, end_suffix, max, s.delim, b);
            match stepped.1 {
                Some(p) => (EngineModel { selected: None, delim: stepped.0 }, Some((ch, p))),
                None => (EngineModel { selected: Some(ch), delim: stepped.0 }, None),
            }
        },
    }
}

/// The final state, and every completed payload with its channel in
/// order, after consuming a whole stream, front byte first.
pub open spec fn engine_run(
    m: Seq<u8>,
    end_suffix: u8,
    max: nat,
    count: u8,
    s: EngineModel,
    stream: Seq<u8>,
) -> (EngineModel, Seq<(u8, Seq<u8>)>)
    decreases stream.len(),
{
    if stream.len() == 0 {
        (s, Seq::empty())
    } else {
        let first = engine_step(m, end_suffix, max, count, s, stream[0]);
        let rest = engine_run(m, end_suffix, max, count, first.0, stream.drop_first());
        (
            rest.0,
            (match first.1 {
                Some(t) => seq![t],
                None => Seq::<(u8, Seq<u8>)>::empty(),
            }) + rest.1,
        )
    }
}

/// Consuming a concatenated stream is consuming its parts in order, and
/// the payloads handed out concatenate. A poll that got a short read and
/// a later poll that resumes the remaining bytes hand out exactly what
/// one uninterrupted poll would have.
pub proof fn lemma_engine_run_concat(
    m: Seq<u8>,
    end_suffix: u8,
    max: nat,
    count: u8,
    s: EngineModel,
    a: Seq<u8>,
    b: Seq<u8>,
)
    ensures
        engine_run(m, end_suffix, max, count, s, a + b).0 == engine_run(
            m,
            end_suffix,
            max,
            count,
            engine_run(m, end_suffix, max, count, s, a).0,
            b,
        ).0,
        engine_run(m, end_suffix, max, count, s, a + b).1 == engine_run(m, end_suffix, max, count, s, a).1
            + engine_run(m, end_suffix, max, count, engine_run(m, end_suffix, max, count, s, a).0, b).1,
    decreases a.len(),
{
    if a.len() == 0 {
        assert(a + b =~= b);
        assert(engine_run(m, end_suffix, max, count, s, a).1 + engine_run(
            m,
            end_suffix,
            max,
            count,
            s,
            b,
        ).1 =~= engine_run(m, end_suffix, max, count, s, b).1);
    } else {
        let s1 = engine_step(m, end_suffix, max, count, s, a[0]).0;
        assert((a + b)[0] == a[0]);
        assert((a + b).drop_first() =~= a.drop_first() + b);
        lemma_engine_run_concat(m, end_suffix, max, count, s1, a.drop_first(), b);
        assert(engine_run(m, end_suffix, max, count, s, a + b).1 =~= engine_run(
            m,
            end_suffix,
            max,
            count,
            s,
            a,
        ).1 + engine_run(m, end_suffix, max, count, engine_run(m, end_suffix, max, count, s, a).0, b).1);
    }
}

/// Replaying a stream after a reset hands out the same payloads as the
/// first run from a fresh engine: the run is a function of the marker
/// configuration, the starting state and the bytes alone, and a reset
/// restores exactly the initial state.
pub proof fn lemma_engine_replay_after_reset(
    m: Seq<u8>,
    end_suffix: u8,
    max: nat,
    count: u8,
    s1: EngineModel,
    s2: EngineModel,
    stream: Seq<u8>,
)
    requires
        s1 == engine_init(m),
        s2 == engine_init(m),
    ensures
        engine_run(m, end_suffix, max, count, s1, stream) == engine_run(
            m,
            end_suffix,
            max,
            count,
            s2,
            stream,
        ),
{
}

/// Replaying a stream after a reset leaves the raw reassembler in the
/// same state as the first run from a fresh one: the run is a function
/// of the sync markers, the frame size, the starting state and the bytes
/// alone, and a reset restores exactly the initial state.
pub proof fn lemma_raw_replay_after_reset(
    vm: Seq<u8>,
    hm: Seq<u8>,
    w: nat,
    h: nat,
    s1: crate::raw::RawModel,
    s2: crate::raw::RawModel,
    stream: Seq<u8>,
)
    requires
        s1 == raw_init(w, h),
        s2 == raw_init(w, h),
    ensures
        raw_run(vm, hm, w, h, s1, stream) == raw_run(vm, hm, w, h, s2, stream),
{
}

/// One completed payload, tagged with the channel it belongs to.
#[derive(Debug, PartialEq, Eq)]
pub struct CompletedPayload {
    /// The channel the payload was reassembled for.
    pub channel: u8,
    /// The full delimited payload, markers included.
    pub bytes: Vec<u8>,
}

impl CompletedPayload {
    /// The payload as the engine model sees it.
    pub open spec fn view_pair(self) -> (u8, Seq<u8>) {
        (self.channel, self.bytes@)
    }
}

/// The channel-payload pairs a vector of completed payloads stands for.
pub open spec fn payloads_view(v: Seq<CompletedPayload>) -> Seq<(u8, Seq<u8>)> {
    v.map_values(|cp: CompletedPayload| cp.view_pair())
}

/// The delimited-protocol engine: a channel selector in front of one
/// delimited reassembler shared by all channels.
pub struct DelimitedEngine {
    channel_count: u8,
    selected: Option<u8>,
    reassembler: DelimitedReassembler,
}

impl DelimitedEngine {
    /// How many channels the link multiplexes.
    pub closed spec fn channel_count(self) -> u8 {
        self.channel_count
    }

    /// The payload-start marker.
    pub closed spec fn marker_seq(self) -> Seq<u8> {
        self.reassembler.marker_seq()
    }

    /// The byte that, after the marker's lead-in byte, ends a payload.
    pub closed spec fn end_byte(self) -> u8 {
        self.reassembler.end_byte()
    }

    /// The accumulation bound that forces a resync.
    pub closed spec fn max(self) -> nat {
        self.reassembler.max()
    }

    /// The abstract state this engine is in.
    pub closed spec fn model(self) -> EngineModel {
        EngineModel { selected: self.selected, delim: self.reassembler.model() }
    }

    /// The engine's invariant.
    pub closed spec fn wf(self) -> bool {
        &&& self.reassembler.wf()
        &&& 1 <= self.channel_count <= 10
        &&& (self.selected matches Some(ch) ==> ch < self.channel_count)
    }

    /// An engine for `channel_count` multiplexed channels, reassembling
    /// payloads delimited by `start_marker` and by the marker's first
    /// byte followed by `end_suffix`, with a forced resync once a
    /// payload outgrows `max_len` bytes.
    pub fn new(channel_count: u8, start_marker: Vec<u8>, end_suffix: u8, max_len: usize) -> (r:
        Self)
        requires
            1 <= channel_count <= 10,
            start_marker@.len() >= 2,
            start_marker@.len() + 2 <= max_len,
        ensures
            r.wf(),
            r.channel_count() == channel_count,
            r.marker_seq() == start_marker@,
            r.end_byte() == end_suffix,
            r.max() == max_len as nat,
            r.model() == engine_init(start_marker@),
    {
        DelimitedEngine {
            channel_count,
            selected: None,
            reassembler: DelimitedReassembler::new(start_marker, end_suffix, max_len),
        }
    }

    /// Discard all progress, as after a disconnect: no channel selected,
    /// the reassembler seeking from scratch, exactly the state a fresh
    /// engine starts in.
    pub fn reset(&mut self)
        requires
            old(self).wf(),
        ensures
            final(self).wf(),
            final(self).channel_count() == old(self).channel_count(),
            final(self).marker_seq() == old(self).marker_seq(),
            final(self).end_byte() == old(self).end_byte(),
            final(self).max() == old(self).max(),
            final(self).model() == engine_init(old(self).marker_seq()),
    {
        self.selected = None;
        self.reassembler.reset();
    }

    /// Consume one byte: a potential selector while no channel is
    /// selected, a payload byte otherwise.
    pub fn feed(&mut self, b: u8) -> (r: Option<CompletedPayload>)
        requires
            old(self).wf(),
        ensures
            final(self).wf(),
            final(self).channel_count() == old(self).channel_count(),
            final(self).marker_seq() == old(self).marker_seq(),
            final(self).end_byte() == old(self).end_byte(),
            final(self).max() == old(self).max(),
            final(self).model() == engine_step(
                old(self).marker_seq(),
                old(self).end_byte(),
                old(self).max(),
                old(self).channel_count(),
                old(self).model(),
                b,
            ).0,
            (match r {
                Some(cp) => engine_step(
                    old(self).marker_seq(),
                    old(self).end_byte(),
                    old(self).max(),
                    old(self).channel_count(),
                    old(self).model(),
                    b,
                ).1 == Some(cp.view_pair()),
                None => engine_step(
                    old(self).marker_seq(),
                    old(self).end_byte(),
                    old(self).max(),
                    old(self).channel_count(),
                    old(self).model(),
                    b,
                ).1 is None,
            }),
    {
        match self.selected {
            None => {
                if b >= 48 && b - 48 < self.channel_count {
                    self.selected = Some(b - 48);
                } else {
                    self.selected = None;
                }
                None
            },
            Some(ch) => {
                let ev = self.reassembler.feed(b);
                match ev {
                    DelimitedEvent::Completed(payload) => {
                        self.selected = None;
                        Some(CompletedPayload { channel: ch, bytes: payload })
                    },
                    _ => None,
                }
            },
        }
    }

    /// Consume a whole batch of bytes in order, returning every payload
    /// completed within it, tagged with its channel, in order.
    pub fn consume(&mut self, bytes: &[u8]) -> (out: Vec<CompletedPayload>)
        requires
            old(self).wf(),
        ensures
            final(self).wf(),
            final(self).channel_count() == old(self).channel_count(),
            final(self).marker_seq() == old(self).marker_seq(),
            final(self).end_byte() == old(self).end_byte(),
            final(self).max() == old(self).max(),
            final(self).model() == engine_run(
                old(self).marker_seq(),
                old(self).end_byte(),
                old(self).max(),
                old(self).channel_count(),
                old(self).model(),
                bytes@,
            ).0,
            payloads_view(out@) == engine_run(
                old(self).marker_seq(),
                old(self).end_byte(),
                old(self).max(),
                old(self).channel_count(),
                old(self).model(),
                bytes@,
            ).1,
    {
        let ghost m = self.marker_seq();
        let ghost e = self.end_byte();
        let ghost mx = self.max();
        let ghost cnt = self.channel_count();
        let ghost s0 = self.model();
        let mut out: Vec<CompletedPayload> = Vec::new();
        let mut idx: usize = 0;
        while idx < bytes.len()
            invariant
                self.wf(),
                self.marker_seq() == m,
                self.end_byte() == e,
                self.max() == mx,
                self.channel_count() == cnt,
                idx <= bytes@.len(),
                self.model() == engine_run(m, e, mx, cnt, s0, bytes@.subrange(0, idx as int)).0,
                payloads_view(out@) == engine_run(m, e, mx, cnt, s0, bytes@.subrange(0, idx as int)).1,
            decreases bytes.len() - idx,
        {
            let ghost prefix = bytes@.subrange(0, idx as int);
            let ghost out_pre = out@;
            let r = self.feed(bytes[idx]);
            match r {
                Some(cp) => {
                    out.push(cp);
                },
                None => {},
            }
            proof {
                assert(bytes@.subrange(0, idx as int + 1) =~= prefix + seq![bytes@[idx as int]]);
                lemma_engine_run_concat(m, e, mx, cnt, s0, prefix, seq![bytes@[idx as int]]);
                lemma_engine_run_one(m, e, mx, cnt, engine_run(m, e, mx, cnt, s0, prefix).0, bytes@[idx as int]);
                assert(payloads_view(out@) =~= engine_run(m, e, mx, cnt, s0, bytes@.subrange(
                    0,
                    idx as int + 1,
                )).1);
            }
            idx = idx + 1;
        }
        proof {
            assert(bytes@.subrange(0, bytes@.len() as int) =~= bytes@);
        }
        out
    }
}

/// A single byte advances the engine by one step, handing out that
/// step's payload if it completed one.
pub proof fn lemma_engine_run_one(m: Seq<u8>, end_suffix: u8, max: nat, count: u8, s: EngineModel, b: u8)
    ensures
        engine_run(m, end_suffix, max, count, s, seq![b]).0 == engine_step(
            m,
            end_suffix,
            max,
            count,
            s,
            b,
        ).0,
        engine_run(m, end_suffix, max, count, s, seq![b]).1 == (match engine_step(
            m,
            end_suffix,
            max,
            count,
            s,
            b,
        ).1 {
            Some(t) => seq![t],
            None => Seq::<(u8, Seq<u8>)>::empty(),
        }),
{
    reveal_with_fuel(engine_run, 2);
    assert(seq![b].drop_first() =~= Seq::<u8>::empty());
    match engine_step(m, end_suffix, max, count, s, b).1 {
        Some(t) => {
            assert(seq![t] + Seq::<(u8, Seq<u8>)>::empty() =~= seq![t]);
        },
        None => {
            assert(Seq::<(u8, Seq<u8>)>::empty() + Seq::<(u8, Seq<u8>)>::empty() =~= Seq::<(
                u8,
                Seq<u8>,
            )>::empty());
        },
    }
}

/// The reassembly engine for one configured link: exactly one of the two
/// wire protocols, chosen when the device is configured.
pub enum Engine {
    /// The raw scanline protocol: a single implicit channel, pixel data
    /// framed by sync markers.
    Raw(RawReassembler),
    /// The delimited protocol: multiplexed channels carrying opaque
    /// encoded payloads between start and end markers.
    Delimited(DelimitedEngine),
}

impl Engine {
    /// The engine's invariant.
    pub open spec fn wf(self) -> bool {
        match self {
            Engine::Raw(r) => r.wf(),
            Engine::Delimited(d) => d.wf(),
        }
    }

    /// Consume every byte of the current poll's batch, returning the
    /// payloads completed within it. The raw protocol writes pixels into
    /// its own frame buffer and hands out no payloads; the delimited
    /// protocol hands out each completed payload tagged with its channel.
    pub fn consume(&mut self, bytes: &[u8]) -> (out: Vec<CompletedPayload>)
        requires
            old(self).wf(),
        ensures
            final(self).wf(),
            (*old(self) is Raw) == (*final(self) is Raw),
            *old(self) matches Engine::Raw(r) ==> {
                &&& *final(self) matches Engine::Raw(r2)
                &&& r2.width() == r.width()
                &&& r2.height() == r.height()
                &&& r2.vmarker() == r.vmarker()
                &&& r2.hmarker() == r.hmarker()
                &&& r2.model() == raw_run(
                    r.vmarker(),
                    r.hmarker(),
                    r.width(),
                    r.height(),
                    r.model(),
                    bytes@,
                )
                &&& out@.len() == 0
            },
            *old(self) matches Engine::Delimited(d) ==> {
                &&& *final(self) matches Engine::Delimited(d2)
                &&& d2.channel_count() == d.channel_count()
                &&& d2.marker_seq() == d.marker_seq()
                &&& d2.end_byte() == d.end_byte()
                &&& d2.max() == d.max()
                &&& d2.model() == engine_run(
                    d.marker_seq(),
                    d.end_byte(),
                    d.max(),
                    d.channel_count(),
                    d.model(),
                    bytes@,
                ).0
                &&& payloads_view(out@) == engine_run(
                    d.marker_seq(),
                    d.end_byte(),
                    d.max(),
                    d.channel_count(),
                    d.model(),
                    bytes@,
                ).1
            },
    {
        match self {
            Engine::Raw(r) => {
                r.consume(bytes);
                Vec::new()
            },
            Engine::Delimited(d) => d.consume(bytes),
        }
    }

    /// Discard all progress on either protocol, as after a disconnect:
    /// exactly the state a fresh engine of the same configuration starts
    /// in.
    pub fn reset(&mut self)
        requires
            old(self).wf(),
        ensures
            final(self).wf(),
            (*old(self) is Raw) == (*final(self) is Raw),
            *old(self) matches Engine::Raw(r) ==> {
                &&& *final(self) matches Engine::Raw(r2)
                &&& r2.width() == r.width()
                &&& r2.height() == r.height()
                &&& r2.vmarker() == r.vmarker()
                &&& r2.hmarker() == r.hmarker()
                &&& r2.model() == raw_init(r.width(), r.height())
            },
            *old(self) matches Engine::Delimited(d) ==> {
                &&& *final(self) matches Engine::Delimited(d2)
                &&& d2.channel_count() == d.channel_count()
                &&& d2.marker_seq() == d.marker_seq()
                &&& d2.end_byte() == d.end_byte()
                &&& d2.max() == d.max()
                &&& d2.model() == engine_init(d.marker_seq())
            },
    {
        match self {
            Engine::Raw(r) => r.reset(),
            Engine::Delimited(d) => d.reset(),
        }
    }
}

} // verus!
