//! Reassembly of opaque encoded payloads bounded by fixed byte markers.
//!
//! A [`DelimitedReassembler`] scans the stream for a payload-start marker
//! with the ambiguous-prefix policy, then accumulates every following byte
//! into a buffer pre-seeded with the marker's own bytes. After each append
//! it inspects the buffer's last two bytes:
//!
//! - the marker's lead-in byte followed by its second byte means a new
//!   frame began inside the old one: the stale bytes are discarded and the
//!   buffer is cut back to those two bytes;
//! - the lead-in byte followed by the end suffix completes the payload:
//!   the whole delimited buffer is handed out for decoding and the
//!   reassembler returns to seeking.
//!
//! A payload that outgrows the configured bound forces a resync back to
//! seeking, so a delimiter lost to a truncated stream cannot hold the
//! buffer forever.

use vstd::prelude::*;

use crate::marker::{match_completes, match_step, FeedResult, MarkerMatcher};

verus! {

/// The abstract state of a delimited reassembler: which mode it is in,
/// the start-marker match cursor, and the accumulated bytes.
#[verifier::ext_equal]
pub ghost struct DelimModel {
    /// Whether a start marker has been found and bytes are accumulating.
    pub accumulating: bool,
    /// The start-marker matcher's cursor; zero while accumulating.
    pub cursor: nat,
    /// The accumulation buffer; the pre-seeded marker while seeking.
    pub buffer: Seq<u8>,
}

/// The state of a reassembler that has consumed nothing: seeking, with
/// the buffer pre-seeded with the start marker.
pub open spec fn delim_init(m: Seq<u8>) -> DelimModel {
    DelimModel { accumulating: false, cursor: 0, buffer: m }
}

/// One byte of the delimited protocol: the new state, and the completed
/// payload if this byte finished one.
pub open spec fn delim_step(m: Seq<u8>, end_suffix: u8, max: nat, s: DelimModel, b: u8) -> (
    DelimModel,
    Option<Seq<u8>>,
) {
    if !s.accumulating {
        if match_completes(m, s.cursor, b) {
            (DelimModel { accumulating: true, cursor: 0, buffer: m }, None)
        } else {
            (
                DelimModel {
                    accumulating: false,
                    cursor: match_step(m, s.cursor, b, true),
                    buffer: m,
                },
                None,
            )
        }
    } else {
        let buf = s.buffer.push(b);
        let n = buf.len() as int;
        if buf[n - 2] == m[0] && buf[n - 1] == m[1] {
            (DelimModel { accumulating: true, cursor: 0, buffer: m.take(2) }, None)
        } else if buf[n - 2] == m[0] && buf[n - 1] == end_suffix {
            (delim_init(m), Some(buf))
        } else if buf.len() > max {
            (delim_init(m), None)
        } else {
            (DelimModel { accumulating: true, cursor: 0, buffer: buf }, None)
        }
    }
}

/// The final state, and every completed payload in order, after consuming
/// a whole stream from state `s`, front byte first.
pub open spec fn delim_run(m: Seq<u8>, end_suffix: u8, max: nat, s: DelimModel, stream: Seq<u8>) -> (
    DelimModel,
    Seq<Seq<u8>>,
)
    decreases stream.len(),
{
    if stream.len() == 0 {
        (s, Seq::empty())
    } else {
        let first = delim_step(m, end_suffix, max, s, stream[0]);
        let rest = delim_run(m, end_suffix, max, first.0, stream.drop_first());
        (
            rest.0,
            (match first.1 {
                Some(p) => seq![p],
                None => Seq::<Seq<u8>>::empty(),
            }) + rest.1,
        )
    }
}

/// No byte pair of `s` starting at position `lo` or later is a delimiter
/// pair: the marker's lead-in byte followed by the marker's second byte
/// (a restart) or by the end suffix (a completion).
pub open spec fn no_delim_pair_from(s: Seq<u8>, lo: int, m0: u8, m1: u8, end_suffix: u8) -> bool {
    forall|i: int|
        lo <= i < s.len() - 1 ==> !((#[trigger] s[i]) == m0 && (s[i + 1] == m1 || s[i + 1]
            == end_suffix))
}

/// Consuming a concatenated stream is consuming its parts in order, and
/// the completed payloads concatenate. A poll boundary anywhere in the
/// stream, such as a short read splitting a marker or a payload, changes
/// neither the final state nor the payloads handed out.
pub proof fn lemma_delim_run_concat(
    m: Seq<u8>,
    end_suffix: u8,
    max: nat,
    s: DelimModel,
    a: Seq<u8>,
    b: Seq<u8>,
)
    ensures
        delim_run(m, end_suffix, max, s, a + b).0 == delim_run(
            m,
            end_suffix,
            max,
            delim_run(m, end_suffix, max, s, a).0,
            b,
        ).0,
        delim_run(m, end_suffix, max, s, a + b).1 == delim_run(m, end_suffix, max, s, a).1
            + delim_run(m, end_suffix, max, delim_run(m, end_suffix, max, s, a).0, b).1,
    decreases a.len(),
{
    if a.len() == 0 {
        assert(a + b =~= b);
        assert(delim_run(m, end_suffix, max, s, a).1 + delim_run(m, end_suffix, max, s, b).1 =~= delim_run(
            m,
            end_suffix,
            max,
            s,
            b,
        ).1);
    } else {
        let s1 = delim_step(m, end_suffix, max, s, a[0]).0;
        assert((a + b)[0] == a[0]);
        assert((a + b).drop_first() =~= a.drop_first() + b);
        lemma_delim_run_concat(m, end_suffix, max, s1, a.drop_first(), b);
        assert(delim_run(m, end_suffix, max, s, a + b).1 =~= delim_run(m, end_suffix, max, s, a).1
            + delim_run(m, end_suffix, max, delim_run(m, end_suffix, max, s, a).0, b).1);
    }
}

/// A single byte advances the run by one step, handing out that step's
/// payload if it completed one.
pub proof fn lemma_delim_run_one(m: Seq<u8>, end_suffix: u8, max: nat, s: DelimModel, b: u8)
    ensures
        delim_run(m, end_suffix, max, s, seq![b]).0 == delim_step(m, end_suffix, max, s, b).0,
        delim_run(m, end_suffix, max, s, seq![b]).1 == (match delim_step(
            m,
            end_suffix,
            max,
            s,
            b,
        ).1 {
            Some(p) => seq![p],
            None => Seq::<Seq<u8>>::empty(),
        }),
{
    reveal_with_fuel(delim_run, 2);
    assert(seq![b].drop_first() =~= Seq::<u8>::empty());
    match delim_step(m, end_suffix, max, s, b).1 {
        Some(p) => {
            assert(seq![p] + Seq::<Seq<u8>>::empty() =~= seq![p]);
        },
        None => {
            assert(Seq::<Seq<u8>>::empty() + Seq::<Seq<u8>>::empty() =~= Seq::<Seq<
                u8,
            >>::empty());
        },
    }
}

/// While seeking with cursor `i`, the marker's remaining bytes `m[i..]`
/// open accumulation with the buffer pre-seeded to the whole marker, and
/// complete no payload on the way.
pub proof fn lemma_delim_seek_from(m: Seq<u8>, end_suffix: u8, max: nat, i: nat)
    requires
        2 <= m.len(),
        i < m.len(),
    ensures
        delim_run(
            m,
            end_suffix,
            max,
            DelimModel { accumulating: false, cursor: i, buffer: m },
            m.subrange(i as int, m.len() as int),
        ) == (DelimModel { accumulating: true, cursor: 0, buffer: m }, Seq::<Seq<u8>>::empty()),
    decreases m.len() - i,
{
    let s = m.subrange(i as int, m.len() as int);
    assert(s[0] == m[i as int]);
    if i + 1 == m.len() {
        reveal_with_fuel(delim_run, 2);
        assert(s.drop_first() =~= Seq::<u8>::empty());
    } else {
        assert(s.drop_first() =~= m.subrange(i as int + 1, m.len() as int));
        lemma_delim_seek_from(m, end_suffix, max, i + 1);
    }
    assert(delim_run(
        m,
        end_suffix,
        max,
        DelimModel { accumulating: false, cursor: i, buffer: m },
        s,
    ).1 =~= Seq::<Seq<u8>>::empty());
}

/// While accumulating on buffer `buf`, a stretch of bytes that forms no
/// delimiter pair, against the buffer's last byte or within itself, and
/// stays within the bound is appended byte for byte, completing nothing.
pub proof fn lemma_delim_accumulate(m: Seq<u8>, end_suffix: u8, max: nat, buf: Seq<u8>, q: Seq<u8>)
    requires
        2 <= m.len(),
        2 <= buf.len(),
        buf.len() + q.len() <= max,
        no_delim_pair_from(buf + q, buf.len() - 1, m[0], m[1], end_suffix),
    ensures
        delim_run(
            m,
            end_suffix,
            max,
            DelimModel { accumulating: true, cursor: 0, buffer: buf },
            q,
        ) == (DelimModel { accumulating: true, cursor: 0, buffer: buf + q }, Seq::<Seq<u8>>::empty()),
    decreases q.len(),
{
    if q.len() == 0 {
        assert(buf + q =~= buf);
    } else {
        let pushed = buf.push(q[0]);
        let n = pushed.len() as int;
        assert(pushed[n - 2] == (buf + q)[buf.len() - 1]);
        assert(pushed[n - 1] == (buf + q)[buf.len() as int]);
        assert(!(pushed[n - 2] == m[0] && (pushed[n - 1] == m[1] || pushed[n - 1] == end_suffix)));
        assert(pushed + q.drop_first() =~= buf + q);
        lemma_delim_accumulate(m, end_suffix, max, pushed, q.drop_first());
        assert(delim_run(
            m,
            end_suffix,
            max,
            DelimModel { accumulating: true, cursor: 0, buffer: buf },
            q,
        ).1 =~= Seq::<Seq<u8>>::empty());
    }
}

/// One whole delimited transmission, consumed from the initial state,
/// hands out exactly one payload: the start marker, the payload bytes and
/// the end pair, byte for byte; and the reassembler is back in its initial
/// seeking state afterwards, whatever the decoder later makes of the
/// bytes. The payload bytes may be anything that contains no delimiter
/// pair and fits the accumulation bound.
pub proof fn lemma_delimited_one_frame(m: Seq<u8>, end_suffix: u8, max: nat, p: Seq<u8>)
    requires
        2 <= m.len(),
        m[0] != m[1],
        end_suffix != m[0],
        end_suffix != m[1],
        m.len() + p.len() + 2 <= max,
        no_delim_pair_from(m + p, m.len() - 1, m[0], m[1], end_suffix),
    ensures
        delim_run(m, end_suffix, max, delim_init(m), m + p + seq![m[0], end_suffix]) == (
            delim_init(m),
            seq![m + p + seq![m[0], end_suffix]],
        ),
{
    let a1 = m;
    let a2 = p + seq![m[0]];
    let a3 = seq![end_suffix];
    let stream = m + p + seq![m[0], end_suffix];
    assert(stream =~= (a1 + a2) + a3);

    // The start marker is found and opens accumulation.
    assert(m.subrange(0, m.len() as int) =~= m);
    lemma_delim_seek_from(m, end_suffix, max, 0);
    let opened = DelimModel { accumulating: true, cursor: 0, buffer: m };

    // The payload bytes and the end pair's lead-in accumulate untouched.
    assert(no_delim_pair_from(m + a2, m.len() - 1, m[0], m[1], end_suffix)) by {
        assert forall|i: int|
            m.len() - 1 <= i < (m + a2).len() - 1 implies !((#[trigger] (m + a2)[i]) == m[0] && ((m
            + a2)[i + 1] == m[1] || (m + a2)[i + 1] == end_suffix)) by {
            if i + 1 < m.len() + p.len() {
                assert((m + a2)[i] == (m + p)[i]);
                assert((m + a2)[i + 1] == (m + p)[i + 1]);
            } else {
                assert((m + a2)[i + 1] == m[0]);
            }
        }
    }
    lemma_delim_accumulate(m, end_suffix, max, m, a2);
    let filled = DelimModel { accumulating: true, cursor: 0, buffer: m + a2 };

    // The end suffix completes the payload.
    let pushed = (m + a2).push(end_suffix);
    assert(pushed =~= stream);
    assert(pushed[pushed.len() - 2] == (m + a2)[(m + a2).len() - 1]);
    assert(pushed[pushed.len() - 2] == m[0]);
    lemma_delim_run_one(m, end_suffix, max, filled, end_suffix);

    lemma_delim_run_concat(m, end_suffix, max, delim_init(m), a1, a2);
    lemma_delim_run_concat(m, end_suffix, max, delim_init(m), a1 + a2, a3);
    assert(delim_run(m, end_suffix, max, delim_init(m), stream).1 =~= seq![stream]);
}

/// A second start marker arriving inside an unfinished frame discards the
/// stale bytes: over the whole stream exactly one payload is handed out,
/// and it is the second, complete one. The abandoned partial payload and
/// the fresh one may be anything free of delimiter pairs that fits the
/// accumulation bound.
pub proof fn lemma_delimited_restart(
    m: Seq<u8>,
    end_suffix: u8,
    max: nat,
    p1: Seq<u8>,
    p2: Seq<u8>,
)
    requires
        2 <= m.len(),
        m[0] != m[1],
        end_suffix != m[0],
        end_suffix != m[1],
        m.len() + p1.len() + 1 <= max,
        m.len() + p2.len() + 2 <= max,
        no_delim_pair_from(m + p1, m.len() - 1, m[0], m[1], end_suffix),
        no_delim_pair_from(m, 1, m[0], m[1], end_suffix),
        no_delim_pair_from(m + p2, m.len() - 1, m[0], m[1], end_suffix),
    ensures
        delim_run(m, end_suffix, max, delim_init(m), m + p1 + m + p2 + seq![m[0], end_suffix]) == (
            delim_init(m),
            seq![m + p2 + seq![m[0], end_suffix]],
        ),
{
    let s1 = m;
    let s2 = p1 + seq![m[0]];
    let s3 = seq![m[1]];
    let s4 = m.skip(2);
    let s5 = p2 + seq![m[0]];
    let s6 = seq![end_suffix];
    let stream = m + p1 + m + p2 + seq![m[0], end_suffix];
    assert(stream =~= ((((s1 + s2) + s3) + s4) + s5) + s6);

    // The first start marker is found and opens accumulation.
    assert(m.subrange(0, m.len() as int) =~= m);
    lemma_delim_seek_from(m, end_suffix, max, 0);

    // The stale payload and the second marker's lead-in accumulate.
    assert(no_delim_pair_from(m + s2, m.len() - 1, m[0], m[1], end_suffix)) by {
        assert forall|i: int|
            m.len() - 1 <= i < (m + s2).len() - 1 implies !((#[trigger] (m + s2)[i]) == m[0] && ((m
            + s2)[i + 1] == m[1] || (m + s2)[i + 1] == end_suffix)) by {
            if i + 1 < m.len() + p1.len() {
                assert((m + s2)[i] == (m + p1)[i]);
                assert((m + s2)[i + 1] == (m + p1)[i + 1]);
            } else {
                assert((m + s2)[i + 1] == m[0]);
            }
        }
    }
    lemma_delim_accumulate(m, end_suffix, max, m, s2);

    // The second marker's second byte is a restart: the buffer is cut
    // back to the two-byte lead.
    let stale = DelimModel { accumulating: true, cursor: 0, buffer: m + s2 };
    let pushed3 = (m + s2).push(m[1]);
    assert(pushed3[pushed3.len() - 2] == (m + s2)[(m + s2).len() - 1]);
    assert(pushed3[pushed3.len() - 2] == m[0]);
    lemma_delim_run_one(m, end_suffix, max, stale, m[1]);
    let restarted = DelimModel { accumulating: true, cursor: 0, buffer: m.take(2) };

    // The rest of the second marker accumulates: the buffer is the whole
    // marker again, as if it had just been found.
    assert(m.take(2) + s4 =~= m);
    assert(no_delim_pair_from(m.take(2) + s4, 1, m[0], m[1], end_suffix));
    lemma_delim_accumulate(m, end_suffix, max, m.take(2), s4);
    let reopened = DelimModel { accumulating: true, cursor: 0, buffer: m.take(2) + s4 };
    assert(reopened == DelimModel { accumulating: true, cursor: 0, buffer: m });

    // The fresh payload and the end pair's lead-in accumulate.
    assert(no_delim_pair_from(m + s5, m.len() - 1, m[0], m[1], end_suffix)) by {
        assert forall|i: int|
            m.len() - 1 <= i < (m + s5).len() - 1 implies !((#[trigger] (m + s5)[i]) == m[0] && ((m
            + s5)[i + 1] == m[1] || (m + s5)[i + 1] == end_suffix)) by {
            if i + 1 < m.len() + p2.len() {
                assert((m + s5)[i] == (m + p2)[i]);
                assert((m + s5)[i + 1] == (m + p2)[i + 1]);
            } else {
                assert((m + s5)[i + 1] == m[0]);
            }
        }
    }
    lemma_delim_accumulate(m, end_suffix, max, m, s5);
    let filled = DelimModel { accumulating: true, cursor: 0, buffer: m + s5 };

    // The end suffix completes the second payload only.
    let pushed6 = (m + s5).push(end_suffix);
    assert(pushed6 =~= m + p2 + seq![m[0], end_suffix]);
    assert(pushed6[pushed6.len() - 2] == (m + s5)[(m + s5).len() - 1]);
    assert(pushed6[pushed6.len() - 2] == m[0]);
    lemma_delim_run_one(m, end_suffix, max, filled, end_suffix);

    lemma_delim_run_concat(m, end_suffix, max, delim_init(m), s1, s2);
    lemma_delim_run_concat(m, end_suffix, max, delim_init(m), s1 + s2, s3);
    lemma_delim_run_concat(m, end_suffix, max, delim_init(m), (s1 + s2) + s3, s4);
    lemma_delim_run_concat(m, end_suffix, max, delim_init(m), ((s1 + s2) + s3) + s4, s5);
    lemma_delim_run_concat(m, end_suffix, max, delim_init(m), (((s1 + s2) + s3) + s4) + s5, s6);
    assert(delim_run(m, end_suffix, max, delim_init(m), stream).1 =~= seq![m + p2 + seq![
        m[0],
        end_suffix,
    ]]);
}

/// What one consumed byte did to a delimited reassembler.
#[derive(Debug, PartialEq, Eq)]
pub enum DelimitedEvent {
    /// Seeking, and the byte did not complete the start marker.
    Skipped,
    /// The byte completed the start marker; accumulation began.
    Opened,
    /// The byte was appended to the payload buffer.
    Accumulated,
    /// The buffer now ends in the start pair: a new frame began inside
    /// the old one, and the stale bytes were discarded.
    Restarted,
    /// The buffer now ends in the end pair: the full delimited payload,
    /// start marker and delimiters included, is handed out.
    Completed(Vec<u8>),
    /// The buffer outgrew its bound; it was discarded for a forced resync.
    Overrun,
}

/// A stateful parser that cuts delimited payloads out of a byte stream.
pub struct DelimitedReassembler {
    start_marker: Vec<u8>,
    end_suffix: u8,
    max_len: usize,
    matcher: MarkerMatcher,
    accumulating: bool,
    buffer: Vec<u8>,
}

impl DelimitedReassembler {
    /// The payload-start marker.
    pub closed spec fn marker_seq(self) -> Seq<u8> {
        self.start_marker@
    }

    /// The byte that, after the marker's lead-in byte, ends a payload.
    pub closed spec fn end_byte(self) -> u8 {
        self.end_suffix
    }

    /// The accumulation bound that forces a resync.
    pub closed spec fn max(self) -> nat {
        self.max_len as nat
    }

    /// The abstract state this reassembler is in.
    pub closed spec fn model(self) -> DelimModel {
        DelimModel {
            accumulating: self.accumulating,
            cursor: self.matcher.cursor(),
            buffer: self.buffer@,
        }
    }

    /// The reassembler's invariant.
    pub closed spec fn wf(self) -> bool {
        &&& self.matcher.wf()
        &&& self.matcher.is_ambiguous()
        &&& self.matcher.marker_seq() == self.start_marker@
        &&& self.start_marker@.len() >= 2
        &&& self.start_marker@.len() + 2 <= self.max_len
        &&& if self.accumulating {
            &&& 2 <= self.buffer@.len() <= self.max_len
            &&& self.buffer@.take(2) == self.start_marker@.take(2)
            &&& self.matcher.cursor() == 0
        } else {
            self.buffer@ == self.start_marker@
        }
    }

    /// A reassembler for payloads delimited by `start_marker` in front and
    /// by the marker's first byte followed by `end_suffix` behind, with a
    /// forced resync once the buffer outgrows `max_len` bytes.
    pub fn new(start_marker: Vec<u8>, end_suffix: u8, max_len: usize) -> (r: Self)
        requires
            start_marker@.len() >= 2,
            start_marker@.len() + 2 <= max_len,
        ensures
            r.wf(),
            r.marker_seq() == start_marker@,
            r.end_byte() == end_suffix,
            r.max() == max_len as nat,
            r.model() == delim_init(start_marker@),
    {
        let buffer = copy_bytes(&start_marker);
        let matcher = MarkerMatcher::new_ambiguous(copy_bytes(&start_marker));
        DelimitedReassembler {
            start_marker,
            end_suffix,
            max_len,
            matcher,
            accumulating: false,
            buffer,
        }
    }

    /// Discard all progress, as after a disconnect: back to seeking with
    /// nothing matched, exactly the state a fresh reassembler starts in.
    pub fn reset(&mut self)
        requires
            old(self).wf(),
        ensures
            final(self).wf(),
            final(self).marker_seq() == old(self).marker_seq(),
            final(self).end_byte() == old(self).end_byte(),
            final(self).max() == old(self).max(),
            final(self).model() == delim_init(old(self).marker_seq()),
    {
        self.reseed_buffer();
        self.matcher.reset();
        self.accumulating = false;
    }

    /// Consume one byte of the stream.
    pub fn feed(&mut self, b: u8) -> (ev: DelimitedEvent)
        requires
            old(self).wf(),
        ensures
            final(self).wf(),
            final(self).marker_seq() == old(self).marker_seq(),
            final(self).end_byte() == old(self).end_byte(),
            final(self).max() == old(self).max(),
            final(self).model() == delim_step(
                old(self).marker_seq(),
                old(self).end_byte(),
                old(self).max(),
                old(self).model(),
                b,
            ).0,
            (match ev {
                DelimitedEvent::Completed(p) => delim_step(
                    old(self).marker_seq(),
                    old(self).end_byte(),
                    old(self).max(),
                    old(self).model(),
                    b,
                ).1 == Some(p@),
                _ => delim_step(
                    old(self).marker_seq(),
                    old(self).end_byte(),
                    old(self).max(),
                    old(self).model(),
                    b,
                ).1 is None,
            }),
            (ev is Opened) == (!old(self).model().accumulating && match_completes(
                old(self).marker_seq(),
                old(self).model().cursor,
                b,
            )),
            (ev is Skipped) == (!old(self).model().accumulating && !match_completes(
                old(self).marker_seq(),
                old(self).model().cursor,
                b,
            )),
            (ev is Completed) == (old(self).model().accumulating && delim_step(
                old(self).marker_seq(),
                old(self).end_byte(),
                old(self).max(),
                old(self).model(),
                b,
            ).1 is Some),
    {
        if !self.accumulating {
            let r = self.matcher.feed(b);
            if r == FeedResult::Complete {
                self.accumulating = true;
                DelimitedEvent::Opened
            } else {
                DelimitedEvent::Skipped
            }
        } else {
            self.buffer.push(b);
            let n = self.buffer.len();
            let tail_pair = self.buffer[n - 2];
            let tail_last = self.buffer[n - 1];
            let lead_in = self.start_marker[0];
            let second = self.start_marker[1];
            if tail_pair == lead_in && tail_last == second {
                self.buffer.truncate(2);
                proof {
                    assert(self.buffer@ =~= self.start_marker@.take(2));
                    assert(self.buffer@.take(2) =~= self.start_marker@.take(2));
                    assert(self.model() =~= delim_step(
                        old(self).marker_seq(),
                        old(self).end_byte(),
                        old(self).max(),
                        old(self).model(),
                        b,
                    ).0);
                }
                DelimitedEvent::Restarted
            } else if tail_pair == lead_in && tail_last == self.end_suffix {
                let payload = copy_bytes(&self.buffer);
                self.reseed_buffer();
                self.accumulating = false;
                DelimitedEvent::Completed(payload)
            } else if n > self.max_len {
                self.reseed_buffer();
                self.accumulating = false;
                DelimitedEvent::Overrun
            } else {
                proof {
                    assert(self.buffer@.take(2) =~= old(self).buffer@.take(2));
                }
                DelimitedEvent::Accumulated
            }
        }
    }

    /// Refill the buffer with the start marker's bytes.
    fn reseed_buffer(&mut self)
        ensures
            final(self).buffer@ == old(self).start_marker@,
            final(self).start_marker == old(self).start_marker,
            final(self).end_suffix == old(self).end_suffix,
            final(self).max_len == old(self).max_len,
            final(self).matcher == old(self).matcher,
            final(self).accumulating == old(self).accumulating,
    {
        let seeded = copy_bytes(&self.start_marker);
        self.buffer = seeded;
    }
}

/// A fresh byte-for-byte copy of a byte vector.
fn copy_bytes(v: &Vec<u8>) -> (r: Vec<u8>)
    ensures
        r@ == v@,
{
    let mut r: Vec<u8> = Vec::new();
    let mut i: usize = 0;
    while i < v.len()
        invariant
            i <= v@.len(),
            r@ == v@.subrange(0, i as int),
        decreases v@.len() - i,
    {
        r.push(v[i]);
        proof {
            assert(v@.subrange(0, i as int + 1) =~= v@.subrange(0, i as int).push(v@[i as int]));
        }
        i = i + 1;
    }
    proof {
        assert(v@.subrange(0, v@.len() as int) =~= v@);
    }
    r
}

} // verus!
