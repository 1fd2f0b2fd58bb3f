//! Detection of fixed marker byte sequences inside an unaligned stream.
//!
//! A [`MarkerMatcher`] holds a fixed marker and a cursor counting how many
//! of the marker's bytes have matched contiguously so far. Each consumed
//! byte either advances the cursor, completes the marker, or resets the
//! cursor. Two policies exist for a mismatch while a match is in progress:
//!
//! - the exact form resets the cursor to zero and does not retry the
//!   mismatched byte, so a byte that would have matched position zero of a
//!   fresh scan is lost (an accepted limitation of the wire protocol);
//! - the ambiguous-prefix form re-scans the marker's own interior for a
//!   position equal to the mismatched byte and resumes there, so a real
//!   marker arriving right after a spurious partial match is still found.

use vstd::prelude::*;

verus! {

/// What one consumed byte did to a matcher.
#[derive(Clone, Copy, Debug, PartialEq, Eq, Structural)]
pub enum FeedResult {
    /// The byte left the matcher with no partial match in progress.
    NoMatch,
    /// The byte left a partial match in progress.
    Progress,
    /// The byte completed the whole marker; the cursor was reset.
    Complete,
}

/// First interior resync position: the cursor to resume at when the byte
/// `b` is found at some position `i` of `m`, scanning from `from` up to
/// (not including) the marker's last position; zero when `b` occurs
/// nowhere in that range.
pub open spec fn rescan_from(m: Seq<u8>, b: u8, from: nat) -> nat
    decreases m.len() - from,
{
    if from + 1 >= m.len() {
        0
    } else if m[from as int] == b {
        from + 1
    } else {
        rescan_from(m, b, from + 1)
    }
}

/// The cursor after consuming `b` at cursor `c` against marker `m`.
/// In the ambiguous form, a mismatch during a partial match re-scans the
/// marker's interior (from position 2) for the byte instead of discarding
/// it outright.
pub open spec fn match_step(m: Seq<u8>, c: nat, b: u8, ambiguous: bool) -> nat {
    if c < m.len() && b == m[c as int] {
        if c + 1 == m.len() {
            0
        } else {
            c + 1
        }
    } else if ambiguous && c > 0 {
        rescan_from(m, b, 2)
    } else {
        0
    }
}

/// Whether consuming `b` at cursor `c` completes the marker `m`.
pub open spec fn match_completes(m: Seq<u8>, c: nat, b: u8) -> bool {
    c < m.len() && b == m[c as int] && c + 1 == m.len()
}

/// The cursor after consuming a whole stream, front byte first.
pub open spec fn match_run(m: Seq<u8>, c: nat, s: Seq<u8>, ambiguous: bool) -> nat
    decreases s.len(),
{
    if s.len() == 0 {
        c
    } else {
        match_run(m, match_step(m, c, s[0], ambiguous), s.drop_first(), ambiguous)
    }
}

/// How many completions consuming a whole stream reports.
pub open spec fn match_count(m: Seq<u8>, c: nat, s: Seq<u8>, ambiguous: bool) -> nat
    decreases s.len(),
{
    if s.len() == 0 {
        0
    } else {
        (if match_completes(m, c, s[0]) {
            1nat
        } else {
            0nat
        }) + match_count(m, match_step(m, c, s[0], ambiguous), s.drop_first(), ambiguous)
    }
}

/// A stream made of `k` copies of `m` back to back.
pub open spec fn seq_repeat(m: Seq<u8>, k: nat) -> Seq<u8>
    decreases k,
{
    if k == 0 {
        Seq::empty()
    } else {
        m + seq_repeat(m, (k - 1) as nat)
    }
}

/// A resync position is always strictly inside the marker.
pub proof fn lemma_rescan_bound(m: Seq<u8>, b: u8, from: nat)
    requires
        m.len() >= 1,
    ensures
        rescan_from(m, b, from) < m.len(),
    decreases m.len() - from,
{
    if from + 1 >= m.len() {
    } else if m[from as int] == b {
    } else {
        lemma_rescan_bound(m, b, from + 1);
    }
}

/// Running a concatenated stream is running its parts in order, and the
/// completion counts add. A batch boundary anywhere in the stream, such as
/// a short read that splits a marker, changes neither the final cursor nor
/// which completions are reported.
pub proof fn lemma_match_run_concat(m: Seq<u8>, c: nat, a: Seq<u8>, b: Seq<u8>, ambiguous: bool)
    ensures
        match_run(m, c, a + b, ambiguous) == match_run(
            m,
            match_run(m, c, a, ambiguous),
            b,
            ambiguous,
        ),
        match_count(m, c, a + b, ambiguous) == match_count(m, c, a, ambiguous) + match_count(
            m,
            match_run(m, c, a, ambiguous),
            b,
            ambiguous,
        ),
    decreases a.len(),
{
    if a.len() == 0 {
        assert(a + b =~= b);
    } else {
        assert((a + b)[0] == a[0]);
        assert((a + b).drop_first() =~= a.drop_first() + b);
        lemma_match_run_concat(m, match_step(m, c, a[0], ambiguous), a.drop_first(), b, ambiguous);
    }
}

/// A single byte advances the run by one step and counts one completion
/// exactly when that step completes the marker.
pub proof fn lemma_match_run_one(m: Seq<u8>, c: nat, b: u8, ambiguous: bool)
    ensures
        match_run(m, c, seq![b], ambiguous) == match_step(m, c, b, ambiguous),
        match_count(m, c, seq![b], ambiguous) == (if match_completes(m, c, b) {
            1nat
        } else {
            0nat
        }),
{
    reveal_with_fuel(match_run, 2);
    reveal_with_fuel(match_count, 2);
    assert(seq![b].drop_first() =~= Seq::<u8>::empty());
}

/// From cursor `i`, the marker's remaining bytes `m[i..]` complete the
/// match exactly once and leave the cursor at zero, under either policy.
pub proof fn lemma_match_marker_from(m: Seq<u8>, i: nat, ambiguous: bool)
    requires
        1 <= m.len(),
        i < m.len(),
    ensures
        match_run(m, i, m.subrange(i as int, m.len() as int), ambiguous) == 0,
        match_count(m, i, m.subrange(i as int, m.len() as int), ambiguous) == 1,
    decreases m.len() - i,
{
    reveal_with_fuel(match_run, 2);
    reveal_with_fuel(match_count, 2);
    let s = m.subrange(i as int, m.len() as int);
    assert(s[0] == m[i as int]);
    if i + 1 == m.len() {
        assert(s.drop_first() =~= Seq::<u8>::empty());
    } else {
        assert(s.drop_first() =~= m.subrange(i as int + 1, m.len() as int));
        lemma_match_marker_from(m, i + 1, ambiguous);
    }
}

/// A stream of `k` whole markers back to back yields exactly `k`
/// completions, one per repetition with none missed or duplicated, and
/// leaves no partial match in progress. This holds for the exact and the
/// ambiguous-prefix policy alike.
pub proof fn lemma_match_repeated(m: Seq<u8>, k: nat, ambiguous: bool)
    requires
        1 <= m.len(),
    ensures
        match_run(m, 0, seq_repeat(m, k), ambiguous) == 0,
        match_count(m, 0, seq_repeat(m, k), ambiguous) == k,
    decreases k,
{
    if k > 0 {
        lemma_match_marker_from(m, 0, ambiguous);
        assert(m.subrange(0, m.len() as int) =~= m);
        lemma_match_run_concat(m, 0, m, seq_repeat(m, (k - 1) as nat), ambiguous);
        lemma_match_repeated(m, (k - 1) as nat, ambiguous);
    }
}

/// A start marker immediately followed by another start marker yields two
/// completions from the ambiguous-prefix matcher, whatever self-overlap
/// the marker's bytes have.
pub proof fn lemma_ambiguous_double_marker(m: Seq<u8>)
    requires
        1 <= m.len(),
    ensures
        match_count(m, 0, m + m, true) == 2,
        match_run(m, 0, m + m, true) == 0,
{
    lemma_match_repeated(m, 2, true);
    assert(seq_repeat(m, 0) =~= Seq::<u8>::empty());
    assert(seq_repeat(m, 1) =~= m);
    assert(seq_repeat(m, 2) =~= m + m);
}

/// A stateful scanner for one fixed marker sequence.
pub struct MarkerMatcher {
    marker: Vec<u8>,
    cursor: usize,
    ambiguous: bool,
}

impl MarkerMatcher {
    /// The fixed marker this matcher scans for.
    pub closed spec fn marker_seq(self) -> Seq<u8> {
        self.marker@
    }

    /// How many of the marker's bytes have matched contiguously so far.
    pub closed spec fn cursor(self) -> nat {
        self.cursor as nat
    }

    /// Whether this matcher uses the ambiguous-prefix resync policy.
    pub closed spec fn is_ambiguous(self) -> bool {
        self.ambiguous
    }

    /// The matcher's invariant: a non-empty marker and an in-range cursor.
    pub open spec fn wf(self) -> bool {
        &&& self.marker_seq().len() >= 1
        &&& self.cursor() < self.marker_seq().len()
    }

    /// A matcher for `marker` that resets to zero on any mismatch.
    pub fn new_exact(marker: Vec<u8>) -> (r: Self)
        requires
            marker@.len() >= 1,
        ensures
            r.wf(),
            r.marker_seq() == marker@,
            r.cursor() == 0,
            !r.is_ambiguous(),
    {
        MarkerMatcher { marker, cursor: 0, ambiguous: false }
    }

    /// A matcher for `marker` that resynchronizes on the marker's own
    /// interior repetitions after a mismatch.
    pub fn new_ambiguous(marker: Vec<u8>) -> (r: Self)
        requires
            marker@.len() >= 1,
        ensures
            r.wf(),
            r.marker_seq() == marker@,
            r.cursor() == 0,
            r.is_ambiguous(),
    {
        MarkerMatcher { marker, cursor: 0, ambiguous: true }
    }

    /// Forget any partial match in progress.
    pub fn reset(&mut self)
        ensures
            final(self).marker_seq() == old(self).marker_seq(),
            final(self).is_ambiguous() == old(self).is_ambiguous(),
            final(self).cursor() == 0,
    {
        self.cursor = 0;
    }

    /// Consume one byte: advance on a match, complete and reset at the
    /// marker's end, otherwise reset or resynchronize per the policy.
    pub fn feed(&mut self, b: u8) -> (r: FeedResult)
        requires
            old(self).wf(),
        ensures
            final(self).wf(),
            final(self).marker_seq() == old(self).marker_seq(),
            final(self).is_ambiguous() == old(self).is_ambiguous(),
            final(self).cursor() == match_step(
                old(self).marker_seq(),
                old(self).cursor(),
                b,
                old(self).is_ambiguous(),
            ),
            (r == FeedResult::Complete) == match_completes(
                old(self).marker_seq(),
                old(self).cursor(),
                b,
            ),
            (r == FeedResult::Progress) == (!match_completes(
                old(self).marker_seq(),
                old(self).cursor(),
                b,
            ) && final(self).cursor() > 0),
            (r == FeedResult::NoMatch) == (!match_completes(
                old(self).marker_seq(),
                old(self).cursor(),
                b,
            ) && final(self).cursor() == 0),
    {
        let len = self.marker.len();
        if b == self.marker[self.cursor] {
            self.cursor = self.cursor + 1;
            if self.cursor == len {
                self.cursor = 0;
                FeedResult::Complete
            } else {
                FeedResult::Progress
            }
        } else if self.ambiguous && self.cursor > 0 {
            self.cursor = self.rescan(b);
            if self.cursor > 0 {
                FeedResult::Progress
            } else {
                FeedResult::NoMatch
            }
        } else {
            self.cursor = 0;
            FeedResult::NoMatch
        }
    }

    /// Consume a whole batch of bytes in order, returning how many times
    /// the marker completed within it.
    pub fn feed_all(&mut self, bytes: &[u8]) -> (completions: usize)
        requires
            old(self).wf(),
        ensures
            final(self).wf(),
            final(self).marker_seq() == old(self).marker_seq(),
            final(self).is_ambiguous() == old(self).is_ambiguous(),
            final(self).cursor() == match_run(
                old(self).marker_seq(),
                old(self).cursor(),
                bytes@,
                old(self).is_ambiguous(),
            ),
            completions == match_count(
                old(self).marker_seq(),
                old(self).cursor(),
                bytes@,
                old(self).is_ambiguous(),
            ),
    {
        let ghost m = self.marker_seq();
        let ghost c0 = self.cursor();
        let ghost amb = self.is_ambiguous();
        let mut completions: usize = 0;
        let mut idx: usize = 0;
        while idx < bytes.len()
            invariant
                self.wf(),
                self.marker_seq() == m,
                self.is_ambiguous() == amb,
                idx <= bytes@.len(),
                completions <= idx,
                self.cursor() == match_run(m, c0, bytes@.subrange(0, idx as int), amb),
                completions == match_count(m, c0, bytes@.subrange(0, idx as int), amb),
            decreases bytes.len() - idx,
        {
            let ghost prefix = bytes@.subrange(0, idx as int);
            let r = self.feed(bytes[idx]);
            if r == FeedResult::Complete {
                completions = completions + 1;
            }
            proof {
                assert(bytes@.subrange(0, idx as int + 1) =~= prefix + seq![bytes@[idx as int]]);
                lemma_match_run_concat(m, c0, prefix, seq![bytes@[idx as int]], amb);
                lemma_match_run_one(m, match_run(m, c0, prefix, amb), bytes@[idx as int], amb);
            }
            idx = idx + 1;
        }
        proof {
            assert(bytes@.subrange(0, bytes@.len() as int) =~= bytes@);
        }
        completions
    }

    /// Find the interior resync position for a mismatched byte.
    fn rescan(&self, b: u8) -> (r: usize)
        requires
            self.wf(),
        ensures
            r == rescan_from(self.marker_seq(), b, 2),
            r < self.marker_seq().len(),
    {
        proof {
            lemma_rescan_bound(self.marker_seq(), b, 2);
        }
        let len = self.marker.len();
        let mut i: usize = 2;
        while i < len - 1
            invariant
                self.wf(),
                len == self.marker_seq().len(),
                2 <= i,
                rescan_from(self.marker_seq(), b, 2) == rescan_from(self.marker_seq(), b, i as nat),
            decreases len - i,
        {
            if self.marker[i] == b {
                return i + 1;
            }
            i = i + 1;
        }
        0
    }
}

} // verus!
