//! The chunked byte streamer, as verified bookkeeping.
//!
//! The actual seek and reads are I/O and happen outside the library; what is
//! verified here is every decision the streaming loop makes: where to seek,
//! how many bytes each read asks for, when the window is fully delivered, and
//! the cumulative progress figure handed to a listener after each chunk.

use vstd::prelude::*;
use crate::MAX_CHUNK_SIZE;
use crate::resolve::ResolvedRange;

verus! {

/// Sum of a sequence of byte counts.
pub open spec fn seq_sum(s: Seq<nat>) -> nat
    decreases s.len(),
{
    if s.len() == 0 {
        0
    } else {
        seq_sum(s.drop_last()) + s.last()
    }
}

/// The chunk lengths that cover `remaining` bytes: full chunks of
/// `MAX_CHUNK_SIZE` bytes, then whatever is left as a final shorter chunk.
pub open spec fn spec_chunks(remaining: nat) -> Seq<nat>
    decreases remaining,
{
    if remaining == 0 {
        Seq::empty()
    } else if remaining <= MAX_CHUNK_SIZE {
        seq![remaining]
    } else {
        seq![MAX_CHUNK_SIZE as nat] + spec_chunks((remaining - MAX_CHUNK_SIZE) as nat)
    }
}

/// Summing concatenated sequences adds their sums.
pub proof fn lemma_seq_sum_concat(a: Seq<nat>, b: Seq<nat>)
    ensures
        seq_sum(a + b) == seq_sum(a) + seq_sum(b),
    decreases b.len(),
{
    if b.len() == 0 {
        assert(a + b =~= a);
    } else {
        lemma_seq_sum_concat(a, b.drop_last());
        assert((a + b).drop_last() =~= a + b.drop_last());
    }
}

/// The chunk plan covers the window exactly: the chunk lengths sum to the
/// byte count, every chunk is non-empty and bounded by `MAX_CHUNK_SIZE`, and
/// every chunk before the last is exactly `MAX_CHUNK_SIZE`.
pub proof fn lemma_chunk_plan_covers(n: nat)
    ensures
        seq_sum(spec_chunks(n)) == n,
        forall|i: int| 0 <= i < spec_chunks(n).len()
            ==> 0 < #[trigger] spec_chunks(n)[i] <= MAX_CHUNK_SIZE,
        forall|i: int| 0 <= i < spec_chunks(n).len() - 1
            ==> #[trigger] spec_chunks(n)[i] == MAX_CHUNK_SIZE,
    decreases n,
{
    if n == 0 {
    } else if n <= MAX_CHUNK_SIZE {
        let plan = spec_chunks(n);
        assert(plan.drop_last() =~= Seq::<nat>::empty());
        assert(plan.last() == n);
        assert(seq_sum(Seq::<nat>::empty()) == 0);
        assert(seq_sum(plan) == n);
    } else {
        let rest = (n - MAX_CHUNK_SIZE) as nat;
        lemma_chunk_plan_covers(rest);
        lemma_seq_sum_concat(seq![MAX_CHUNK_SIZE as nat], spec_chunks(rest));
        assert(seq_sum(seq![MAX_CHUNK_SIZE as nat]) == MAX_CHUNK_SIZE) by {
            assert(seq![MAX_CHUNK_SIZE as nat].drop_last() =~= Seq::<nat>::empty());
            assert(seq![MAX_CHUNK_SIZE as nat].last() == MAX_CHUNK_SIZE);
            assert(seq_sum(Seq::<nat>::empty()) == 0);
        }
        let plan = spec_chunks(n);
        assert(plan == seq![MAX_CHUNK_SIZE as nat] + spec_chunks(rest));
        assert(forall|i: int| 0 <= i < plan.len() ==> #[trigger] plan[i] == if i == 0 {
            MAX_CHUNK_SIZE as nat
        } else {
            spec_chunks(rest)[i - 1]
        });
    }
}

/// The cumulative byte totals reported after each chunk increase strictly,
/// and the total after the last chunk is the whole byte count.
pub proof fn lemma_progress_strictly_increasing(n: nat)
    ensures
        forall|i: int| 0 <= i < spec_chunks(n).len()
            ==> seq_sum(#[trigger] spec_chunks(n).take(i)) < seq_sum(spec_chunks(n).take(i + 1)),
        seq_sum(spec_chunks(n).take(spec_chunks(n).len() as int)) == n,
{
    let plan = spec_chunks(n);
    lemma_chunk_plan_covers(n);
    assert forall|i: int| 0 <= i < plan.len() implies seq_sum(#[trigger] plan.take(i)) < seq_sum(
        plan.take(i + 1),
    ) by {
        assert(plan.take(i + 1).drop_last() =~= plan.take(i));
        assert(plan.take(i + 1).last() == plan[i]);
    }
    assert(plan.take(plan.len() as int) =~= plan);
}

/// The chunk lengths that will cover a window of `byte_count` bytes, in
/// order, eagerly materialized.
pub fn chunk_lengths(byte_count: u64) -> (v: Vec<u64>)
    ensures
        v@.map_values(|c: u64| c as nat) == spec_chunks(byte_count as nat),
{
    let mut v: Vec<u64> = Vec::new();
    let mut remaining: u64 = byte_count;
    while remaining > 0
        invariant
            v@.map_values(|c: u64| c as nat) + spec_chunks(remaining as nat) == spec_chunks(
                byte_count as nat,
            ),
        decreases remaining,
    {
        let step = if remaining <= MAX_CHUNK_SIZE {
            remaining
        } else {
            MAX_CHUNK_SIZE
        };
        let ghost old_v = v@;
        let ghost old_remaining = remaining;
        v.push(step);
        remaining = remaining - step;
        proof {
            if old_remaining <= MAX_CHUNK_SIZE {
                assert(spec_chunks(old_remaining as nat) =~= seq![old_remaining as nat]);
            }
            assert(v@.map_values(|c: u64| c as nat) =~= old_v.map_values(|c: u64| c as nat)
                + seq![step as nat]);
            assert(seq![step as nat] + spec_chunks(remaining as nat) =~= spec_chunks(
                old_remaining as nat,
            ));
            assert(v@.map_values(|c: u64| c as nat) + spec_chunks(remaining as nat) =~= old_v.map_values(
                |c: u64| c as nat,
            ) + spec_chunks(old_remaining as nat));
        }
    }
    proof {
        assert(v@.map_values(|c: u64| c as nat) =~= v@.map_values(|c: u64| c as nat) + spec_chunks(
            0,
        ));
    }
    v
}

/// Verified bookkeeping of one streaming pass over a resolved window.
///
/// The driving loop owns the resource handle; it seeks once to
/// `seek_offset()`, then, until `finished()`, reads exactly `next_chunk_len()`
/// bytes and calls `advance` with that length. `progress()` after each chunk
/// is the cumulative total owed to a progress listener. The pass is
/// forward-only and not restartable.
pub struct RangeStreamer {
    /// Absolute offset of the window's first byte.
    pub start: u64,
    /// Size of the window.
    pub byte_count: u64,
    /// Cumulative bytes delivered so far.
    pub sent: u64,
}

impl RangeStreamer {
    /// Bytes delivered so far never exceed the window.
    pub open spec fn wf(self) -> bool {
        self.sent <= self.byte_count
    }

    /// Size of the window this pass covers.
    pub open spec fn spec_byte_count(self) -> u64 {
        self.byte_count
    }

    /// Cumulative bytes delivered so far.
    pub open spec fn spec_sent(self) -> u64 {
        self.sent
    }

    /// Bytes of the window still to deliver.
    pub open spec fn spec_remaining(self) -> nat {
        (self.byte_count - self.sent) as nat
    }

    /// A fresh pass over `window`: nothing delivered yet.
    pub fn new(window: &ResolvedRange) -> (s: Self)
        requires
            window.wf(),
        ensures
            s.wf(),
            s.spec_sent() == 0,
            s.spec_byte_count() == window.spec_byte_count(),
            s.spec_seek_offset() == window.start,
    {
        RangeStreamer { start: window.start, byte_count: window.byte_count(), sent: 0 }
    }

    /// Where the single seek before the first read goes.
    pub open spec fn spec_seek_offset(self) -> u64 {
        self.start
    }

    /// Absolute resource offset to seek to, exactly once, before reading.
    pub fn seek_offset(&self) -> (r: u64)
        ensures
            r == self.spec_seek_offset(),
    {
        self.start
    }

    /// True when the whole window has been delivered and no further read may
    /// be issued.
    pub fn finished(&self) -> (r: bool)
        requires
            self.wf(),
        ensures
            r == (self.spec_remaining() == 0),
    {
        self.sent == self.byte_count
    }

    /// Length of the next read: a full chunk, or whatever remains of the
    /// window if that is shorter. This is the head of the chunk plan.
    pub fn next_chunk_len(&self) -> (r: u64)
        requires
            self.wf(),
            self.spec_remaining() > 0,
        ensures
            r == spec_chunks(self.spec_remaining())[0],
            0 < r <= MAX_CHUNK_SIZE,
            r <= self.spec_remaining(),
    {
        let remaining = self.byte_count - self.sent;
        if remaining <= MAX_CHUNK_SIZE {
            remaining
        } else {
            MAX_CHUNK_SIZE
        }
    }

    /// Records one delivered chunk of `len` bytes. The rest of the pass is
    /// the tail of the chunk plan, and the cumulative progress figure grows
    /// by exactly `len`.
    pub fn advance(&mut self, len: u64)
        requires
            old(self).wf(),
            old(self).spec_remaining() > 0,
            len == spec_chunks(old(self).spec_remaining())[0],
        ensures
            final(self).wf(),
            final(self).spec_byte_count() == old(self).spec_byte_count(),
            final(self).spec_seek_offset() == old(self).spec_seek_offset(),
            final(self).spec_sent() == old(self).spec_sent() + len,
            spec_chunks(final(self).spec_remaining()) == spec_chunks(
                old(self).spec_remaining(),
            ).drop_first(),
    {
        proof {
            let rem = old(self).spec_remaining();
            if rem > MAX_CHUNK_SIZE {
                assert(spec_chunks(rem) == seq![MAX_CHUNK_SIZE as nat] + spec_chunks(
                    (rem - MAX_CHUNK_SIZE) as nat,
                ));
                assert(spec_chunks(rem)[0] == MAX_CHUNK_SIZE);
                assert(spec_chunks(rem).drop_first() =~= spec_chunks(
                    (rem - MAX_CHUNK_SIZE) as nat,
                ));
            } else {
                assert(spec_chunks(rem) == seq![rem]);
                assert(spec_chunks(rem)[0] == rem);
                assert(spec_chunks(rem).drop_first() =~= spec_chunks(0));
            }
        }
        self.sent = self.sent + len;
    }

    /// Cumulative bytes delivered, the figure a progress listener receives
    /// once after each chunk.
    pub fn progress(&self) -> (r: u64)
        ensures
            r == self.spec_sent(),
    {
        self.sent
    }
}

} // verus!
