//! Bookkeeping of the incoming audio path: ordering RTP packets and sizing
//! the concealment of losses, and the per-source jitter queues of the mixer.
//!
//! Sample values are opaque here (`T`); summing, clamping and fading them is
//! the caller's floating-point work.

use vstd::prelude::*;
use std::collections::VecDeque;

verus! {

/// At most this many lost 20 ms frames are synthesised for one gap.
pub const MAX_CONCEAL: u16 = 5;

/// Forward distance from sequence number `prev` to `seq`, modulo 2^16.
pub open spec fn seq_distance(prev: u16, seq: u16) -> int {
    if seq >= prev { seq - prev } else { seq + 0x10000 - prev }
}

/// `seq` is a duplicate of, or older than, `prev` (more than half the
/// sequence space ahead means behind, after wrapping).
pub open spec fn is_stale(prev: u16, seq: u16) -> bool {
    seq_distance(prev, seq) == 0 || seq_distance(prev, seq) > 0x8000
}

/// What to do with an arriving packet.
#[derive(Clone, Copy, Debug, PartialEq, Eq, Structural)]
pub enum PacketAction {
    /// Late or duplicate: drop it.
    Drop,
    /// An empty (padding) packet: not audio and not a loss; it only moves the
    /// timeline forward.
    Skip,
    /// Decode it, after concealing `lost` missing frames (the last of them
    /// from this packet's in-band redundancy, the others by loss concealment).
    Decode { lost: u16 },
}

/// The sequence number of the last packet that moved the timeline.
#[derive(Clone, Copy, Debug, PartialEq, Eq)]
pub struct SequenceTracker {
    pub last_seq: Option<u16>,
}

impl SequenceTracker {
    pub fn new() -> (t: SequenceTracker)
        ensures
            t.last_seq.is_none(),
    {
        SequenceTracker { last_seq: None }
    }

    /// Classify the packet with sequence number `seq` and move the timeline.
    pub fn accept(&mut self, seq: u16, empty_payload: bool) -> (a: PacketAction)
        ensures
            match old(self).last_seq {
                Some(prev) if is_stale(prev, seq) => a == PacketAction::Drop && *final(self) == *old(self),
                _ => {
                    &&& final(self).last_seq == Some(seq)
                    &&& if empty_payload {
                        a == PacketAction::Skip
                    } else {
                        a == PacketAction::Decode {
                            lost: match old(self).last_seq {
                                Some(prev) => {
                                    let missing = seq_distance(prev, seq) - 1;
                                    if missing < MAX_CONCEAL { missing as u16 } else { MAX_CONCEAL }
                                },
                                None => 0,
                            },
                        }
                    }
                },
            },
    {
        if let Some(prev) = self.last_seq {
            let fwd = seq.wrapping_sub(prev);
            if fwd == 0 || fwd > 0x8000 {
                return PacketAction::Drop;
            }
        }
        if empty_payload {
            self.last_seq = Some(seq);
            return PacketAction::Skip;
        }
        let lost: u16 = match self.last_seq {
            Some(prev) => {
                let missing = seq.wrapping_sub(prev).wrapping_sub(1);
                if missing < MAX_CONCEAL { missing } else { MAX_CONCEAL }
            },
            None => 0,
        };
        self.last_seq = Some(seq);
        PacketAction::Decode { lost }
    }
}

/// A stale packet never moves the timeline, and a gap never asks for more
/// than `MAX_CONCEAL` synthesised frames.
pub proof fn lemma_concealment_is_bounded(prev: u16, seq: u16)
    requires
        !is_stale(prev, seq),
    ensures
        1 <= seq_distance(prev, seq) <= 0x8000,
        0 <= seq_distance(prev, seq) - 1,
{
}

/// The jitter-buffer sizes of the mixer, in samples.
#[derive(Clone, Copy, Debug, PartialEq, Eq)]
pub struct QueueLimits {
    /// Initial prebuffer (40 ms).
    pub target: usize,
    /// Re-prime level after an underrun (10 ms).
    pub resume: usize,
    /// Backlog beyond which the oldest samples are dropped (200 ms).
    pub max: usize,
}

/// The limits are ordered so that trimming keeps a full cushion.
pub open spec fn limits_ok(l: QueueLimits) -> bool {
    l.resume <= l.target <= l.max
}

impl QueueLimits {
    /// The limits for a mixer running at `sample_rate`.
    pub fn for_rate(sample_rate: u32) -> (l: QueueLimits)
        requires
            sample_rate as int * 200 <= usize::MAX,
        ensures
            l.target == sample_rate as int * 40 / 1000,
            l.resume == sample_rate as int * 10 / 1000,
            l.max == sample_rate as int * 200 / 1000,
            limits_ok(l),
    {
        let r = sample_rate as usize;
        let l = QueueLimits { target: r * 40 / 1000, resume: r * 10 / 1000, max: r * 200 / 1000 };
        assert(l.resume <= l.target <= l.max) by (nonlinear_arith)
            requires
                l.target == r * 40 / 1000,
                l.resume == r * 10 / 1000,
                l.max == r * 200 / 1000,
                r >= 0,
        ;
        l
    }
}

/// What one source contributes to one output sample.
#[derive(Debug)]
pub enum Pull<T> {
    /// Still prebuffering: silence, nothing consumed.
    Silent,
    /// The next queued sample.
    Sample(T),
    /// The queue ran dry: the source re-primes (the caller fades out).
    Underrun,
}

/// The jitter queue of one incoming audio source.
pub struct SourceQueue<T> {
    pub queue: VecDeque<T>,
    pub primed: bool,
    /// Whether the source prebuffered at least once: the first prime waits
    /// for the full target, later ones only for the smaller resume level.
    pub ever_primed: bool,
}

/// `q` after appending `s` and dropping all but its last `keep` items when it
/// exceeds `max`.
pub open spec fn pushed<T>(q: Seq<T>, s: Seq<T>, keep: nat, max: nat) -> Seq<T> {
    let all = q + s;
    if all.len() > max { all.subrange(all.len() - keep, all.len() as int) } else { all }
}

impl<T: Copy> SourceQueue<T> {
    pub fn new() -> (s: SourceQueue<T>)
        ensures
            s.queue@.len() == 0,
            !s.primed,
            !s.ever_primed,
    {
        SourceQueue { queue: VecDeque::new(), primed: false, ever_primed: false }
    }

    /// Queue `samples`. The source becomes primed once the queue reaches the
    /// target (first time) or resume level (after an underrun). A backlog past
    /// the maximum is cut back to the target, dropping the oldest samples.
    pub fn push(&mut self, samples: &[T], limits: QueueLimits)
        requires
            limits_ok(limits),
        ensures
            final(self).queue@ == pushed(old(self).queue@, samples@, limits.target as nat, limits.max as nat),
            ({
                let threshold = if old(self).ever_primed { limits.resume } else { limits.target };
                let reached = old(self).queue@.len() + samples@.len() >= threshold;
                &&& final(self).primed == (old(self).primed || reached)
                &&& final(self).ever_primed == (old(self).ever_primed || reached)
            }),
            final(self).queue@.len() <= limits.max,
    {
        let ghost q0 = self.queue@;
        let mut i: usize = 0;
        while i < samples.len()
            invariant
                i <= samples@.len(),
                self.queue@ == q0 + samples@.subrange(0, i as int),
                self.primed == old(self).primed,
                self.ever_primed == old(self).ever_primed,
            decreases samples@.len() - i,
        {
            self.queue.push_back(samples[i]);
            proof {
                assert(samples@.subrange(0, i + 1) == samples@.subrange(0, i as int).push(samples@[i as int]));
            }
            i += 1;
        }
        proof { assert(samples@.subrange(0, samples@.len() as int) == samples@); }
        let threshold = if self.ever_primed { limits.resume } else { limits.target };
        if self.queue.len() >= threshold {
            self.primed = true;
            self.ever_primed = true;
        }
        if self.queue.len() > limits.max {
            let drop = self.queue.len() - limits.target;
            let ghost all = self.queue@;
            let mut k: usize = 0;
            while k < drop
                invariant
                    k <= drop,
                    drop == all.len() - limits.target,
                    self.primed == (old(self).primed || old(self).queue@.len() + samples@.len() >= threshold),
                    self.ever_primed == (old(self).ever_primed || old(self).queue@.len() + samples@.len() >= threshold),
                    self.queue@ == all.subrange(k as int, all.len() as int),
                decreases drop - k,
            {
                let _ = self.queue.pop_front();
                k += 1;
            }
        }
    }

    /// Take this source's next sample for the mix.
    pub fn pull(&mut self) -> (p: Pull<T>)
        ensures
            !old(self).primed ==> p == Pull::<T>::Silent && final(self).queue@ == old(self).queue@
                && !final(self).primed && final(self).ever_primed == old(self).ever_primed,
            old(self).primed && old(self).queue@.len() > 0 ==> p == Pull::Sample(old(self).queue@[0])
                && final(self).queue@ == old(self).queue@.drop_first() && final(self).primed
                && final(self).ever_primed == old(self).ever_primed,
            old(self).primed && old(self).queue@.len() == 0 ==> p == Pull::<T>::Underrun
                && final(self).queue@.len() == 0 && !final(self).primed
                && final(self).ever_primed == old(self).ever_primed,
    {
        if !self.primed {
            return Pull::Silent;
        }
        match self.queue.pop_front() {
            Some(s) => Pull::Sample(s),
            None => {
                self.primed = false;
                Pull::Underrun
            },
        }
    }
}

/// Append `samples` to `queue`, then drop the oldest samples until at most
/// `cap` remain.
pub fn push_capped<T: Copy>(queue: &mut VecDeque<T>, samples: &[T], cap: usize)
    ensures
        final(queue)@ == ({
            let all = old(queue)@ + samples@;
            if all.len() > cap { all.subrange(all.len() - cap, all.len() as int) } else { all }
        }),
{
    let ghost q0 = queue@;
    let mut i: usize = 0;
    while i < samples.len()
        invariant
            i <= samples@.len(),
            queue@ == q0 + samples@.subrange(0, i as int),
        decreases samples@.len() - i,
    {
        queue.push_back(samples[i]);
        proof {
            assert(samples@.subrange(0, i + 1) == samples@.subrange(0, i as int).push(samples@[i as int]));
        }
        i += 1;
    }
    proof { assert(samples@.subrange(0, samples@.len() as int) == samples@); }
    let ghost all = queue@;
    while queue.len() > cap
        invariant
            all.len() >= queue@.len(),
            queue@ == all.subrange(all.len() - queue@.len(), all.len() as int),
            all.len() > cap ==> queue@.len() >= cap,
            all.len() <= cap ==> queue@ == all,
        decreases queue@.len(),
    {
        let _ = queue.pop_front();
    }
    proof {
        if all.len() <= cap {
            assert(all.subrange(0, all.len() as int) =~= all);
            assert(queue@ == all);
        }
    }
}

/// After any push the backlog of a source is at most the maximum (when the
/// limits are ordered), so a stalled output cannot grow it without bound.
pub proof fn lemma_backlog_is_bounded<T>(q: Seq<T>, s: Seq<T>, l: QueueLimits)
    requires
        limits_ok(l),
    ensures
        pushed(q, s, l.target as nat, l.max as nat).len() <= l.max,
{
}

} // verus!
