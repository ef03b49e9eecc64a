//! Cutting a stream of samples into the fixed-size frames the audio stages
//! work on (10 ms for echo cancellation, 20 ms for the encoder, the
//! resampler's input chunk), and the encoder's loss-protection setting.

use vstd::prelude::*;
use vstd::arithmetic::div_mod::lemma_fundamental_div_mod_converse;

verus! {

/// Samples waiting for their frame to fill.
pub struct FrameBuffer<T> {
    pub buf: Vec<T>,
}

/// The frames cut from `all`, `frame` samples each, in order.
pub open spec fn frames_of<T>(all: Seq<T>, frame: nat, n: nat) -> Seq<Seq<T>> {
    Seq::new(n, |i: int| all.subrange(i * frame, (i + 1) * frame))
}

impl<T: Copy> FrameBuffer<T> {
    pub fn new() -> (b: FrameBuffer<T>)
        ensures
            b.buf@.len() == 0,
    {
        FrameBuffer { buf: Vec::new() }
    }

    /// Append `samples` and cut off every complete frame of `frame` samples,
    /// oldest first; what does not fill a frame stays for the next call.
    pub fn push(&mut self, samples: &[T], frame: usize) -> (frames: Vec<Vec<T>>)
        requires
            frame > 0,
            old(self).buf@.len() + samples@.len() <= usize::MAX,
        ensures
            ({
                let all = old(self).buf@ + samples@;
                let n = all.len() / (frame as nat);
                &&& frames@.len() == n
                &&& forall|i: int| 0 <= i < n ==> #[trigger] frames@[i]@ == all.subrange(i * frame, (i + 1) * frame)
                &&& final(self).buf@ == all.subrange(n * frame, all.len() as int)
            }),
    {
        let ghost all = self.buf@ + samples@;
        let mut i: usize = 0;
        while i < samples.len()
            invariant
                i <= samples@.len(),
                all == old(self).buf@ + samples@,
                self.buf@ == old(self).buf@ + samples@.subrange(0, i as int),
            decreases samples@.len() - i,
        {
            self.buf.push(samples[i]);
            proof {
                assert(samples@.subrange(0, i + 1) =~= samples@.subrange(0, i as int).push(samples@[i as int]));
            }
            i += 1;
        }
        proof {
            assert(samples@.subrange(0, samples@.len() as int) =~= samples@);
            assert(self.buf@ =~= all);
        }
        let total = self.buf.len();
        let mut frames: Vec<Vec<T>> = Vec::new();
        let mut start: usize = 0;
        proof {
            assert(frames@.len() * frame == 0) by (nonlinear_arith)
                requires
                    frames@.len() == 0,
            ;
        }
        while total - start >= frame
            invariant
                frame > 0,
                total == all.len(),
                self.buf@ == all,
                start <= total,
                start as int == frames@.len() * frame,
                forall|k: int| 0 <= k < frames@.len() ==> #[trigger] frames@[k]@ == all.subrange(k * frame, (k + 1) * frame),
            decreases total - start,
        {
            let mut f: Vec<T> = Vec::new();
            let mut j: usize = 0;
            while j < frame
                invariant
                    j <= frame,
                    start + frame <= total,
                    self.buf@ == all,
                    total == all.len(),
                    f@ == all.subrange(start as int, start + j),
                decreases frame - j,
            {
                f.push(self.buf[start + j]);
                proof {
                    assert(all.subrange(start as int, start + j + 1) =~= all.subrange(start as int, start + j).push(
                        all[start + j],
                    ));
                }
                j += 1;
            }
            let ghost k = frames@.len();
            frames.push(f);
            proof {
                assert((k + 1) * frame == k * frame + frame) by (nonlinear_arith);
            }
            start = start + frame;
        }
        let mut rest: Vec<T> = Vec::new();
        let mut j: usize = start;
        while j < total
            invariant
                start <= j <= total,
                self.buf@ == all,
                total == all.len(),
                rest@ == all.subrange(start as int, j as int),
            decreases total - j,
        {
            rest.push(self.buf[j]);
            proof {
                assert(all.subrange(start as int, j + 1) =~= all.subrange(start as int, j as int).push(all[j as int]));
            }
            j += 1;
        }
        proof {
            let n = frames@.len();
            let fr = frame as int;
            assert(all.len() - start < fr);
            assert(start == n * fr);
            lemma_fundamental_div_mod_converse(all.len() as int, fr, n as int, all.len() - start);
        }
        self.buf = rest;
        frames
    }

    /// Drop the samples waiting (after a change of input rate, the tail of
    /// the old rate is useless).
    pub fn clear(&mut self)
        ensures
            final(self).buf@.len() == 0,
    {
        self.buf = Vec::new();
    }
}

/// The packet-loss percentage to configure the encoder with, when the
/// estimate differs from the one applied: capped at 100.
pub fn loss_setting(wanted: u32, applied: u32) -> (r: Option<u8>)
    ensures
        r == (if wanted == applied {
            None
        } else if wanted <= 100 {
            Some(wanted as u8)
        } else {
            Some(100u8)
        }),
{
    if wanted == applied {
        None
    } else if wanted <= 100 {
        Some(wanted as u8)
    } else {
        Some(100)
    }
}

} // verus!
