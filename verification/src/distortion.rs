//! The waveshaper stage: a stateless, per-sample saturating distortion.
//!
//! The transform is `soft_clip(sample * drive)`: the drive factor pushes the
//! signal into the saturator, which adds harmonic content while keeping the
//! output strictly inside the unit range.

use vstd::prelude::*;

use crate::fixed::{Fx, SCALE, FX_LIM, fx_abs, fx_mul, lemma_fx_mul_bound};
use crate::wave::{soft_clip, soft_clip_spec};

verus! {

/// Upper raw bound of the drive factor (50.0).
pub const DRIVE_MAX: i64 = 3276800;

/// Largest raw input sample magnitude the stages accept (512.0): far beyond
/// any real signal level, and small enough that every intermediate product
/// stays within the multiplier's operand cap.
pub const IN_LIM: i64 = 33554432;

/// Exact output of the waveshaper for a raw drive and a raw sample.
pub open spec fn distortion_out_spec(drive: int, sample: int) -> int {
    soft_clip_spec(fx_mul(sample, drive))
}

/// The waveshaper's output is strictly inside the unit range for every
/// drive and every sample.
pub proof fn lemma_distortion_out_bounds(drive: int, sample: int)
    ensures
        -SCALE < distortion_out_spec(drive, sample) < SCALE,
{
    crate::wave::lemma_soft_clip_spec_bounds(fx_mul(sample, drive));
}

/// The waveshaper stage. It carries no mutable state: an instance is rebuilt
/// whenever the smoothed drive value changes.
#[derive(Clone, Copy, Debug, PartialEq, Eq, Structural)]
pub struct Distortion {
    pub drive: Fx,
}

impl Distortion {
    /// The drive factor is non-negative and at most 50.0.
    pub open spec fn wf(self) -> bool {
        0 <= self.drive.v <= DRIVE_MAX
    }

    /// Build the stage for the given drive factor.
    pub fn new(drive: Fx) -> (r: Distortion)
        requires
            0 <= drive.v <= DRIVE_MAX,
        ensures
            r.drive == drive,
            r.wf(),
    {
        Distortion { drive }
    }

    /// Shape one sample: drive it into the saturator. The output is strictly
    /// inside the unit range, and a silent sample stays silent.
    pub fn process(&self, sample: Fx) -> (r: Fx)
        requires
            self.wf(),
            fx_abs(sample.v as int) <= IN_LIM,
        ensures
            r.v == distortion_out_spec(self.drive.v as int, sample.v as int),
            -SCALE < r.v < SCALE,
            sample.v == 0 ==> r.v == 0,
    {
        proof {
            lemma_fx_mul_bound(sample.v as int, self.drive.v as int, IN_LIM as int, DRIVE_MAX as int);
            if sample.v == 0 {
                crate::fixed::lemma_fx_mul_zero(self.drive.v as int);
            }
        }
        let driven = sample.times(self.drive);
        soft_clip(driven)
    }

    /// Shape a whole buffer in place: one inner vector per frame, one sample
    /// per channel. Every sample is replaced by its shaped value,
    /// independently of every other sample.
    pub fn process_buffer(&self, frames: &mut Vec<Vec<Fx>>)
        requires
            self.wf(),
            forall|i: int, j: int|
                0 <= i < old(frames)@.len() && 0 <= j < old(frames)@[i]@.len() ==> fx_abs(
                    old(frames)@[i]@[j].v as int,
                ) <= IN_LIM,
        ensures
            final(frames)@.len() == old(frames)@.len(),
            forall|i: int|
                0 <= i < old(frames)@.len()
                    ==> final(frames)@[i]@.len() == old(frames)@[i]@.len(),
            forall|i: int, j: int|
                0 <= i < old(frames)@.len() && 0 <= j < old(frames)@[i]@.len()
                    ==> final(frames)@[i]@[j].v == distortion_out_spec(
                        self.drive.v as int, old(frames)@[i]@[j].v as int),
    {
        let n = frames.len();
        let mut i: usize = 0;
        while i < n
            invariant
                i <= n,
                n == frames@.len(),
                frames@.len() == old(frames)@.len(),
                self.wf(),
                forall|k: int, j: int|
                    0 <= k < old(frames)@.len() && 0 <= j < old(frames)@[k]@.len() ==> fx_abs(
                        old(frames)@[k]@[j].v as int,
                    ) <= IN_LIM,
                forall|k: int| 0 <= k < n ==> frames@[k]@.len() == old(frames)@[k]@.len(),
                forall|k: int, j: int|
                    0 <= k < i && 0 <= j < frames@[k]@.len() ==> frames@[k]@[j].v
                        == distortion_out_spec(self.drive.v as int, old(frames)@[k]@[j].v as int),
                forall|k: int, j: int|
                    i <= k < n && 0 <= j < frames@[k]@.len()
                        ==> frames@[k]@[j] == old(frames)@[k]@[j],
            decreases n - i,
        {
            let m = frames[i].len();
            let mut j: usize = 0;
            while j < m
                invariant
                    i < n,
                    j <= m,
                    n == frames@.len(),
                    frames@.len() == old(frames)@.len(),
                    m == frames@[i as int]@.len(),
                    self.wf(),
                    forall|k: int, l: int|
                        0 <= k < old(frames)@.len() && 0 <= l < old(frames)@[k]@.len() ==> fx_abs(
                            old(frames)@[k]@[l].v as int,
                        ) <= IN_LIM,
                    forall|k: int| 0 <= k < n ==> frames@[k]@.len() == old(frames)@[k]@.len(),
                    forall|k: int, l: int|
                        0 <= k < i && 0 <= l < frames@[k]@.len() ==> frames@[k]@[l].v
                            == distortion_out_spec(
                            self.drive.v as int,
                            old(frames)@[k]@[l].v as int,
                        ),
                    forall|l: int|
                        0 <= l < j ==> frames@[i as int]@[l].v == distortion_out_spec(
                            self.drive.v as int,
                            old(frames)@[i as int]@[l].v as int,
                        ),
                    forall|l: int|
                        j <= l < m ==> frames@[i as int]@[l] == old(frames)@[i as int]@[l],
                    forall|k: int, l: int|
                        i < k < n && 0 <= l < frames@[k]@.len()
                            ==> frames@[k]@[l] == old(frames)@[k]@[l],
                decreases m - j,
            {
                let s = frames[i][j];
                proof {
                    assert(old(frames)@[i as int]@.len() == m);
                    assert(frames@[i as int]@[j as int] == old(frames)@[i as int]@[j as int]);
                    assert(fx_abs(old(frames)@[i as int]@[j as int].v as int) <= IN_LIM);
                }
                let y = self.process(s);
                frames[i][j] = y;
                j = j + 1;
            }
            i = i + 1;
        }
    }
}

} // verus!
