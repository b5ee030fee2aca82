//! The peak meter: an exponentially-decaying envelope follower over the
//! per-block peak amplitude.
//!
//! The meter holds a single non-negative level. After a block whose peak
//! exceeds the level, the meter jumps to that peak; otherwise it decays by
//! one fixed-point multiplication with the decay weight, though never below
//! the block's own peak. The weight is
//! derived once from the sample rate and a target decay time, so that the
//! level falls by 12 dB over that time of silence.

use vstd::prelude::*;

use crate::fixed::{Fx, SCALE, fx_abs, fx_mul, lemma_fx_mul_unit, lemma_div_trunc_abs,
    lemma_abs_mul};

verus! {

/// ln 4 in raw fixed point: the 12 dB drop expressed as a natural logarithm.
pub const LN4_RAW: i64 = 90852;

/// Largest raw level the meter accepts: the chain's outputs stay far below
/// it.
pub const PEAK_LIM: i64 = 67108864;

/// Exact decay weight for a sample rate in Hz and a decay time in
/// milliseconds: one minus ln 4 divided by the number of samples in the decay
/// window, brought into `[0, SCALE - 1]`. Over that many samples of silence
/// the repeated multiplication lowers the level by about 12 dB.
pub open spec fn decay_weight_spec(rate: int, ms: int) -> int {
    let d = (LN4_RAW * 1000) / (rate * ms);
    let w = (SCALE as int) - d;
    if w < 0 {
        0
    } else if w > SCALE - 1 {
        (SCALE - 1) as int
    } else {
        w
    }
}

/// Exact meter transition for one block: jump to a louder peak; otherwise
/// decay, but never below the block's own peak.
pub open spec fn meter_next_spec(level: int, w: int, peak: int) -> int {
    if peak > level {
        peak
    } else {
        let decayed = fx_mul(level, w);
        if peak > decayed {
            peak
        } else {
            decayed
        }
    }
}

/// The meter level after a run of silent blocks: the starting level
/// multiplied by the decay weight once per block.
pub open spec fn decay_iter(level: int, w: int, n: nat) -> int
    decreases n,
{
    if n == 0 {
        level
    } else {
        fx_mul(decay_iter(level, w, (n - 1) as nat), w)
    }
}

/// A non-negative level multiplied by a weight below 1.0 stays non-negative
/// and does not grow.
pub proof fn lemma_decay_step_bounds(level: int, w: int)
    requires
        0 <= level,
        0 <= w < SCALE,
    ensures
        0 <= fx_mul(level, w) <= level,
{
    lemma_fx_mul_unit(level, w);
    lemma_abs_mul(level, w);
    lemma_div_trunc_abs(level * w, SCALE as int);
    assert(level * w >= 0) by (nonlinear_arith)
        requires
            level >= 0,
            w >= 0,
    ;
}

/// During silence the meter never rises: one silent block takes a
/// non-negative level to its decayed value, which is no larger.
pub proof fn lemma_meter_silence_no_rise(level: int, w: int)
    requires
        0 <= level,
        0 <= w < SCALE,
    ensures
        meter_next_spec(level, w, 0) == fx_mul(level, w),
        0 <= meter_next_spec(level, w, 0) <= level,
{
    lemma_decay_step_bounds(level, w);
}

/// After a block that left the level at `P`, `n` further silent blocks leave
/// the meter at `P` multiplied by the decay weight `n` times over, and that
/// value never rises as `n` grows.
pub proof fn lemma_meter_decay_sequence(level: int, w: int, n: nat)
    requires
        0 <= level,
        0 <= w < SCALE,
    ensures
        0 <= decay_iter(level, w, n) <= level,
        decay_iter(level, w, n + 1) == meter_next_spec(decay_iter(level, w, n), w, 0),
        decay_iter(level, w, n + 1) <= decay_iter(level, w, n),
    decreases n,
{
    if n == 0 {
        lemma_meter_silence_no_rise(level, w);
    } else {
        lemma_meter_decay_sequence(level, w, (n - 1) as nat);
        lemma_meter_silence_no_rise(decay_iter(level, w, n), w);
    }
}

/// The peak meter state: the current level and the per-block decay weight.
#[derive(Clone, Copy, Debug, PartialEq, Eq, Structural)]
pub struct PeakMeter {
    pub level: Fx,
    pub decay_weight: Fx,
}

impl PeakMeter {
    /// The level is non-negative and bounded; the weight is below 1.0.
    pub open spec fn wf(self) -> bool {
        &&& 0 <= self.level.v <= PEAK_LIM
        &&& 0 <= self.decay_weight.v < SCALE
    }

    /// Build a meter at level zero with the decay weight derived from the
    /// sample rate and the decay time.
    pub fn new(sample_rate: u32, decay_ms: u32) -> (r: PeakMeter)
        requires
            1 <= sample_rate <= 1000000,
            1 <= decay_ms <= 600000,
        ensures
            r.wf(),
            r.level.v == 0,
            r.decay_weight.v == decay_weight_spec(sample_rate as int, decay_ms as int),
    {
        proof {
            assert((sample_rate as int) * (decay_ms as int) >= 1) by (nonlinear_arith)
                requires
                    sample_rate >= 1,
                    decay_ms >= 1,
            ;
            assert((sample_rate as int) * (decay_ms as int) <= 1000000int * 600000int)
                by (nonlinear_arith)
                requires
                    1 <= sample_rate as int <= 1000000,
                    1 <= decay_ms as int <= 600000,
            ;
        }
        let n: i64 = (sample_rate as i64) * (decay_ms as i64);
        let d: i64 = (LN4_RAW * 1000) / n;
        let w: i64 = SCALE - d;
        let weight: i64 = if w < 0 {
            0
        } else if w > SCALE - 1 {
            SCALE - 1
        } else {
            w
        };
        PeakMeter { level: Fx { v: 0 }, decay_weight: Fx { v: weight } }
    }

    /// The current level, for an external display consumer.
    pub fn read(&self) -> (r: Fx)
        ensures
            r == self.level,
    {
        self.level
    }

    /// Fold one block's peak amplitude into the meter: jump to a louder
    /// peak, decay otherwise — but never end below the peak of the block
    /// just processed.
    pub fn update(&mut self, block_peak: Fx)
        requires
            old(self).wf(),
            0 <= block_peak.v <= PEAK_LIM,
        ensures
            final(self).wf(),
            final(self).decay_weight == old(self).decay_weight,
            final(self).level.v == meter_next_spec(
                old(self).level.v as int,
                old(self).decay_weight.v as int,
                block_peak.v as int,
            ),
            final(self).level.v >= block_peak.v,
    {
        if block_peak.v > self.level.v {
            self.level = block_peak;
        } else {
            proof {
                lemma_decay_step_bounds(self.level.v as int, self.decay_weight.v as int);
            }
            let decayed = self.level.times(self.decay_weight);
            if block_peak.v > decayed.v {
                self.level = block_peak;
            } else {
                self.level = decayed;
            }
        }
    }
}

} // verus!
