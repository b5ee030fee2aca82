//! The gain stage: a stateless scalar multiply at the end of the chain.

use vstd::prelude::*;

use crate::fixed::{Fx, SCALE, FX_LIM, fx_abs, fx_mul, lemma_fx_mul_one};

verus! {

/// Upper raw bound of the gain factor (1024.0): far above the +30 dB the
/// chain's parameters offer, and small enough that the final multiply stays
/// within the multiplier's operand cap.
pub const GAIN_MAX: i64 = 67108864;

/// The gain stage. It carries no state at all.
#[derive(Clone, Copy, Debug, PartialEq, Eq, Structural)]
pub struct GainProcessor {}

impl GainProcessor {
    /// Build the stage.
    pub fn new() -> (r: GainProcessor) {
        GainProcessor {  }
    }

    /// Apply the gain: the output is exactly the fixed-point product of the
    /// sample and the gain factor, and a unit gain is transparent.
    pub fn process(&self, sample: Fx, gain: Fx) -> (r: Fx)
        requires
            fx_abs(sample.v as int) <= FX_LIM,
            fx_abs(gain.v as int) <= FX_LIM,
        ensures
            r.v == fx_mul(sample.v as int, gain.v as int),
            gain.v == SCALE ==> r == sample,
    {
        proof {
            if gain.v == SCALE {
                lemma_fx_mul_one(sample.v as int);
            }
        }
        sample.times(gain)
    }
}

} // verus!
