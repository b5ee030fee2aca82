//! A real-time, per-sample audio effect chain: a waveshaping distortion, a
//! chaotic complex-iteration stage, a Lorenz-type chaotic oscillator stage and
//! a final gain stage, composed by an orchestrator that also derives a
//! decaying peak-meter reading.
//!
//! Every signal value and parameter is a [`fixed::Fx`] sample: a signed
//! Q16.16 fixed-point number. All per-sample work is integer arithmetic with
//! proven bounds, so every stage's output is finite by construction and the
//! stability clamps are verified invariants rather than best-effort guards.

pub mod chain;
pub mod chaos;
pub mod distortion;
pub mod fixed;
pub mod fractal;
pub mod gain;
pub mod meter;
pub mod wave;

use vstd::prelude::*;

verus! {

} // verus!
