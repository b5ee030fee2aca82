//! The continuous chaotic-oscillator stage: a three-variable Lorenz-type
//! system integrated once per sample by an explicit Euler step.
//!
//! The attractor state `(x, y, z)` is perturbed by the input sample through
//! the `rho` parameter, clamped into `[-100, 100]` after every step — a
//! proven invariant — and read out through saturators into a single chaos
//! signal. That signal amplitude-modulates the input, drives a cosine-phase
//! frequency-modulation term, and is injected directly after cubic shaping.
//! The system parameters drift slowly around the canonical chaotic-regime
//! values, re-derived every 4000 samples from slow sinusoids scaled by the
//! amount. The stage bypasses exactly when the amount is at or below the
//! activation threshold.

use vstd::prelude::*;

use crate::fixed::{Fx, SCALE, FX_LIM, fx_abs, fx_mul, div_trunc, lemma_fx_mul_bound,
    lemma_fx_mul_unit};
use crate::wave::{soft_clip, soft_clip_spec, cosine_wave, cosine_spec, sine_wave, sine_spec,
    lemma_div_below, TAU_FX};
use crate::distortion::IN_LIM;
use crate::fractal::AMOUNT_EPS;

verus! {

/// Raw bound of each attractor coordinate (100.0).
pub const XYZ_BOUND: i64 = 6553600;

/// Raw bound of each attractor coordinate after conditioning by `COND`.
pub const XS_LIM: i64 = 655400;

/// Conditioning factor applied to the coordinates before the derivatives are
/// formed (0.1).
pub const COND: i64 = 6554;

/// Canonical `sigma` (10.0) and its largest drift (0.5).
pub const SIGMA_BASE: i64 = 655360;

/// Largest raw drift of `sigma` away from its canonical value.
pub const SIGMA_DRIFT: i64 = 32768;

/// Canonical `rho` (28.0).
pub const RHO_BASE: i64 = 1835008;

/// Largest raw drift of `rho` away from its canonical value (2.5).
pub const RHO_DRIFT: i64 = 163840;

/// Canonical `beta` (8/3).
pub const BETA_BASE: i64 = 174763;

/// Largest raw drift of `beta` away from its canonical value (0.3).
pub const BETA_DRIFT: i64 = 19661;

/// Numerator of the rate-normalized time step: 0.005, scaled by 44100/rate;
/// also the step itself at the default 44100 Hz rate.
pub const DT_NUM: i64 = 328;

/// Largest time step, reached at the lowest accepted sample rate.
pub const DT_MAX: i64 = 14464;

/// Weight of the input's perturbation of `rho` (5.0).
pub const RHO_INPUT: i64 = 327680;

/// One half (0.5): the weight of the `x` read-out and of the
/// amplitude-modulation mix.
pub const HALF_RAW: i64 = 32768;

/// Three tenths (0.3): the weight of the `y` read-out, of the
/// frequency-modulation mix and of the shaped-chaos injection.
pub const P3_RAW: i64 = 19661;

/// One fifth (0.2): the weight of the `z` read-out.
pub const P2_RAW: i64 = 13107;

/// One hundredth (0.01): the chaos signal's weight in the phase-modulation
/// term.
pub const P01_RAW: i64 = 655;

/// A tenth of pi (the `sigma` drift oscillator's rate).
pub const TENTH_PI: i64 = 20589;

/// 0.07 pi (the `rho` drift oscillator's rate).
pub const PI_07: i64 = 14412;

/// 0.05 pi (the `beta` drift oscillator's rate).
pub const PI_05: i64 = 10294;

/// One full turn of the high-resolution phase accumulator (2^32).
pub const PHASE_TURN: u64 = 4294967296;

/// Raw numerator of the per-sample phase increment: 0.44 turns, divided by
/// the sample rate.
pub const PHASE_INC_NUM: u64 = 1889785610;

/// The drift oscillators re-derive the system parameters every this many
/// samples.
pub const EVOLVE_PERIOD: u64 = 4000;

/// Ten minutes, in seconds: the wrap period of the evolution counter.
pub const EVOLVE_WRAP_SECS: u64 = 600;

/// The chaotic-oscillator stage state.
#[derive(Clone, Copy, Debug, PartialEq, Eq, Structural)]
pub struct ChaosAttractor {
    /// Amount of the effect to apply, in `[0, 1]`.
    pub amount: Fx,
    /// Attractor coordinates, inside `[-XYZ_BOUND, XYZ_BOUND]`.
    pub x: Fx,
    /// Second attractor coordinate.
    pub y: Fx,
    /// Third attractor coordinate.
    pub z: Fx,
    /// Reaction rate of `x` toward `y`, drifting around 10.
    pub sigma: Fx,
    /// Chaos-onset parameter, drifting around 28 and perturbed by the input.
    pub rho: Fx,
    /// Damping parameter, drifting around 8/3.
    pub beta: Fx,
    /// Sample rate in Hz.
    pub sample_rate: u32,
    /// Integration time step, normalized by the sample rate.
    pub dt: Fx,
    /// High-resolution phase accumulator for the frequency-modulation term,
    /// in 2^-32 turns.
    pub phase: u64,
    /// Samples processed since the last wrap, below ten minutes of samples.
    pub evolution_counter: u64,
}

/// The rate-normalized integration time step.
pub open spec fn dt_spec(rate: int) -> int {
    (DT_NUM * 44100) / rate
}

/// Clamping into a closed interval.
pub open spec fn clamp_spec(x: int, lo: int, hi: int) -> int {
    if x < lo {
        lo
    } else if x > hi {
        hi
    } else {
        x
    }
}

/// One Euler step of the Lorenz derivatives on the conditioned coordinates,
/// with the input perturbing `rho`, followed by the stability clamp.
#[verifier::opaque]
pub open spec fn lorenz_xyz_spec(m: ChaosAttractor, input: int) -> (int, int, int) {
    let xs = fx_mul(m.x.v as int, COND as int);
    let ys = fx_mul(m.y.v as int, COND as int);
    let zs = fx_mul(m.z.v as int, COND as int);
    let rho_mod = m.rho.v + fx_mul(fx_mul(input, RHO_INPUT as int), m.amount.v as int);
    let dx = fx_mul(m.sigma.v as int, ys - xs);
    let dy = fx_mul(xs, rho_mod - zs) - ys;
    let dz = fx_mul(xs, ys) - fx_mul(m.beta.v as int, zs);
    (
        clamp_spec(m.x.v + fx_mul(dx, m.dt.v as int), -XYZ_BOUND as int, XYZ_BOUND as int),
        clamp_spec(m.y.v + fx_mul(dy, m.dt.v as int), -XYZ_BOUND as int, XYZ_BOUND as int),
        clamp_spec(m.z.v + fx_mul(dz, m.dt.v as int), -XYZ_BOUND as int, XYZ_BOUND as int),
    )
}

/// The drifted system parameters: on an evolution boundary they are
/// re-derived from slow sinusoids around the canonical values, scaled by the
/// amount; elsewhere they stay.
#[verifier::opaque]
pub open spec fn evolve_params_spec(m: ChaosAttractor) -> (int, int, int) {
    if m.evolution_counter % EVOLVE_PERIOD == 0 {
        let t = ((m.evolution_counter * SCALE) as int) / ((m.sample_rate * 120) as int);
        let sig_osc = fx_mul(HALF_RAW as int, sine_spec(fx_mul(t, TENTH_PI as int)));
        let rho_osc = fx_mul(HALF_RAW as int, sine_spec(fx_mul(t, PI_07 as int)));
        let beta_osc = fx_mul(P3_RAW as int, sine_spec(fx_mul(t, PI_05 as int)));
        (
            SIGMA_BASE + fx_mul(sig_osc, m.amount.v as int),
            RHO_BASE + fx_mul(fx_mul(rho_osc, RHO_INPUT as int), m.amount.v as int),
            BETA_BASE + fx_mul(beta_osc, m.amount.v as int),
        )
    } else {
        (m.sigma.v as int, m.rho.v as int, m.beta.v as int)
    }
}

/// The chaos signal read out of the attractor: each coordinate normalized
/// through the saturator and mixed with fixed weights.
#[verifier::opaque]
pub open spec fn chaos_output_spec(x: int, y: int, z: int) -> int {
    fx_mul(HALF_RAW as int, soft_clip_spec(div_trunc(x, 30))) + fx_mul(
        P3_RAW as int,
        soft_clip_spec(div_trunc(y, 30)),
    ) + fx_mul(P2_RAW as int, soft_clip_spec(div_trunc(z, 50)))
}

/// The advanced phase accumulator: 0.44 turns per second of samples, wrapped
/// at one turn.
pub open spec fn phase_next_spec(phase: int, rate: int) -> int {
    (phase + (PHASE_INC_NUM as int) / rate) % (PHASE_TURN as int)
}

/// The three simultaneous treatments of the input, mixed, cross-faded with
/// the dry input and saturated: amplitude modulation by the chaos signal, a
/// cosine-phase frequency-modulation term, and cubic-shaped direct
/// injection.
#[verifier::opaque]
pub open spec fn mix_spec(sample: int, amount: int, chaos: int, phase_q16: int) -> int {
    let am = fx_mul(sample, (SCALE as int) + fx_mul(chaos, amount));
    let angle = fx_mul(phase_q16 + fx_mul(fx_mul(chaos, P01_RAW as int), amount), TAU_FX as int);
    let fm = fx_mul(fx_mul(sample, cosine_spec(angle)), HALF_RAW as int);
    let shaped = fx_mul(fx_mul(fx_mul(fx_mul(chaos, chaos), chaos), amount), P3_RAW as int);
    let wet = fx_mul(am, HALF_RAW as int) + fx_mul(fm, P3_RAW as int) + shaped;
    let mixed = fx_mul(sample, (SCALE as int) - amount) + fx_mul(wet, amount);
    soft_clip_spec(mixed)
}

/// The stage's output sample for a state and an input, when the stage is
/// active: the treatments mixed over the advanced attractor and phase.
#[verifier::opaque]
pub open spec fn chaos_out_spec(m: ChaosAttractor, sample: int) -> int {
    let xyz = lorenz_xyz_spec(m, sample);
    let chaos = chaos_output_spec(xyz.0, xyz.1, xyz.2);
    let phase = phase_next_spec(m.phase as int, m.sample_rate as int);
    mix_spec(sample, m.amount.v as int, chaos, phase / (SCALE as int))
}

/// The mixed treatments end in the saturator, so the active stage's output
/// is strictly inside the unit range for every state and every input.
pub proof fn lemma_mix_spec_bounds(sample: int, amount: int, chaos: int, phase_q16: int)
    ensures
        -SCALE < mix_spec(sample, amount, chaos, phase_q16) < SCALE,
{
    reveal(mix_spec);
    let am = fx_mul(sample, (SCALE as int) + fx_mul(chaos, amount));
    let angle = fx_mul(phase_q16 + fx_mul(fx_mul(chaos, P01_RAW as int), amount), TAU_FX as int);
    let fm = fx_mul(fx_mul(sample, cosine_spec(angle)), HALF_RAW as int);
    let shaped = fx_mul(fx_mul(fx_mul(fx_mul(chaos, chaos), chaos), amount), P3_RAW as int);
    let wet = fx_mul(am, HALF_RAW as int) + fx_mul(fm, P3_RAW as int) + shaped;
    crate::wave::lemma_soft_clip_spec_bounds(
        fx_mul(sample, (SCALE as int) - amount) + fx_mul(wet, amount),
    );
}

/// The stage never grows a sample beyond the unit range: a bypassed sample
/// inside it stays inside it, and an active output is inside it regardless.
pub proof fn lemma_chaos_step_out_bounds(m: ChaosAttractor, sample: int)
    requires
        -SCALE < sample < SCALE,
    ensures
        -SCALE < chaos_step_out(m, sample) < SCALE,
{
    if m.amount.v > AMOUNT_EPS {
        reveal(chaos_out_spec);
        let xyz = lorenz_xyz_spec(m, sample);
        let chaos = chaos_output_spec(xyz.0, xyz.1, xyz.2);
        let phase = phase_next_spec(m.phase as int, m.sample_rate as int);
        lemma_mix_spec_bounds(sample, m.amount.v as int, chaos, phase / (SCALE as int));
    }
}

/// The stage's full transition for one sample: the identity at or below the
/// activation threshold, the full update otherwise.
pub open spec fn chaos_step_state(m: ChaosAttractor, sample: int) -> ChaosAttractor {
    if m.amount.v <= AMOUNT_EPS {
        m
    } else {
        let xyz = lorenz_xyz_spec(m, sample);
        let params = evolve_params_spec(m);
        ChaosAttractor {
            amount: m.amount,
            x: (Fx { v: xyz.0 as i64 }),
            y: (Fx { v: xyz.1 as i64 }),
            z: (Fx { v: xyz.2 as i64 }),
            sigma: (Fx { v: params.0 as i64 }),
            rho: (Fx { v: params.1 as i64 }),
            beta: (Fx { v: params.2 as i64 }),
            sample_rate: m.sample_rate,
            dt: m.dt,
            phase: (phase_next_spec(m.phase as int, m.sample_rate as int) as u64),
            evolution_counter: (((m.evolution_counter + 1) as int % (
                EVOLVE_WRAP_SECS * m.sample_rate) as int) as u64),
        }
    }
}

/// The stage's output for one sample: the input itself at or below the
/// activation threshold, the full update otherwise.
pub open spec fn chaos_step_out(m: ChaosAttractor, sample: int) -> int {
    if m.amount.v <= AMOUNT_EPS {
        sample
    } else {
        chaos_out_spec(m, sample)
    }
}

/// The output sequence the stage produces from a state and an input
/// sequence, one transition per sample.
pub open spec fn chaos_outputs(m: ChaosAttractor, inputs: Seq<int>) -> Seq<int>
    decreases inputs.len(),
{
    if inputs.len() == 0 {
        Seq::empty()
    } else {
        seq![chaos_step_out(m, inputs[0])] + chaos_outputs(
            chaos_step_state(m, inputs[0]),
            inputs.drop_first(),
        )
    }
}

/// Determinism of the stage: two runs from equal initial states over equal
/// input sequences produce equal output sequences. The transition is a
/// mathematical function of the state and the input alone; nothing else
/// enters it.
pub proof fn lemma_chaos_determinism(a: ChaosAttractor, b: ChaosAttractor, inputs: Seq<int>)
    requires
        a == b,
    ensures
        chaos_outputs(a, inputs) == chaos_outputs(b, inputs),
{
}

impl ChaosAttractor {
    /// Validity of the state: the amount is in `[0, 1]`, the coordinates are
    /// inside the stability clamp's bound, the system parameters are within
    /// their drift ranges, the sample rate is an audio rate, the time step
    /// is positive and bounded, the phase is below one turn and the counter
    /// is below ten minutes of samples.
    pub open spec fn wf(self) -> bool {
        &&& 0 <= self.amount.v <= SCALE
        &&& fx_abs(self.x.v as int) <= XYZ_BOUND
        &&& fx_abs(self.y.v as int) <= XYZ_BOUND
        &&& fx_abs(self.z.v as int) <= XYZ_BOUND
        &&& fx_abs(self.sigma.v - SIGMA_BASE) <= SIGMA_DRIFT
        &&& fx_abs(self.rho.v - RHO_BASE) <= RHO_DRIFT
        &&& fx_abs(self.beta.v - BETA_BASE) <= BETA_DRIFT
        &&& 1000 <= self.sample_rate <= 1000000
        &&& 1 <= self.dt.v <= DT_MAX
        &&& self.phase < PHASE_TURN
        &&& self.evolution_counter < EVOLVE_WRAP_SECS * self.sample_rate
    }

    /// Build the stage for the given amount, at the default 44100 Hz rate,
    /// with the coordinates at the slightly off-center initial condition 0.1
    /// (never the unstable origin), the canonical system parameters, and the
    /// rate-normalized time step for that default rate.
    pub fn new(amount: Fx) -> (r: ChaosAttractor)
        requires
            0 <= amount.v <= SCALE,
        ensures
            r.wf(),
            r.amount == amount,
            r.x.v == COND && r.y.v == COND && r.z.v == COND,
            r.sigma.v == SIGMA_BASE,
            r.rho.v == RHO_BASE,
            r.beta.v == BETA_BASE,
            r.sample_rate == 44100,
            r.dt.v == dt_spec(44100),
            r.phase == 0,
            r.evolution_counter == 0,
    {
        proof {
            crate::wave::lemma_div_multiple(DT_NUM as int, 44100);
        }
        ChaosAttractor {
            amount,
            x: Fx { v: COND },
            y: Fx { v: COND },
            z: Fx { v: COND },
            sigma: Fx { v: SIGMA_BASE },
            rho: Fx { v: RHO_BASE },
            beta: Fx { v: BETA_BASE },
            sample_rate: 44100,
            dt: Fx { v: DT_NUM },
            phase: 0,
            evolution_counter: 0,
        }
    }

    /// Change the sample rate: the time step is re-derived so the simulation
    /// speed stays rate-independent, and the counter is wrapped into the new
    /// period.
    pub fn set_sample_rate(&mut self, sample_rate: u32)
        requires
            old(self).wf(),
            1000 <= sample_rate <= 1000000,
        ensures
            final(self).wf(),
            final(self).sample_rate == sample_rate,
            final(self).dt.v == dt_spec(sample_rate as int),
            final(self).evolution_counter == old(self).evolution_counter as int % (
                EVOLVE_WRAP_SECS * sample_rate) as int,
            final(self).amount == old(self).amount,
            final(self).x == old(self).x && final(self).y == old(self).y && final(self).z == old(
                self,
            ).z,
            final(self).sigma == old(self).sigma,
            final(self).rho == old(self).rho,
            final(self).beta == old(self).beta,
            final(self).phase == old(self).phase,
    {
        self.sample_rate = sample_rate;
        let d: i64 = (DT_NUM * 44100) / (sample_rate as i64);
        proof {
            assert((DT_NUM * 44100) / (sample_rate as int) >= 14) by (nonlinear_arith)
                requires
                    1 <= sample_rate as int <= 1000000,
            ;
            lemma_div_below(DT_NUM * 44100, DT_MAX + 1, sample_rate as int);
            assert(DT_NUM * 44100 < (DT_MAX + 1) * (sample_rate as int)) by (nonlinear_arith)
                requires
                    sample_rate as int >= 1000,
            ;
        }
        self.dt = Fx { v: d };
        let wrap: u64 = EVOLVE_WRAP_SECS * (sample_rate as u64);
        self.evolution_counter = self.evolution_counter % wrap;
        proof {
            vstd::arithmetic::div_mod::lemma_mod_division_less_than_divisor(
                old(self).evolution_counter as int,
                wrap as int,
            );
        }
    }

    /// Re-zero the dynamic state to the slightly off-center initial
    /// condition; the amount, the rate, the time step and the system
    /// parameters stay.
    pub fn reset(&mut self)
        requires
            old(self).wf(),
        ensures
            final(self).wf(),
            final(self).x.v == COND && final(self).y.v == COND && final(self).z.v == COND,
            final(self).phase == 0,
            final(self).evolution_counter == 0,
            final(self).amount == old(self).amount,
            final(self).sigma == old(self).sigma,
            final(self).rho == old(self).rho,
            final(self).beta == old(self).beta,
            final(self).sample_rate == old(self).sample_rate,
            final(self).dt == old(self).dt,
    {
        self.x = Fx { v: COND };
        self.y = Fx { v: COND };
        self.z = Fx { v: COND };
        self.phase = 0;
        self.evolution_counter = 0;
    }

    /// One Euler step of the attractor, ending in the stability clamp: the
    /// coordinates land exactly where the step spec puts them, inside the
    /// bound, and nothing else moves.
    #[verifier::rlimit(100)]
    #[verifier::spinoff_prover]
    fn update_lorenz(&mut self, input: Fx)
        requires
            old(self).wf(),
            fx_abs(input.v as int) <= IN_LIM,
        ensures
            final(self).wf(),
            final(self).x.v == lorenz_xyz_spec(*old(self), input.v as int).0,
            final(self).y.v == lorenz_xyz_spec(*old(self), input.v as int).1,
            final(self).z.v == lorenz_xyz_spec(*old(self), input.v as int).2,
            *final(self) == (ChaosAttractor {
                x: final(self).x,
                y: final(self).y,
                z: final(self).z,
                ..*old(self)
            }),
    {
        proof {
            reveal(lorenz_xyz_spec);
        }
        let xs = self.x.times(Fx { v: COND });
        let ys = self.y.times(Fx { v: COND });
        let zs = self.z.times(Fx { v: COND });
        proof {
            lemma_fx_mul_bound(old(self).x.v as int, COND as int, XYZ_BOUND as int, COND as int);
            lemma_fx_mul_bound(old(self).y.v as int, COND as int, XYZ_BOUND as int, COND as int);
            lemma_fx_mul_bound(old(self).z.v as int, COND as int, XYZ_BOUND as int, COND as int);
        }
        let rho_in_raw = input.times(Fx { v: RHO_INPUT });
        proof {
            lemma_fx_mul_bound(input.v as int, RHO_INPUT as int, IN_LIM as int, RHO_INPUT as int);
        }
        let rho_in = rho_in_raw.times(self.amount);
        proof {
            lemma_fx_mul_unit(rho_in_raw.v as int, old(self).amount.v as int);
        }
        let rho_mod = Fx { v: self.rho.v + rho_in.v };
        let dx = self.sigma.times(Fx { v: ys.v - xs.v });
        proof {
            lemma_fx_mul_bound(old(self).sigma.v as int, ys.v - xs.v, 688128, 1310800);
        }
        let dy_prod = xs.times(Fx { v: rho_mod.v - zs.v });
        proof {
            lemma_fx_mul_bound(xs.v as int, rho_mod.v - zs.v, XS_LIM as int, 170426408);
        }
        let dy = Fx { v: dy_prod.v - ys.v };
        let xy_prod = xs.times(ys);
        let bz_prod = self.beta.times(zs);
        proof {
            lemma_fx_mul_bound(xs.v as int, ys.v as int, XS_LIM as int, XS_LIM as int);
            lemma_fx_mul_bound(old(self).beta.v as int, zs.v as int, 194424, XS_LIM as int);
        }
        let dz = Fx { v: xy_prod.v - bz_prod.v };
        let sx = dx.times(self.dt);
        let sy = dy.times(self.dt);
        let sz = dz.times(self.dt);
        proof {
            lemma_fx_mul_bound(dx.v as int, old(self).dt.v as int, 13763400, DT_MAX as int);
            lemma_fx_mul_bound(dy.v as int, old(self).dt.v as int, 1705200000, DT_MAX as int);
            lemma_fx_mul_bound(dz.v as int, old(self).dt.v as int, 8500000, DT_MAX as int);
        }
        self.x = Fx { v: self.x.v + sx.v }.clamp_to(-XYZ_BOUND, XYZ_BOUND);
        self.y = Fx { v: self.y.v + sy.v }.clamp_to(-XYZ_BOUND, XYZ_BOUND);
        self.z = Fx { v: self.z.v + sz.v }.clamp_to(-XYZ_BOUND, XYZ_BOUND);
    }

    /// Advance the drift oscillators: on an evolution boundary the system
    /// parameters are re-derived around their canonical values, and the
    /// counter moves on, wrapping at ten minutes of samples.
    #[verifier::rlimit(100)]
    #[verifier::spinoff_prover]
    fn evolve_parameters(&mut self)
        requires
            old(self).wf(),
        ensures
            final(self).wf(),
            final(self).sigma.v == evolve_params_spec(*old(self)).0,
            final(self).rho.v == evolve_params_spec(*old(self)).1,
            final(self).beta.v == evolve_params_spec(*old(self)).2,
            final(self).evolution_counter == (old(self).evolution_counter + 1) as int % (
                EVOLVE_WRAP_SECS * old(self).sample_rate) as int,
            *final(self) == (ChaosAttractor {
                sigma: final(self).sigma,
                rho: final(self).rho,
                beta: final(self).beta,
                evolution_counter: final(self).evolution_counter,
                ..*old(self)
            }),
    {
        proof {
            reveal(evolve_params_spec);
        }
        if self.evolution_counter % EVOLVE_PERIOD == 0 {
            let t: i64 = ((self.evolution_counter as i64) * SCALE) / ((self.sample_rate as i64)
                * 120);
            proof {
                let c = old(self).evolution_counter as int;
                let rt = old(self).sample_rate as int;
                assert(c * (SCALE as int) >= 0 && c * (SCALE as int) < 327680 * (rt * 120))
                    by (nonlinear_arith)
                    requires
                        0 <= c < 600 * rt,
                        rt >= 1,
                ;
                lemma_div_below(c * (SCALE as int), 327680, rt * 120);
                vstd::arithmetic::div_mod::lemma_div_pos_is_pos(c * (SCALE as int), rt * 120);
            }
            let tf = Fx { v: t };
            let a1 = tf.times(Fx { v: TENTH_PI });
            let a2 = tf.times(Fx { v: PI_07 });
            let a3 = tf.times(Fx { v: PI_05 });
            proof {
                lemma_fx_mul_bound(t as int, TENTH_PI as int, 327680, TENTH_PI as int);
                lemma_fx_mul_bound(t as int, PI_07 as int, 327680, PI_07 as int);
                lemma_fx_mul_bound(t as int, PI_05 as int, 327680, PI_05 as int);
            }
            let sig_osc = Fx { v: HALF_RAW }.times(sine_wave(a1));
            let rho_osc = Fx { v: HALF_RAW }.times(sine_wave(a2));
            let beta_osc = Fx { v: P3_RAW }.times(sine_wave(a3));
            proof {
                lemma_fx_mul_bound(HALF_RAW as int, sine_spec(a1.v as int), HALF_RAW as int,
                    SCALE as int);
                lemma_fx_mul_bound(HALF_RAW as int, sine_spec(a2.v as int), HALF_RAW as int,
                    SCALE as int);
                lemma_fx_mul_bound(P3_RAW as int, sine_spec(a3.v as int), P3_RAW as int,
                    SCALE as int);
            }
            let sig_term = sig_osc.times(self.amount);
            let rho_scaled = rho_osc.times(Fx { v: RHO_INPUT });
            proof {
                lemma_fx_mul_unit(sig_osc.v as int, old(self).amount.v as int);
                lemma_fx_mul_bound(rho_osc.v as int, RHO_INPUT as int, HALF_RAW as int,
                    RHO_INPUT as int);
            }
            let rho_term = rho_scaled.times(self.amount);
            let beta_term = beta_osc.times(self.amount);
            proof {
                lemma_fx_mul_unit(rho_scaled.v as int, old(self).amount.v as int);
                lemma_fx_mul_unit(beta_osc.v as int, old(self).amount.v as int);
            }
            self.sigma = Fx { v: SIGMA_BASE + sig_term.v };
            self.rho = Fx { v: RHO_BASE + rho_term.v };
            self.beta = Fx { v: BETA_BASE + beta_term.v };
        }
        let wrap: u64 = EVOLVE_WRAP_SECS * (self.sample_rate as u64);
        self.evolution_counter = (self.evolution_counter + 1) % wrap;
        proof {
            vstd::arithmetic::div_mod::lemma_mod_division_less_than_divisor(
                (old(self).evolution_counter + 1) as int,
                wrap as int,
            );
        }
    }

    /// Read the chaos signal out of the attractor: strictly inside the unit
    /// range.
    fn get_lorenz_output(&self) -> (r: Fx)
        requires
            self.wf(),
        ensures
            r.v == chaos_output_spec(self.x.v as int, self.y.v as int, self.z.v as int),
            -SCALE < r.v < SCALE,
    {
        proof {
            reveal(chaos_output_spec);
        }
        let xn = soft_clip(self.x.div_int(30));
        let yn = soft_clip(self.y.div_int(30));
        let zn = soft_clip(self.z.div_int(50));
        proof {
            lemma_fx_mul_bound(HALF_RAW as int, xn.v as int, HALF_RAW as int, (SCALE - 1) as int);
            lemma_fx_mul_bound(P3_RAW as int, yn.v as int, P3_RAW as int, (SCALE - 1) as int);
            lemma_fx_mul_bound(P2_RAW as int, zn.v as int, P2_RAW as int, (SCALE - 1) as int);
        }
        let wx = Fx { v: HALF_RAW }.times(xn);
        let wy = Fx { v: P3_RAW }.times(yn);
        let wz = Fx { v: P2_RAW }.times(zn);
        Fx { v: wx.v + wy.v + wz.v }
    }

    /// Push one sample through the stage. At or below the activation
    /// threshold the input passes through unchanged and no state moves;
    /// otherwise the attractor, the drift oscillators and the phase advance
    /// exactly as the step spec says, the coordinates stay inside the
    /// stability bound, and the output is strictly inside the unit range.
    #[verifier::rlimit(100)]
    #[verifier::spinoff_prover]
    pub fn process(&mut self, sample: Fx) -> (r: Fx)
        requires
            old(self).wf(),
            fx_abs(sample.v as int) <= IN_LIM,
        ensures
            final(self).wf(),
            *final(self) == chaos_step_state(*old(self), sample.v as int),
            r.v == chaos_step_out(*old(self), sample.v as int),
            old(self).amount.v <= AMOUNT_EPS ==> r == sample && *final(self) == *old(self),
            old(self).amount.v > AMOUNT_EPS ==> -SCALE < r.v < SCALE,
    {
        if self.amount.v <= AMOUNT_EPS {
            return sample;
        }
        let amount = self.amount;
        proof {
            reveal(lorenz_xyz_spec);
            reveal(evolve_params_spec);
            reveal(chaos_out_spec);
        }
        // advance the frequency-modulation phase
        let inc: u64 = PHASE_INC_NUM / (self.sample_rate as u64);
        self.phase = (self.phase + inc) % PHASE_TURN;
        proof {
            vstd::arithmetic::div_mod::lemma_mod_division_less_than_divisor(
                (old(self).phase + inc) as int,
                PHASE_TURN as int,
            );
        }
        // integrate the attractor and let its parameters drift
        self.update_lorenz(sample);
        self.evolve_parameters();
        proof {
            assert(self.x.v == lorenz_xyz_spec(*old(self), sample.v as int).0);
            assert(self.y.v == lorenz_xyz_spec(*old(self), sample.v as int).1);
            assert(self.z.v == lorenz_xyz_spec(*old(self), sample.v as int).2);
        }
        let chaos = self.get_lorenz_output();
        let phase_q16: i64 = (self.phase / 65536) as i64;
        let out = Self::mix_treatments(sample, amount, chaos, phase_q16);
        proof {
            assert(out.v == chaos_out_spec(*old(self), sample.v as int));
        }
        out
    }

    /// Mix the three treatments of the input over the chaos signal and the
    /// phase, cross-fade with the dry input and saturate.
    #[verifier::rlimit(100)]
    #[verifier::spinoff_prover]
    fn mix_treatments(sample: Fx, amount: Fx, chaos: Fx, phase_q16: i64) -> (r: Fx)
        requires
            fx_abs(sample.v as int) <= IN_LIM,
            0 <= amount.v <= SCALE,
            fx_abs(chaos.v as int) < SCALE,
            0 <= phase_q16 <= 65536,
        ensures
            r.v == mix_spec(sample.v as int, amount.v as int, chaos.v as int, phase_q16 as int),
            -SCALE < r.v < SCALE,
    {
        proof {
            reveal(mix_spec);
        }
        // amplitude modulation
        let cham = chaos.times(amount);
        proof {
            lemma_fx_mul_unit(chaos.v as int, amount.v as int);
        }
        let am = sample.times(Fx { v: SCALE + cham.v });
        proof {
            lemma_fx_mul_bound(sample.v as int, SCALE + cham.v, IN_LIM as int, 2 * SCALE as int);
        }
        // frequency modulation from the phase accumulator and the chaos
        // signal
        let c01p = chaos.times(Fx { v: P01_RAW });
        proof {
            lemma_fx_mul_bound(chaos.v as int, P01_RAW as int, SCALE as int, P01_RAW as int);
        }
        let c01 = c01p.times(amount);
        proof {
            lemma_fx_mul_unit(c01p.v as int, amount.v as int);
        }
        let angle = Fx { v: phase_q16 + c01.v }.times(Fx { v: TAU_FX });
        proof {
            lemma_fx_mul_bound(phase_q16 + c01.v, TAU_FX as int, 66191, TAU_FX as int);
        }
        let fm1 = sample.times(cosine_wave(angle));
        proof {
            lemma_fx_mul_bound(sample.v as int, cosine_spec(angle.v as int), IN_LIM as int,
                SCALE as int);
        }
        let fm = fm1.times(Fx { v: HALF_RAW });
        proof {
            lemma_fx_mul_bound(fm1.v as int, HALF_RAW as int, IN_LIM as int, HALF_RAW as int);
        }
        // cubic-shaped direct injection
        let c2 = chaos.times(chaos);
        proof {
            lemma_fx_mul_bound(chaos.v as int, chaos.v as int, SCALE as int, SCALE as int);
        }
        let c3 = c2.times(chaos);
        proof {
            lemma_fx_mul_bound(c2.v as int, chaos.v as int, SCALE as int, SCALE as int);
        }
        let c3a = c3.times(amount);
        proof {
            lemma_fx_mul_unit(c3.v as int, amount.v as int);
        }
        let shaped = c3a.times(Fx { v: P3_RAW });
        proof {
            lemma_fx_mul_bound(c3a.v as int, P3_RAW as int, SCALE as int, P3_RAW as int);
        }
        // mix the three treatments, cross-fade with the dry input, saturate
        let wam = am.times(Fx { v: HALF_RAW });
        let wfm = fm.times(Fx { v: P3_RAW });
        proof {
            lemma_fx_mul_bound(am.v as int, HALF_RAW as int, 67110000, HALF_RAW as int);
            lemma_fx_mul_bound(fm.v as int, P3_RAW as int, 16777216, P3_RAW as int);
        }
        let wet = Fx { v: wam.v + wfm.v + shaped.v };
        let dry_part = sample.times(Fx { v: SCALE - amount.v });
        let wet_part = wet.times(amount);
        proof {
            lemma_fx_mul_unit(sample.v as int, (SCALE - amount.v) as int);
            lemma_fx_mul_unit(wet.v as int, amount.v as int);
        }
        let mixed = Fx { v: dry_part.v + wet_part.v };
        soft_clip(mixed)
    }
}

} // verus!
