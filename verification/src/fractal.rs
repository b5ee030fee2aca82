//! The chaotic-iteration stage: a quadratic complex-plane recurrence
//! perturbed by the input sample, combined with wave-folding, a slow
//! secondary oscillator, smoothed feedback and a final saturator.
//!
//! The stage keeps a complex state `z = (z_real, z_imag)` that is updated
//! once per sample by `z <- z^2 + c + input-injection`, where `c` wobbles
//! with the input. A rescaling clamp halves both components whenever either
//! leaves `[-2, 2]`; that bound is a proven invariant of the state, not a
//! best-effort guard. The stage bypasses exactly when its amount is at or
//! below the activation threshold, leaving both the sample and the state
//! untouched.

use vstd::prelude::*;

use crate::fixed::{Fx, SCALE, FX_LIM, fx_abs, fx_mul, fx_div, div_trunc, lemma_fx_mul_bound,
    lemma_fx_mul_unit, lemma_div_trunc_abs, lemma_div_ordered};
use crate::wave::{soft_clip, soft_clip_spec, sine_wave, sine_spec, cosine_wave, cosine_spec,
    lemma_div_below};
use crate::distortion::IN_LIM;

verus! {

/// Activation threshold of the stage's amount (about 0.001): at or below it
/// the stage is an exact bypass.
pub const AMOUNT_EPS: i64 = 65;

/// Raw bound of each component of the complex state (2.0).
pub const Z_BOUND: i64 = 131072;

/// Raw magnitude both components stay below before the rescaling clamp runs
/// (64.0); five halvings bring it back inside `Z_BOUND`.
pub const Z_RAW_LIM: i64 = 4194304;

/// Base of the real part of the recurrence constant `c` (0.285).
pub const C_REAL_BASE: i64 = 18678;

/// Base of the imaginary part of `c` (0.01), also the amplitude of the
/// input-driven wobble on both parts.
pub const C_WOBBLE: i64 = 655;

/// Weight of the input sample injected into the recurrence (0.1).
pub const SAMPLE_INJECT: i64 = 6554;

/// Drive scale from the amount to the recurrence wobble and the wet mix
/// (2.0).
pub const STRENGTH_SCALE: i64 = 131072;

/// Fold scale from the amount to the wave-folder (2.5).
pub const FOLD_SCALE: i64 = 163840;

/// Feedback scale from the amount to the `tanh`-limited feedback (0.4).
pub const FEEDBACK_SCALE: i64 = 26214;

/// Weight of the real state component in the wet mix (0.2).
pub const FRACTAL_GAIN: i64 = 13107;

/// Amplitude of the slow secondary oscillator (0.1).
pub const LFO_AMP: i64 = 6554;

/// One tenth of a turn in raw angle units: the secondary oscillator runs at
/// 0.1 Hz.
pub const TAU_TENTH: i64 = 41177;

/// Default release smoothing factor (0.9995).
pub const RELEASE_BASE: i64 = 65503;

/// Per-44100-Hz loss of the release smoothing factor (0.0005), used to keep
/// the release time constant independent of the sample rate.
pub const RELEASE_DELTA: i64 = 33;

/// One minute, in seconds: the wrap period of the sample counter.
pub const COUNTER_WRAP_SECS: u64 = 60;

/// The chaotic-iteration stage state.
#[derive(Clone, Copy, Debug, PartialEq, Eq, Structural)]
pub struct FractalMagic {
    /// Amount of the effect to apply, in `[0, 1]`.
    pub amount: Fx,
    /// Real part of the complex recurrence state.
    pub z_real: Fx,
    /// Imaginary part of the complex recurrence state.
    pub z_imag: Fx,
    /// Sample rate in Hz.
    pub sample_rate: u32,
    /// Samples processed since the last wrap, below one minute of samples.
    pub sample_counter: u64,
    /// Release smoothing factor, in `[0, 1)`.
    pub release_smoothing: Fx,
    /// The previous output sample, strictly inside the unit range.
    pub prev_output: Fx,
}

/// Release smoothing factor for a sample rate: the default factor loses
/// `RELEASE_DELTA` per 44100 Hz of rate, floored at zero.
pub open spec fn release_spec(rate: int) -> int {
    let w = (SCALE as int) - (RELEASE_DELTA * 44100) / rate;
    if w < 0 {
        0
    } else {
        w
    }
}

/// Drive strength derived from the amount.
pub open spec fn strength_spec(amount: int) -> int {
    fx_mul(amount, STRENGTH_SCALE as int)
}

/// Real part of the recurrence constant `c` for a given input sample.
pub open spec fn c_real_spec(sample: int, amount: int) -> int {
    C_REAL_BASE + fx_mul(C_WOBBLE as int, sine_spec(fx_mul(sample, strength_spec(amount))))
}

/// Imaginary part of the recurrence constant `c` for a given input sample.
pub open spec fn c_imag_spec(sample: int, amount: int) -> int {
    C_WOBBLE + fx_mul(C_WOBBLE as int, cosine_spec(fx_mul(sample, strength_spec(amount))))
}

/// The complex state after `z^2 + c + input-injection`, before rescaling.
pub open spec fn z_raw_spec(zr: int, zi: int, sample: int, amount: int) -> (int, int) {
    (
        fx_mul(zr, zr) - fx_mul(zi, zi) + c_real_spec(sample, amount) + fx_mul(
            sample,
            SAMPLE_INJECT as int,
        ),
        2 * fx_mul(zr, zi) + c_imag_spec(sample, amount),
    )
}

/// One conditional rescaling step: halve both components if either is
/// outside `[-Z_BOUND, Z_BOUND]`.
pub open spec fn halve_pair_spec(zr: int, zi: int) -> (int, int) {
    if fx_abs(zr) > Z_BOUND || fx_abs(zi) > Z_BOUND {
        (div_trunc(zr, 2), div_trunc(zi, 2))
    } else {
        (zr, zi)
    }
}

/// The rescaling clamp: five conditional halvings, enough to bring any raw
/// update of magnitude at most `Z_RAW_LIM` back inside the bound.
pub open spec fn rescale_spec(zr: int, zi: int) -> (int, int) {
    let p1 = halve_pair_spec(zr, zi);
    let p2 = halve_pair_spec(p1.0, p1.1);
    let p3 = halve_pair_spec(p2.0, p2.1);
    let p4 = halve_pair_spec(p3.0, p3.1);
    let p5 = halve_pair_spec(p4.0, p4.1);
    p5
}

/// The complex state after one full update, rescaling included.
#[verifier::opaque]
pub open spec fn fractal_z_spec(m: FractalMagic, sample: int) -> (int, int) {
    let raw = z_raw_spec(m.z_real.v as int, m.z_imag.v as int, sample, m.amount.v as int);
    rescale_spec(raw.0, raw.1)
}

/// The active stage's output is strictly inside the unit range for every
/// state and every input: whatever the mix produced, the final saturator
/// bounds it.
pub proof fn lemma_fractal_out_bounds(m: FractalMagic, sample: int)
    ensures
        -SCALE < fractal_out_spec(m, sample) < SCALE,
{
    reveal(fractal_out_spec);
    let amount = m.amount.v as int;
    let zp = fractal_z_spec(m, sample);
    let lfo = lfo_spec(m.sample_counter as int, m.sample_rate as int);
    let folded = wave_fold_spec(sample + lfo, fx_mul(amount, FOLD_SCALE as int));
    let wet = fx_mul(fx_mul(zp.0, FRACTAL_GAIN as int), strength_spec(amount)) + folded;
    let mixed = fx_mul(sample, (SCALE as int) - amount) + fx_mul(wet, amount);
    let with_fb = mixed + fx_mul(fx_mul(amount, FEEDBACK_SCALE as int), soft_clip_spec(zp.0));
    crate::wave::lemma_soft_clip_spec_bounds(
        smooth_spec(with_fb, m.prev_output.v as int, m.release_smoothing.v as int),
    );
}

/// The stage never grows a sample beyond the unit range: a bypassed sample
/// inside it stays inside it, and an active output is inside it regardless.
pub proof fn lemma_fractal_step_out_bounds(m: FractalMagic, sample: int)
    requires
        -SCALE < sample < SCALE,
    ensures
        -SCALE < fractal_step_out(m, sample) < SCALE,
{
    if m.amount.v > AMOUNT_EPS {
        lemma_fractal_out_bounds(m, sample);
    }
}

/// The slow secondary oscillator's offset for a counter position.
pub open spec fn lfo_spec(counter: int, rate: int) -> int {
    fx_mul(sine_spec((counter * TAU_TENTH) / rate), LFO_AMP as int)
}

/// The wave-folder: reflect the input around the threshold `1 / fold_amount`
/// whenever it exceeds it; the identity for a non-positive fold amount.
pub open spec fn wave_fold_spec(input: int, fold_amount: int) -> int {
    if fold_amount <= 0 {
        input
    } else {
        let t = fx_div(SCALE as int, fold_amount);
        if input > t {
            2 * t - input
        } else if input < -t {
            -2 * t - input
        } else {
            input
        }
    }
}

/// The asymmetric envelope: a rising magnitude passes through, a falling one
/// is blended with the previous output by the release factor.
pub open spec fn smooth_spec(wf: int, prev: int, release: int) -> int {
    if fx_abs(wf) > fx_abs(prev) {
        wf
    } else {
        fx_mul(wf, (SCALE as int) - release) + fx_mul(prev, release)
    }
}

/// The stage's output sample for a state and an input, when the stage is
/// active: the dry/wet mix of the folded signal and the recurrence state,
/// with feedback, envelope smoothing and the final saturator applied.
#[verifier::opaque]
pub open spec fn fractal_out_spec(m: FractalMagic, sample: int) -> int {
    let amount = m.amount.v as int;
    let zp = fractal_z_spec(m, sample);
    let lfo = lfo_spec(m.sample_counter as int, m.sample_rate as int);
    let folded = wave_fold_spec(sample + lfo, fx_mul(amount, FOLD_SCALE as int));
    let wet = fx_mul(fx_mul(zp.0, FRACTAL_GAIN as int), strength_spec(amount)) + folded;
    let mixed = fx_mul(sample, (SCALE as int) - amount) + fx_mul(wet, amount);
    let with_fb = mixed + fx_mul(fx_mul(amount, FEEDBACK_SCALE as int), soft_clip_spec(zp.0));
    soft_clip_spec(smooth_spec(with_fb, m.prev_output.v as int, m.release_smoothing.v as int))
}

/// The stage's full transition for one sample: the identity at or below the
/// activation threshold, the full update otherwise.
pub open spec fn fractal_step_state(m: FractalMagic, sample: int) -> FractalMagic {
    if m.amount.v <= AMOUNT_EPS {
        m
    } else {
        let zp = fractal_z_spec(m, sample);
        FractalMagic {
            amount: m.amount,
            z_real: (Fx { v: zp.0 as i64 }),
            z_imag: (Fx { v: zp.1 as i64 }),
            sample_rate: m.sample_rate,
            sample_counter: (((m.sample_counter + 1) as int % (
                COUNTER_WRAP_SECS * m.sample_rate) as int) as u64),
            release_smoothing: m.release_smoothing,
            prev_output: (Fx { v: fractal_out_spec(m, sample) as i64 }),
        }
    }
}

/// The stage's output for one sample: the input itself at or below the
/// activation threshold, the full update otherwise.
pub open spec fn fractal_step_out(m: FractalMagic, sample: int) -> int {
    if m.amount.v <= AMOUNT_EPS {
        sample
    } else {
        fractal_out_spec(m, sample)
    }
}

/// The output sequence the stage produces from a state and an input
/// sequence, one transition per sample.
pub open spec fn fractal_outputs(m: FractalMagic, inputs: Seq<int>) -> Seq<int>
    decreases inputs.len(),
{
    if inputs.len() == 0 {
        Seq::empty()
    } else {
        seq![fractal_step_out(m, inputs[0])] + fractal_outputs(
            fractal_step_state(m, inputs[0]),
            inputs.drop_first(),
        )
    }
}

/// One row of a buffer pushed through the stage, channel by channel, the
/// state threading from one sample to the next.
pub open spec fn fractal_row_run(m: FractalMagic, row: Seq<Fx>) -> (FractalMagic, Seq<int>)
    decreases row.len(),
{
    if row.len() == 0 {
        (m, Seq::empty())
    } else {
        let out = fractal_step_out(m, row[0].v as int);
        let m1 = fractal_step_state(m, row[0].v as int);
        let rest = fractal_row_run(m1, row.drop_first());
        (rest.0, seq![out] + rest.1)
    }
}

/// A whole buffer pushed through the stage, row by row, the state threading
/// through every sample of every row.
pub open spec fn fractal_buffer_run(m: FractalMagic, rows: Seq<Vec<Fx>>) -> (
    FractalMagic,
    Seq<Seq<int>>,
)
    decreases rows.len(),
{
    if rows.len() == 0 {
        (m, Seq::empty())
    } else {
        let first = fractal_row_run(m, rows[0]@);
        let rest = fractal_buffer_run(first.0, rows.drop_first());
        (rest.0, seq![first.1] + rest.1)
    }
}

/// A row run yields one output per sample.
pub proof fn lemma_fractal_row_run_len(m: FractalMagic, row: Seq<Fx>)
    ensures
        fractal_row_run(m, row).1.len() == row.len(),
    decreases row.len(),
{
    if row.len() > 0 {
        lemma_fractal_row_run_len(fractal_step_state(m, row[0].v as int), row.drop_first());
    }
}

/// A buffer run yields one output row per input row.
pub proof fn lemma_fractal_buffer_run_len(m: FractalMagic, rows: Seq<Vec<Fx>>)
    ensures
        fractal_buffer_run(m, rows).1.len() == rows.len(),
    decreases rows.len(),
{
    if rows.len() > 0 {
        lemma_fractal_buffer_run_len(fractal_row_run(m, rows[0]@).0, rows.drop_first());
    }
}

/// Determinism of the stage: two runs from equal initial states over equal
/// input sequences produce equal output sequences. The transition is a
/// mathematical function of the state and the input alone; nothing else
/// enters it.
pub proof fn lemma_fractal_determinism(a: FractalMagic, b: FractalMagic, inputs: Seq<int>)
    requires
        a == b,
    ensures
        fractal_outputs(a, inputs) == fractal_outputs(b, inputs),
{
}

/// The wave-folder. Reflection around a non-negative threshold never raises
/// the magnitude, so the folded signal stays within the input's bound.
pub fn wave_fold(input: Fx, fold_amount: Fx) -> (r: Fx)
    requires
        fx_abs(input.v as int) <= FX_LIM,
        fx_abs(fold_amount.v as int) <= FX_LIM,
    ensures
        r.v == wave_fold_spec(input.v as int, fold_amount.v as int),
        fx_abs(r.v as int) <= fx_abs(input.v as int),
{
    if fold_amount.v <= 0 {
        return input;
    }
    let t = Fx { v: SCALE }.divide(fold_amount);
    proof {
        lemma_div_trunc_abs((SCALE as int) * (SCALE as int), fold_amount.v as int);
        lemma_div_ordered(
            (SCALE as int) * (SCALE as int),
            (SCALE as int) * (SCALE as int),
            fold_amount.v as int,
        );
    }
    if input.v > t.v {
        Fx { v: 2 * t.v - input.v }
    } else if input.v < -t.v {
        Fx { v: -2 * t.v - input.v }
    } else {
        input
    }
}

/// One conditional rescaling step on the complex state.
fn halve_step(zr: Fx, zi: Fx) -> (r: (Fx, Fx))
    requires
        fx_abs(zr.v as int) <= FX_LIM,
        fx_abs(zi.v as int) <= FX_LIM,
    ensures
        r.0.v == halve_pair_spec(zr.v as int, zi.v as int).0,
        r.1.v == halve_pair_spec(zr.v as int, zi.v as int).1,
        fx_abs(r.0.v as int) <= fx_abs(zr.v as int),
        fx_abs(r.1.v as int) <= fx_abs(zi.v as int),
{
    let ar = zr.abs_val();
    let ai = zi.abs_val();
    if ar.v > Z_BOUND || ai.v > Z_BOUND {
        (zr.half(), zi.half())
    } else {
        (zr, zi)
    }
}

/// One rescaling step takes a shared magnitude bound `b` (at least the
/// stability bound itself) down to the larger of the stability bound and
/// half of `b`.
proof fn lemma_halve_pair(zr: int, zi: int, b: int)
    requires
        fx_abs(zr) <= b,
        fx_abs(zi) <= b,
        Z_BOUND <= b,
    ensures
        fx_abs(halve_pair_spec(zr, zi).0) <= if b / 2 >= Z_BOUND {
            b / 2
        } else {
            Z_BOUND as int
        },
        fx_abs(halve_pair_spec(zr, zi).1) <= if b / 2 >= Z_BOUND {
            b / 2
        } else {
            Z_BOUND as int
        },
{
    if fx_abs(zr) > Z_BOUND || fx_abs(zi) > Z_BOUND {
        lemma_div_trunc_abs(zr, 2);
        lemma_div_trunc_abs(zi, 2);
        lemma_div_ordered(fx_abs(zr), b, 2);
        lemma_div_ordered(fx_abs(zi), b, 2);
    }
}

/// The rescaling clamp restores the stability bound: five conditional
/// halvings bring any raw update of magnitude at most `Z_RAW_LIM` back
/// inside `[-Z_BOUND, Z_BOUND]`.
pub proof fn lemma_rescale_bounds(zr: int, zi: int)
    requires
        fx_abs(zr) <= Z_RAW_LIM,
        fx_abs(zi) <= Z_RAW_LIM,
    ensures
        fx_abs(rescale_spec(zr, zi).0) <= Z_BOUND,
        fx_abs(rescale_spec(zr, zi).1) <= Z_BOUND,
{
    let p1 = halve_pair_spec(zr, zi);
    let p2 = halve_pair_spec(p1.0, p1.1);
    let p3 = halve_pair_spec(p2.0, p2.1);
    let p4 = halve_pair_spec(p3.0, p3.1);
    lemma_halve_pair(zr, zi, Z_RAW_LIM as int);
    lemma_halve_pair(p1.0, p1.1, 2097152);
    lemma_halve_pair(p2.0, p2.1, 1048576);
    lemma_halve_pair(p3.0, p3.1, 524288);
    lemma_halve_pair(p4.0, p4.1, 262144);
}

impl FractalMagic {
    /// Validity of the state: the amount is in `[0, 1]`, both complex
    /// components are inside the stability bound, the sample rate is an
    /// audio rate, the counter is below one minute of samples, the release
    /// factor is below 1.0 and the previous output is inside the unit range.
    pub open spec fn wf(self) -> bool {
        &&& 0 <= self.amount.v <= SCALE
        &&& fx_abs(self.z_real.v as int) <= Z_BOUND
        &&& fx_abs(self.z_imag.v as int) <= Z_BOUND
        &&& 1000 <= self.sample_rate <= 1000000
        &&& self.sample_counter < COUNTER_WRAP_SECS * self.sample_rate
        &&& 0 <= self.release_smoothing.v < SCALE
        &&& fx_abs(self.prev_output.v as int) < SCALE
    }

    /// Build the stage for the given amount, at the default 44100 Hz rate,
    /// with the complex state, the counter and the previous output zeroed.
    pub fn new(amount: Fx) -> (r: FractalMagic)
        requires
            0 <= amount.v <= SCALE,
        ensures
            r.wf(),
            r.amount == amount,
            r.z_real.v == 0,
            r.z_imag.v == 0,
            r.sample_rate == 44100,
            r.sample_counter == 0,
            r.release_smoothing.v == RELEASE_BASE,
            r.prev_output.v == 0,
    {
        FractalMagic {
            amount,
            z_real: Fx { v: 0 },
            z_imag: Fx { v: 0 },
            sample_rate: 44100,
            sample_counter: 0,
            release_smoothing: Fx { v: RELEASE_BASE },
            prev_output: Fx { v: 0 },
        }
    }

    /// Change the sample rate: the release factor is re-derived so the
    /// release time stays rate-independent, and the counter is wrapped into
    /// the new period.
    pub fn set_sample_rate(&mut self, sample_rate: u32)
        requires
            old(self).wf(),
            1000 <= sample_rate <= 1000000,
        ensures
            final(self).wf(),
            final(self).sample_rate == sample_rate,
            final(self).release_smoothing.v == release_spec(sample_rate as int),
            final(self).sample_counter == old(self).sample_counter as int % (
                COUNTER_WRAP_SECS * sample_rate) as int,
            final(self).amount == old(self).amount,
            final(self).z_real == old(self).z_real,
            final(self).z_imag == old(self).z_imag,
            final(self).prev_output == old(self).prev_output,
    {
        self.sample_rate = sample_rate;
        let w: i64 = SCALE - (RELEASE_DELTA * 44100) / (sample_rate as i64);
        self.release_smoothing = Fx { v: if w < 0 {
            0
        } else {
            w
        } };
        proof {
            vstd::arithmetic::div_mod::lemma_div_pos_is_pos(
                RELEASE_DELTA * 44100,
                sample_rate as int,
            );
            assert((RELEASE_DELTA * 44100) / (sample_rate as int) >= 1) by (nonlinear_arith)
                requires
                    1 <= sample_rate as int <= RELEASE_DELTA * 44100,
            ;
        }
        let wrap: u64 = COUNTER_WRAP_SECS * (sample_rate as u64);
        self.sample_counter = self.sample_counter % wrap;
        proof {
            vstd::arithmetic::div_mod::lemma_mod_division_less_than_divisor(
                old(self).sample_counter as int,
                wrap as int,
            );
        }
    }

    /// Re-zero the complex state, the counter and the previous output; the
    /// amount, the rate and the release factor stay.
    pub fn reset(&mut self)
        requires
            old(self).wf(),
        ensures
            final(self).wf(),
            final(self).z_real.v == 0,
            final(self).z_imag.v == 0,
            final(self).sample_counter == 0,
            final(self).prev_output.v == 0,
            final(self).amount == old(self).amount,
            final(self).sample_rate == old(self).sample_rate,
            final(self).release_smoothing == old(self).release_smoothing,
    {
        self.z_real = Fx { v: 0 };
        self.z_imag = Fx { v: 0 };
        self.sample_counter = 0;
        self.prev_output = Fx { v: 0 };
    }

    /// Push one sample through the stage. At or below the activation
    /// threshold the input passes through unchanged and no state moves;
    /// otherwise the state and the output follow the recurrence exactly, the
    /// complex state stays inside the stability bound, and the output is
    /// strictly inside the unit range.
    #[verifier::rlimit(100)]
    #[verifier::spinoff_prover]
    pub fn process(&mut self, sample: Fx) -> (r: Fx)
        requires
            old(self).wf(),
            fx_abs(sample.v as int) <= IN_LIM,
        ensures
            final(self).wf(),
            *final(self) == fractal_step_state(*old(self), sample.v as int),
            r.v == fractal_step_out(*old(self), sample.v as int),
            old(self).amount.v <= AMOUNT_EPS ==> r == sample && *final(self) == *old(self),
            old(self).amount.v > AMOUNT_EPS ==> -SCALE < r.v < SCALE,
    {
        if self.amount.v <= AMOUNT_EPS {
            return sample;
        }
        let amount = self.amount;
        proof {
            reveal(fractal_z_spec);
            reveal(fractal_out_spec);
        }
        let one_minus = Fx { v: SCALE - amount.v };
        let strength = amount.times(Fx { v: STRENGTH_SCALE });
        let fold_strength = amount.times(Fx { v: FOLD_SCALE });
        let feedback_amount = amount.times(Fx { v: FEEDBACK_SCALE });
        proof {
            lemma_fx_mul_bound(amount.v as int, STRENGTH_SCALE as int, SCALE as int,
                STRENGTH_SCALE as int);
            lemma_fx_mul_bound(amount.v as int, FOLD_SCALE as int, SCALE as int,
                FOLD_SCALE as int);
            lemma_fx_mul_bound(amount.v as int, FEEDBACK_SCALE as int, SCALE as int,
                FEEDBACK_SCALE as int);
        }
        // the input-driven wobble of the recurrence constant
        let angle = sample.times(strength);
        proof {
            lemma_fx_mul_bound(sample.v as int, strength.v as int, IN_LIM as int,
                STRENGTH_SCALE as int);
        }
        let s_wave = sine_wave(angle);
        let c_wave = cosine_wave(angle);
        let cr_wobble = Fx { v: C_WOBBLE }.times(s_wave);
        let ci_wobble = Fx { v: C_WOBBLE }.times(c_wave);
        proof {
            lemma_fx_mul_bound(C_WOBBLE as int, s_wave.v as int, C_WOBBLE as int, SCALE as int);
            lemma_fx_mul_bound(C_WOBBLE as int, c_wave.v as int, C_WOBBLE as int, SCALE as int);
        }
        let c_real = Fx { v: C_REAL_BASE + cr_wobble.v };
        let c_imag = Fx { v: C_WOBBLE + ci_wobble.v };
        // z <- z^2 + c + input-injection
        let tr = self.z_real;
        let ti = self.z_imag;
        let rr = tr.times(tr);
        let ii = ti.times(ti);
        let ri = tr.times(ti);
        let inject = sample.times(Fx { v: SAMPLE_INJECT });
        proof {
            lemma_fx_mul_bound(tr.v as int, tr.v as int, Z_BOUND as int, Z_BOUND as int);
            lemma_fx_mul_bound(ti.v as int, ti.v as int, Z_BOUND as int, Z_BOUND as int);
            lemma_fx_mul_bound(tr.v as int, ti.v as int, Z_BOUND as int, Z_BOUND as int);
            lemma_fx_mul_bound(sample.v as int, SAMPLE_INJECT as int, IN_LIM as int,
                SAMPLE_INJECT as int);
        }
        let zr_raw = Fx { v: rr.v - ii.v + c_real.v + inject.v };
        let zi_raw = Fx { v: 2 * ri.v + c_imag.v };
        // the rescaling clamp
        let p1 = halve_step(zr_raw, zi_raw);
        let p2 = halve_step(p1.0, p1.1);
        let p3 = halve_step(p2.0, p2.1);
        let p4 = halve_step(p3.0, p3.1);
        let p5 = halve_step(p4.0, p4.1);
        let zr = p5.0;
        let zi = p5.1;
        proof {
            lemma_rescale_bounds(zr_raw.v as int, zi_raw.v as int);
        }
        // the slow secondary oscillator
        let phase_raw: i64 = ((self.sample_counter as i64) * TAU_TENTH) / (self.sample_rate
            as i64);
        proof {
            let c = old(self).sample_counter as int;
            let rt = old(self).sample_rate as int;
            assert(c * (TAU_TENTH as int) < (60 * TAU_TENTH) * rt) by (nonlinear_arith)
                requires
                    c < 60 * rt,
                    rt >= 1,
            ;
            assert(c * (TAU_TENTH as int) >= 0) by (nonlinear_arith)
                requires
                    c >= 0,
            ;
            lemma_div_below(c * (TAU_TENTH as int), 60 * TAU_TENTH, rt);
            vstd::arithmetic::div_mod::lemma_div_pos_is_pos(c * (TAU_TENTH as int), rt);
        }
        let lfo = sine_wave(Fx { v: phase_raw }).times(Fx { v: LFO_AMP });
        proof {
            lemma_fx_mul_bound(
                sine_spec(phase_raw as int),
                LFO_AMP as int,
                SCALE as int,
                LFO_AMP as int,
            );
        }
        // wave-folding of the offset input
        let folded = wave_fold(Fx { v: sample.v + lfo.v }, fold_strength);
        // dry/wet mix
        let z_gain = zr.times(Fx { v: FRACTAL_GAIN });
        proof {
            lemma_fx_mul_bound(zr.v as int, FRACTAL_GAIN as int, Z_BOUND as int,
                FRACTAL_GAIN as int);
        }
        let z_term = z_gain.times(strength);
        proof {
            lemma_fx_mul_bound(z_gain.v as int, strength.v as int, 26214, STRENGTH_SCALE as int);
        }
        let wet = Fx { v: z_term.v + folded.v };
        let dry_part = sample.times(one_minus);
        let wet_part = wet.times(amount);
        proof {
            lemma_fx_mul_unit(sample.v as int, one_minus.v as int);
            lemma_fx_mul_unit(wet.v as int, amount.v as int);
        }
        let mixed = Fx { v: dry_part.v + wet_part.v };
        // tanh-limited feedback from the recurrence state
        let fb = feedback_amount.times(soft_clip(zr));
        proof {
            lemma_fx_mul_bound(feedback_amount.v as int, soft_clip_spec(zr.v as int),
                FEEDBACK_SCALE as int, SCALE as int);
        }
        let with_fb = Fx { v: mixed.v + fb.v };
        // fast attack, smoothed release
        let release = self.release_smoothing;
        let smoothed = if with_fb.abs_val().v > self.prev_output.abs_val().v {
            with_fb
        } else {
            let a = with_fb.times(Fx { v: SCALE - release.v });
            let b = self.prev_output.times(release);
            proof {
                lemma_fx_mul_unit(with_fb.v as int, (SCALE - release.v) as int);
                lemma_fx_mul_unit(self.prev_output.v as int, release.v as int);
            }
            Fx { v: a.v + b.v }
        };
        // the final saturator
        let limited = soft_clip(smoothed);
        self.z_real = zr;
        self.z_imag = zi;
        let wrap: u64 = COUNTER_WRAP_SECS * (self.sample_rate as u64);
        self.sample_counter = (self.sample_counter + 1) % wrap;
        self.prev_output = limited;
        proof {
            vstd::arithmetic::div_mod::lemma_mod_division_less_than_divisor(
                (old(self).sample_counter + 1) as int,
                wrap as int,
            );
            assert(zr.v as int == fractal_z_spec(*old(self), sample.v as int).0);
            assert(zi.v as int == fractal_z_spec(*old(self), sample.v as int).1);
            assert(limited.v as int == fractal_out_spec(*old(self), sample.v as int));
        }
        limited
    }

    /// Push the samples of one row from index `j` on through the stage, the
    /// state threading from one sample to the next.
    fn process_row_rec(&mut self, row: &mut Vec<Fx>, j: usize)
        requires
            old(self).wf(),
            j <= old(row)@.len(),
            forall|l: int| j <= l < old(row)@.len() ==> fx_abs(old(row)@[l].v as int) <= IN_LIM,
        ensures
            final(self).wf(),
            final(row)@.len() == old(row)@.len(),
            forall|l: int| 0 <= l < j ==> final(row)@[l] == old(row)@[l],
            *final(self) == fractal_row_run(*old(self), old(row)@.skip(j as int)).0,
            forall|l: int|
                j <= l < old(row)@.len() ==> final(row)@[l].v == fractal_row_run(
                    *old(self),
                    old(row)@.skip(j as int),
                ).1[l - j],
        decreases old(row)@.len() - j,
    {
        if j == row.len() {
            return ;
        }
        let s0 = row[j];
        let y = self.process(s0);
        row[j] = y;
        proof {
            let whole = old(row)@.skip(j as int);
            assert(whole[0] == old(row)@[j as int]);
            assert(whole.drop_first() =~= old(row)@.skip(j as int + 1));
            assert(row@.skip(j as int + 1) =~= old(row)@.skip(j as int + 1));
        }
        let ghost mid = row@;
        self.process_row_rec(row, j + 1);
        proof {
            let whole = old(row)@.skip(j as int);
            let res = fractal_row_run(*old(self), whole);
            let rest = fractal_row_run(
                fractal_step_state(*old(self), s0.v as int),
                mid.skip(j as int + 1),
            );
            assert(mid.skip(j as int + 1) =~= whole.drop_first());
            lemma_fractal_row_run_len(*old(self), whole);
            lemma_fractal_row_run_len(
                fractal_step_state(*old(self), s0.v as int),
                mid.skip(j as int + 1),
            );
            assert(res.0 == rest.0 && res.1 == seq![y.v as int] + rest.1);
            assert(res.1[0] == y.v as int);
            assert(final(row)@[j as int] == y);
            assert forall|l: int| j < l < old(row)@.len() implies final(row)@[l].v == res.1[l
                - j] by {
                assert(final(row)@[l].v == rest.1[l - (j + 1)]);
                assert(res.1[l - j] == rest.1[l - j - 1]);
            }
        }
    }

    /// Push a whole buffer through the stage in place: one inner vector per
    /// frame, one sample per channel, the state threading through every
    /// sample of every frame in order.
    #[verifier::rlimit(100)]
    #[verifier::spinoff_prover]
    pub fn process_buffer(&mut self, frames: &mut Vec<Vec<Fx>>)
        requires
            old(self).wf(),
            forall|i: int, l: int|
                0 <= i < old(frames)@.len() && 0 <= l < old(frames)@[i]@.len() ==> fx_abs(
                    old(frames)@[i]@[l].v as int,
                ) <= IN_LIM,
        ensures
            final(self).wf(),
            *final(self) == fractal_buffer_run(*old(self), old(frames)@).0,
            final(frames)@.len() == old(frames)@.len(),
            forall|i: int|
                0 <= i < old(frames)@.len()
                    ==> final(frames)@[i]@.len() == old(frames)@[i]@.len(),
            forall|i: int, l: int|
                0 <= i < old(frames)@.len() && 0 <= l < old(frames)@[i]@.len()
                    ==> final(frames)@[i]@[l].v == fractal_buffer_run(
                        *old(self), old(frames)@).1[i][l],
    {
        let ghost full = fractal_buffer_run(*old(self), old(frames)@);
        let n = frames.len();
        let mut i: usize = 0;
        proof {
            assert(old(frames)@.skip(0) =~= old(frames)@);
        }
        while i < n
            invariant
                i <= n,
                n == frames@.len(),
                frames@.len() == old(frames)@.len(),
                self.wf(),
                full == fractal_buffer_run(*old(self), old(frames)@),
                forall|k: int, l: int|
                    0 <= k < old(frames)@.len() && 0 <= l < old(frames)@[k]@.len() ==> fx_abs(
                        old(frames)@[k]@[l].v as int,
                    ) <= IN_LIM,
                forall|k: int| i <= k < n ==> frames@[k] == old(frames)@[k],
                forall|k: int| 0 <= k < i ==> frames@[k]@.len() == old(frames)@[k]@.len(),
                forall|k: int, l: int|
                    0 <= k < i && 0 <= l < frames@[k]@.len() ==> frames@[k]@[l].v
                        == full.1[k][l],
                fractal_buffer_run(*self, old(frames)@.skip(i as int)) == (
                    full.0,
                    full.1.skip(i as int),
                ),
            decreases n - i,
        {
            let ghost entry = *self;
            let ghost row_entry = frames@[i as int]@;
            self.process_row_rec(&mut frames[i], 0);
            proof {
                lemma_fractal_buffer_run_len(*old(self), old(frames)@);
                let suffix = old(frames)@.skip(i as int);
                assert(suffix[0] == old(frames)@[i as int]);
                assert(row_entry == old(frames)@[i as int]@);
                assert(row_entry.skip(0) =~= row_entry);
                let first = fractal_row_run(entry, row_entry);
                lemma_fractal_row_run_len(entry, row_entry);
                let rest = fractal_buffer_run(first.0, suffix.drop_first());
                assert(fractal_buffer_run(entry, suffix) == (rest.0, seq![first.1] + rest.1));
                assert((seq![first.1] + rest.1)[0] == first.1);
                assert(full.1.skip(i as int)[0] == full.1[i as int]);
                assert(first.1 == full.1[i as int]);
                assert(suffix.drop_first() =~= old(frames)@.skip(i as int + 1));
                lemma_fractal_buffer_run_len(entry, suffix);
                lemma_fractal_buffer_run_len(first.0, suffix.drop_first());
                assert(rest.1 =~= full.1.skip(i as int).drop_first());
                assert(full.1.skip(i as int).drop_first() =~= full.1.skip(i as int + 1));
                assert(fractal_buffer_run(*self, old(frames)@.skip(i as int + 1)) == (
                    full.0,
                    full.1.skip(i as int + 1),
                ));
            }
            i = i + 1;
        }
        proof {
            assert(old(frames)@.skip(n as int) =~= Seq::<Vec<Fx>>::empty());
            assert(full.1.skip(n as int) =~= Seq::<Seq<int>>::empty());
        }
    }
}

} // verus!
