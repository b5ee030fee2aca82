//! The effect-chain orchestrator.
//!
//! For every frame (one sample per channel) it reads the smoothed parameter
//! values for that frame, rebuilds the waveshaper, the chaotic-iteration
//! stage and the chaotic-oscillator stage from them at the current sample
//! rate, pushes each channel's sample through the four stages in fixed
//! order — waveshaper, chaotic iteration, chaotic oscillator, gain — and
//! accumulates the block's peak output magnitude. After the block the peak
//! is folded into the decaying peak meter.
//!
//! Because the stages are rebuilt from fresh parameter values before every
//! frame, chaotic state persists only within a frame (across its channels),
//! restarting from the stages' initial conditions at each frame boundary.

use vstd::prelude::*;

use crate::fixed::{Fx, SCALE, fx_abs, fx_mul, lemma_fx_mul_bound};
use crate::distortion::{Distortion, distortion_out_spec, DRIVE_MAX, IN_LIM};
use crate::fractal::{FractalMagic, fractal_step_state, fractal_step_out, release_spec};
use crate::chaos::{ChaosAttractor, chaos_step_state, chaos_step_out, dt_spec, COND, SIGMA_BASE,
    RHO_BASE, BETA_BASE};
use crate::gain::{GainProcessor, GAIN_MAX};
use crate::meter::{PeakMeter, meter_next_spec, PEAK_LIM};

verus! {

/// The time it takes the peak meter to decay by 12 dB after switching to
/// complete silence, in milliseconds.
pub const PEAK_METER_DECAY_MS: u32 = 150;

/// The smoothed parameter values in force for one frame.
#[derive(Clone, Copy, Debug, PartialEq, Eq, Structural)]
pub struct FrameParams {
    /// Final linear gain factor.
    pub gain: Fx,
    /// Waveshaper drive.
    pub drive: Fx,
    /// Chaotic-iteration amount.
    pub magic: Fx,
    /// Chaotic-oscillator amount.
    pub chaos: Fx,
}

/// The documented parameter domains: a non-negative bounded gain, a drive up
/// to 50, and amounts in `[0, 1]`.
pub open spec fn params_ok(p: FrameParams) -> bool {
    &&& 0 <= p.gain.v <= GAIN_MAX
    &&& 0 <= p.drive.v <= DRIVE_MAX
    &&& 0 <= p.magic.v <= SCALE
    &&& 0 <= p.chaos.v <= SCALE
}

/// A chaotic-iteration stage rebuilt from a fresh amount at a sample rate:
/// everything dynamic starts at its initial condition.
pub open spec fn fresh_fractal(magic: Fx, rate: u32) -> FractalMagic {
    FractalMagic {
        amount: magic,
        z_real: (Fx { v: 0 }),
        z_imag: (Fx { v: 0 }),
        sample_rate: rate,
        sample_counter: 0,
        release_smoothing: (Fx { v: release_spec(rate as int) as i64 }),
        prev_output: (Fx { v: 0 }),
    }
}

/// A chaotic-oscillator stage rebuilt from a fresh amount at a sample rate.
pub open spec fn fresh_chaos(chaos: Fx, rate: u32) -> ChaosAttractor {
    ChaosAttractor {
        amount: chaos,
        x: (Fx { v: COND }),
        y: (Fx { v: COND }),
        z: (Fx { v: COND }),
        sigma: (Fx { v: SIGMA_BASE }),
        rho: (Fx { v: RHO_BASE }),
        beta: (Fx { v: BETA_BASE }),
        sample_rate: rate,
        dt: (Fx { v: dt_spec(rate as int) as i64 }),
        phase: 0,
        evolution_counter: 0,
    }
}

/// One frame pushed through the chain, channel by channel: each channel's
/// sample runs through the waveshaper, both chaotic stages and the gain, and
/// the chaotic state threads from one channel to the next. Yields the two
/// chaotic stages' final states and the raw output samples.
pub open spec fn frame_spec(
    d: Distortion,
    f: FractalMagic,
    c: ChaosAttractor,
    g: Fx,
    frame: Seq<Fx>,
) -> (FractalMagic, ChaosAttractor, Seq<int>)
    decreases frame.len(),
{
    if frame.len() == 0 {
        (f, c, Seq::empty())
    } else {
        let s1 = distortion_out_spec(d.drive.v as int, frame[0].v as int);
        let s2 = fractal_step_out(f, s1);
        let f1 = fractal_step_state(f, s1);
        let s3 = chaos_step_out(c, s2);
        let c1 = chaos_step_state(c, s2);
        let s4 = fx_mul(s3, g.v as int);
        let rest = frame_spec(d, f1, c1, g, frame.drop_first());
        (rest.0, rest.1, seq![s4] + rest.2)
    }
}

/// A frame's spec output has one sample per channel.
pub proof fn lemma_frame_spec_len(
    d: Distortion,
    f: FractalMagic,
    c: ChaosAttractor,
    g: Fx,
    frame: Seq<Fx>,
)
    ensures
        frame_spec(d, f, c, g, frame).2.len() == frame.len(),
    decreases frame.len(),
{
    if frame.len() > 0 {
        let s1 = distortion_out_spec(d.drive.v as int, frame[0].v as int);
        lemma_frame_spec_len(
            d,
            fractal_step_state(f, s1),
            chaos_step_state(c, fractal_step_out(f, s1)),
            g,
            frame.drop_first(),
        );
    }
}

/// The whole block's output samples: every frame processed by stages
/// rebuilt from that frame's parameters.
pub open spec fn block_spec(rate: u32, rows: Seq<Vec<Fx>>, params: Seq<FrameParams>) -> Seq<
    Seq<int>,
>
    decreases rows.len(),
{
    if rows.len() == 0 {
        Seq::empty()
    } else {
        let p = params[0];
        let fr = frame_spec(
            Distortion { drive: p.drive },
            fresh_fractal(p.magic, rate),
            fresh_chaos(p.chaos, rate),
            p.gain,
            rows[0]@,
        );
        seq![fr.2] + block_spec(rate, rows.drop_first(), params.drop_first())
    }
}

/// The peak magnitude of a row of raw samples.
pub open spec fn row_peak(s: Seq<int>) -> int
    decreases s.len(),
{
    if s.len() == 0 {
        0
    } else {
        let rest = row_peak(s.drop_first());
        if fx_abs(s[0]) > rest {
            fx_abs(s[0])
        } else {
            rest
        }
    }
}

/// The peak magnitude over a block of rows.
pub open spec fn frames_peak(s: Seq<Seq<int>>) -> int
    decreases s.len(),
{
    if s.len() == 0 {
        0
    } else {
        let rest = frames_peak(s.drop_last());
        if row_peak(s.last()) > rest {
            row_peak(s.last())
        } else {
            rest
        }
    }
}

/// The block spec has one output row per input row, and its row `k` is row
/// `k` of the input pushed through stages rebuilt from parameter set `k`.
pub proof fn lemma_block_spec_index(
    rate: u32,
    rows: Seq<Vec<Fx>>,
    params: Seq<FrameParams>,
    k: int,
)
    requires
        rows.len() == params.len(),
        0 <= k < rows.len(),
    ensures
        block_spec(rate, rows, params).len() == rows.len(),
        block_spec(rate, rows, params)[k] == frame_spec(
            Distortion { drive: params[k].drive },
            fresh_fractal(params[k].magic, rate),
            fresh_chaos(params[k].chaos, rate),
            params[k].gain,
            rows[k]@,
        ).2,
    decreases k,
{
    lemma_block_spec_len(rate, rows, params);
    if k > 0 {
        lemma_block_spec_index(rate, rows.drop_first(), params.drop_first(), k - 1);
    }
}

/// The block spec keeps the number of rows.
pub proof fn lemma_block_spec_len(rate: u32, rows: Seq<Vec<Fx>>, params: Seq<FrameParams>)
    requires
        rows.len() == params.len(),
    ensures
        block_spec(rate, rows, params).len() == rows.len(),
    decreases rows.len(),
{
    if rows.len() > 0 {
        lemma_block_spec_len(rate, rows.drop_first(), params.drop_first());
    }
}

/// Boundedness of one frame's outputs: whatever finite samples come in,
/// every output magnitude is at most the frame's gain bound, because each
/// pre-gain stage ends strictly inside the unit range.
pub proof fn lemma_frame_outputs_bounded(
    d: Distortion,
    f: FractalMagic,
    c: ChaosAttractor,
    g: Fx,
    frame: Seq<Fx>,
    gmax: int,
)
    requires
        0 <= g.v <= gmax,
    ensures
        forall|l: int|
            0 <= l < frame_spec(d, f, c, g, frame).2.len() ==> fx_abs(
                frame_spec(d, f, c, g, frame).2[l],
            ) <= gmax,
    decreases frame.len(),
{
    if frame.len() > 0 {
        crate::distortion::lemma_distortion_out_bounds(d.drive.v as int, frame[0].v as int);
        let s1v = distortion_out_spec(d.drive.v as int, frame[0].v as int);
        crate::fractal::lemma_fractal_step_out_bounds(f, s1v);
        let s2v = fractal_step_out(f, s1v);
        crate::chaos::lemma_chaos_step_out_bounds(c, s2v);
        let s3v = chaos_step_out(c, s2v);
        crate::fixed::lemma_fx_mul_bound(s3v, g.v as int, (SCALE - 1) as int, gmax);
        assert(((SCALE - 1) * gmax) / (SCALE as int) <= gmax) by (nonlinear_arith)
            requires
                gmax >= 0,
        ;
        let f1 = fractal_step_state(f, s1v);
        let c1 = chaos_step_state(c, s2v);
        lemma_frame_outputs_bounded(d, f1, c1, g, frame.drop_first(), gmax);
        let whole = frame_spec(d, f, c, g, frame).2;
        let rest = frame_spec(d, f1, c1, g, frame.drop_first()).2;
        assert forall|l: int| 0 <= l < whole.len() implies fx_abs(whole[l]) <= gmax by {
            if l > 0 {
                assert(whole[l] == rest[l - 1]);
            }
        }
    }
}

/// Boundedness of the chain: for every finite input block and parameters in
/// their documented domains with gains at most `gmax`, every output sample's
/// magnitude is at most `gmax`. With a unit gain the chain's output never
/// leaves the unit range.
pub proof fn lemma_block_outputs_bounded(
    rate: u32,
    rows: Seq<Vec<Fx>>,
    params: Seq<FrameParams>,
    gmax: int,
)
    requires
        rows.len() == params.len(),
        forall|k: int| 0 <= k < params.len() ==> 0 <= (#[trigger] params[k]).gain.v <= gmax,
    ensures
        forall|i: int, l: int|
            0 <= i < block_spec(rate, rows, params).len() && 0 <= l < block_spec(
                rate,
                rows,
                params,
            )[i].len() ==> fx_abs(block_spec(rate, rows, params)[i][l]) <= gmax,
    decreases rows.len(),
{
    if rows.len() > 0 {
        let p = params[0];
        lemma_frame_outputs_bounded(
            Distortion { drive: p.drive },
            fresh_fractal(p.magic, rate),
            fresh_chaos(p.chaos, rate),
            p.gain,
            rows[0]@,
            gmax,
        );
        lemma_block_outputs_bounded(rate, rows.drop_first(), params.drop_first(), gmax);
        let whole = block_spec(rate, rows, params);
        let rest = block_spec(rate, rows.drop_first(), params.drop_first());
        assert forall|i: int, l: int|
            0 <= i < whole.len() && 0 <= l < whole[i].len() implies fx_abs(whole[i][l])
            <= gmax by {
            if i > 0 {
                assert(whole[i] == rest[i - 1]);
            }
        }
    }
}

/// The effect chain: the sample rate shared by the rebuilt stages, the
/// stateless gain stage, and the peak meter.
#[derive(Clone, Copy, Debug, PartialEq, Eq, Structural)]
pub struct EffectChain {
    /// Sample rate in Hz, propagated to the chaotic stages each frame.
    pub sample_rate: u32,
    /// The final gain stage.
    pub gain_processor: GainProcessor,
    /// The decaying peak meter fed once per block.
    pub meter: PeakMeter,
}

impl EffectChain {
    /// Validity: an audio sample rate and a valid meter.
    pub open spec fn wf(self) -> bool {
        &&& 1000 <= self.sample_rate <= 1000000
        &&& self.meter.wf()
    }

    /// Build the chain at a sample rate, with the meter at zero and its
    /// decay weight derived from the rate and the standard decay time.
    pub fn new(sample_rate: u32) -> (r: EffectChain)
        requires
            1000 <= sample_rate <= 1000000,
        ensures
            r.wf(),
            r.sample_rate == sample_rate,
            r.meter.level.v == 0,
            r.meter.decay_weight.v == crate::meter::decay_weight_spec(
                sample_rate as int,
                PEAK_METER_DECAY_MS as int,
            ),
    {
        EffectChain {
            sample_rate,
            gain_processor: GainProcessor::new(),
            meter: PeakMeter::new(sample_rate, PEAK_METER_DECAY_MS),
        }
    }

    /// Change the sample rate for the next block: the rebuilt stages will
    /// use it, and the meter's decay weight is re-derived; the meter's level
    /// stays.
    pub fn set_sample_rate(&mut self, sample_rate: u32)
        requires
            old(self).wf(),
            1000 <= sample_rate <= 1000000,
        ensures
            final(self).wf(),
            final(self).sample_rate == sample_rate,
            final(self).meter.level == old(self).meter.level,
            final(self).meter.decay_weight.v == crate::meter::decay_weight_spec(
                sample_rate as int,
                PEAK_METER_DECAY_MS as int,
            ),
    {
        self.sample_rate = sample_rate;
        let fresh = PeakMeter::new(sample_rate, PEAK_METER_DECAY_MS);
        self.meter = PeakMeter { level: self.meter.level, decay_weight: fresh.decay_weight };
    }

    /// The meter's current level, for an external display consumer.
    pub fn peak_meter(&self) -> (r: Fx)
        ensures
            r == self.meter.level,
    {
        self.meter.read()
    }

    /// Push the channels of one frame from index `j` on through the four
    /// stages, writing the outputs in place and returning their peak
    /// magnitude.
    #[verifier::rlimit(100)]
    #[verifier::spinoff_prover]
    fn process_frame_rec(
        d: &Distortion,
        f: &mut FractalMagic,
        c: &mut ChaosAttractor,
        gp: &GainProcessor,
        g: Fx,
        row: &mut Vec<Fx>,
        j: usize,
    ) -> (peak: Fx)
        requires
            d.wf(),
            old(f).wf(),
            old(c).wf(),
            0 <= g.v <= GAIN_MAX,
            j <= old(row)@.len(),
            forall|l: int| j <= l < old(row)@.len() ==> fx_abs(old(row)@[l].v as int) <= IN_LIM,
        ensures
            final(f).wf(),
            final(c).wf(),
            final(row)@.len() == old(row)@.len(),
            forall|l: int| 0 <= l < j ==> final(row)@[l] == old(row)@[l],
            *final(f) == frame_spec(*d, *old(f), *old(c), g, old(row)@.skip(j as int)).0,
            *final(c) == frame_spec(*d, *old(f), *old(c), g, old(row)@.skip(j as int)).1,
            forall|l: int|
                j <= l < old(row)@.len() ==> final(row)@[l].v == frame_spec(
                    *d,
                    *old(f),
                    *old(c),
                    g,
                    old(row)@.skip(j as int),
                ).2[l - j],
            peak.v == row_peak(frame_spec(*d, *old(f), *old(c), g, old(row)@.skip(j as int)).2),
            0 <= peak.v <= GAIN_MAX,
        decreases old(row)@.len() - j,
    {
        if j == row.len() {
            return Fx { v: 0 };
        }
        let s0 = row[j];
        let s1 = d.process(s0);
        let s2 = f.process(s1);
        let s3 = c.process(s2);
        proof {
            assert(fx_abs(s2.v as int) < SCALE);
            assert(fx_abs(s3.v as int) < SCALE);
            lemma_fx_mul_bound(s3.v as int, g.v as int, SCALE as int, GAIN_MAX as int);
        }
        let s4 = gp.process(s3, g);
        row[j] = s4;
        proof {
            let whole = old(row)@.skip(j as int);
            assert(whole[0] == old(row)@[j as int]);
            assert(whole.drop_first() =~= old(row)@.skip(j as int + 1));
            assert(row@.skip(j as int + 1) =~= old(row)@.skip(j as int + 1));
        }
        let ghost mid = row@;
        let rest_peak = Self::process_frame_rec(d, f, c, gp, g, row, j + 1);
        proof {
            let whole = old(row)@.skip(j as int);
            let res = frame_spec(*d, *old(f), *old(c), g, whole);
            let rest = frame_spec(
                *d,
                fractal_step_state(*old(f), s1.v as int),
                chaos_step_state(*old(c), s2.v as int),
                g,
                mid.skip(j as int + 1),
            );
            assert(mid.skip(j as int + 1) =~= whole.drop_first());
            lemma_frame_spec_len(*d, *old(f), *old(c), g, whole);
            lemma_frame_spec_len(
                *d,
                fractal_step_state(*old(f), s1.v as int),
                chaos_step_state(*old(c), s2.v as int),
                g,
                mid.skip(j as int + 1),
            );
            assert(res.0 == rest.0 && res.1 == rest.1 && res.2 == seq![s4.v as int] + rest.2);
            assert(res.2[0] == s4.v as int);
            assert(res.2.drop_first() =~= rest.2);
            assert(final(row)@[j as int] == s4);
            assert forall|l: int| j < l < old(row)@.len() implies final(row)@[l].v == res.2[l
                - j] by {
                assert(final(row)@[l].v == rest.2[l - (j + 1)]);
                assert(res.2[l - j] == rest.2[l - j - 1]);
            }
        }
        if s4.abs_val().v > rest_peak.v {
            s4.abs_val()
        } else {
            rest_peak
        }
    }

    /// Process one block in place: each frame's samples run through stages
    /// rebuilt from that frame's parameters at the current sample rate, and
    /// the block's peak output magnitude is folded into the meter — a jump
    /// to a louder peak, a decay otherwise.
    #[verifier::rlimit(100)]
    #[verifier::spinoff_prover]
    pub fn process_block(&mut self, frames: &mut Vec<Vec<Fx>>, params: &Vec<FrameParams>)
        requires
            old(self).wf(),
            params@.len() == old(frames)@.len(),
            forall|k: int| 0 <= k < params@.len() ==> params_ok(params@[k]),
            forall|i: int, l: int|
                0 <= i < old(frames)@.len() && 0 <= l < old(frames)@[i]@.len() ==> fx_abs(
                    old(frames)@[i]@[l].v as int,
                ) <= IN_LIM,
        ensures
            final(self).wf(),
            final(self).sample_rate == old(self).sample_rate,
            final(self).meter.decay_weight == old(self).meter.decay_weight,
            final(frames)@.len() == old(frames)@.len(),
            forall|i: int|
                0 <= i < old(frames)@.len()
                    ==> final(frames)@[i]@.len() == old(frames)@[i]@.len(),
            forall|i: int, l: int|
                0 <= i < old(frames)@.len() && 0 <= l < old(frames)@[i]@.len()
                    ==> final(frames)@[i]@[l].v == block_spec(
                        old(self).sample_rate, old(frames)@, params@)[i][l],
            final(self).meter.level.v == meter_next_spec(
                old(self).meter.level.v as int,
                old(self).meter.decay_weight.v as int,
                frames_peak(block_spec(old(self).sample_rate, old(frames)@, params@)),
            ),
    {
        let rate = self.sample_rate;
        let gp = self.gain_processor;
        let ghost bspec = block_spec(rate, old(frames)@, params@);
        let n = frames.len();
        let mut cur_peak = Fx { v: 0 };
        let mut i: usize = 0;
        while i < n
            invariant
                i <= n,
                n == frames@.len(),
                frames@.len() == old(frames)@.len(),
                params@.len() == n,
                rate == old(self).sample_rate,
                1000 <= rate <= 1000000,
                *self == *old(self),
                gp == old(self).gain_processor,
                bspec == block_spec(rate, old(frames)@, params@),
                forall|k: int| 0 <= k < params@.len() ==> params_ok(params@[k]),
                forall|k: int, l: int|
                    0 <= k < old(frames)@.len() && 0 <= l < old(frames)@[k]@.len() ==> fx_abs(
                        old(frames)@[k]@[l].v as int,
                    ) <= IN_LIM,
                forall|k: int| i <= k < n ==> frames@[k] == old(frames)@[k],
                forall|k: int| 0 <= k < i ==> frames@[k]@.len() == old(frames)@[k]@.len(),
                forall|k: int, l: int|
                    0 <= k < i && 0 <= l < frames@[k]@.len() ==> frames@[k]@[l].v == bspec[k][l],
                0 <= cur_peak.v <= GAIN_MAX,
                cur_peak.v == frames_peak(bspec.take(i as int)),
            decreases n - i,
        {
            let p = params[i];
            let d = Distortion::new(p.drive);
            let mut fstage = FractalMagic::new(p.magic);
            fstage.set_sample_rate(rate);
            let mut cstage = ChaosAttractor::new(p.chaos);
            cstage.set_sample_rate(rate);
            proof {
                vstd::arithmetic::div_mod::lemma_small_mod(
                    0nat,
                    (crate::fractal::COUNTER_WRAP_SECS * rate) as nat,
                );
                vstd::arithmetic::div_mod::lemma_small_mod(
                    0nat,
                    (crate::chaos::EVOLVE_WRAP_SECS * rate) as nat,
                );
                assert(d == (Distortion { drive: p.drive }));
                assert(fstage == fresh_fractal(p.magic, rate));
                assert(cstage == fresh_chaos(p.chaos, rate));
            }
            let ghost row_entry = frames@[i as int]@;
            let fpeak = Self::process_frame_rec(&d, &mut fstage, &mut cstage, &gp, p.gain,
                &mut frames[i], 0);
            proof {
                lemma_block_spec_index(rate, old(frames)@, params@, i as int);
                assert(row_entry == old(frames)@[i as int]@);
                assert(row_entry.skip(0) =~= row_entry);
                assert(bspec[i as int] == frame_spec(d, fresh_fractal(p.magic, rate),
                    fresh_chaos(p.chaos, rate), p.gain, row_entry).2);
                assert(fpeak.v == row_peak(bspec[i as int]));
                assert(bspec.take(i as int + 1).drop_last() =~= bspec.take(i as int));
                assert(bspec.take(i as int + 1).last() == bspec[i as int]);
            }
            if fpeak.v > cur_peak.v {
                cur_peak = fpeak;
            }
            i = i + 1;
        }
        proof {
            lemma_block_spec_len(rate, old(frames)@, params@);
            assert(bspec.take(n as int) =~= bspec);
        }
        self.meter.update(cur_peak);
    }
}

} // verus!
