use ret_gain::fixed::{Fx, SCALE};
use ret_gain::wave::{soft_clip, sine_wave, cosine_wave, QTR_FX};
use ret_gain::distortion::Distortion;
use ret_gain::fractal::{FractalMagic, wave_fold, Z_BOUND};
use ret_gain::chaos::{ChaosAttractor, XYZ_BOUND, SIGMA_BASE, SIGMA_DRIFT, RHO_BASE, RHO_DRIFT, BETA_BASE, BETA_DRIFT};
use ret_gain::gain::GainProcessor;

fn fx(value: f64) -> Fx {
    Fx { v: (value * SCALE as f64).round() as i64 }
}

fn fixed_mul(a: i64, b: i64) -> i64 {
    let p = a.abs() * b.abs();
    let q = p / SCALE;
    if (a < 0) != (b < 0) {
        -q
    } else {
        q
    }
}

/// A small deterministic pseudo-random sample sequence in about [-2, 2].
fn test_signal(len: usize) -> Vec<Fx> {
    let mut state: u64 = 0x2545F4914F6CDD1D;
    let mut out = Vec::with_capacity(len);
    for _ in 0..len {
        state = state.wrapping_mul(6364136223846793005).wrapping_add(1442695040888963407);
        let raw = ((state >> 33) as i64 % (4 * SCALE)) - 2 * SCALE;
        out.push(Fx { v: raw });
    }
    out
}

#[test]
fn soft_clip_halves_unity() {
    // 1.0 / (1 + 1.0) = 0.5 exactly
    assert_eq!(soft_clip(fx(1.0)).v, SCALE / 2);
    assert_eq!(soft_clip(fx(-1.0)).v, -SCALE / 2);
    assert_eq!(soft_clip(fx(0.0)).v, 0);
}

#[test]
fn soft_clip_stays_inside_unit_range() {
    for raw in [-655360i64, -65536, -1, 0, 1, 65536, 655360, 33554432] {
        let r = soft_clip(Fx { v: raw });
        assert!(r.v.abs() < SCALE);
        assert!(r.v.abs() <= raw.abs());
        assert_eq!(r.v.signum(), raw.signum() * r.v.abs().signum());
    }
}

#[test]
fn oscillators_hit_their_anchor_points() {
    assert_eq!(sine_wave(fx(0.0)).v, 0);
    assert_eq!(cosine_wave(fx(0.0)).v, SCALE);
    // a quarter turn reaches the positive peak, three quarters the negative
    assert_eq!(sine_wave(Fx { v: QTR_FX }).v, SCALE);
    assert_eq!(sine_wave(Fx { v: 3 * QTR_FX }).v, -SCALE);
    for raw in [-2000000i64, -123456, 0, 98765, 2000000] {
        assert!(sine_wave(Fx { v: raw }).v.abs() <= SCALE);
        assert!(cosine_wave(Fx { v: raw }).v.abs() <= SCALE);
    }
}

#[test]
fn waveshaper_is_transparent_at_zero() {
    // drive 1.0 applied to 0.0 yields exactly 0.0
    let d = Distortion::new(fx(1.0));
    assert_eq!(d.process(fx(0.0)).v, 0);
}

#[test]
fn waveshaper_exact_value() {
    // 0.5 * 2.0 = 1.0 driven, saturated to 0.5
    let d = Distortion::new(fx(2.0));
    assert_eq!(d.process(fx(0.5)).v, SCALE / 2);
}

#[test]
fn waveshaper_bounded_on_hot_input() {
    for drive in [1.0, 2.0, 10.0, 50.0] {
        let d = Distortion::new(fx(drive));
        for s in [-10.0, -1.0, -0.1, 0.0, 0.1, 1.0, 10.0] {
            let r = d.process(fx(s));
            assert!(r.v.abs() < SCALE);
        }
    }
}

#[test]
fn waveshaper_buffer_matches_per_sample() {
    let d = Distortion::new(fx(3.0));
    let signal = test_signal(64);
    let mut frames = vec![signal[..32].to_vec(), signal[32..].to_vec()];
    d.process_buffer(&mut frames);
    for (i, row) in frames.iter().enumerate() {
        for (j, s) in row.iter().enumerate() {
            assert_eq!(s.v, d.process(signal[i * 32 + j]).v);
        }
    }
}

#[test]
fn wave_fold_reflects_at_threshold() {
    // fold 2.5 -> threshold 0.4 (raw 26214); 0.5 folds to 2*0.4 - 0.5
    let folded = wave_fold(fx(0.5), fx(2.5));
    assert_eq!(folded.v, 2 * 26214 - 32768);
    // inside the threshold nothing changes
    assert_eq!(wave_fold(fx(0.3), fx(2.5)).v, fx(0.3).v);
    // the negative side mirrors
    assert_eq!(wave_fold(fx(-0.5), fx(2.5)).v, -(2 * 26214 - 32768));
    // a non-positive fold amount is the identity
    assert_eq!(wave_fold(fx(0.9), fx(0.0)).v, fx(0.9).v);
}

#[test]
fn fractal_bypass_is_bit_exact() {
    let mut f = FractalMagic::new(fx(0.0));
    let before = f;
    for s in [-10.0, -0.5, 0.0, 0.7, 10.0] {
        let r = f.process(fx(s));
        assert_eq!(r, fx(s));
    }
    assert_eq!(f, before);
}

#[test]
fn fractal_threshold_amount_still_bypasses() {
    // 0.001 is at the activation threshold: still an exact pass-through
    let mut f = FractalMagic::new(Fx { v: 65 });
    let r = f.process(fx(3.25));
    assert_eq!(r, fx(3.25));
}

#[test]
fn fractal_output_bounded_on_test_signal() {
    let mut f = FractalMagic::new(fx(1.0));
    for s in test_signal(2000) {
        let r = f.process(s);
        assert!(r.v.abs() < SCALE);
    }
}

#[test]
fn fractal_state_clamp_holds_under_sustained_drive() {
    // constant full-scale input for 10000 samples never pushes |z| past 2.0
    let mut f = FractalMagic::new(fx(1.0));
    for _ in 0..10000 {
        f.process(fx(1.0));
        assert!(f.z_real.v.abs() <= Z_BOUND);
        assert!(f.z_imag.v.abs() <= Z_BOUND);
    }
}

#[test]
fn fractal_is_deterministic() {
    let signal = test_signal(1000);
    let mut a = FractalMagic::new(fx(0.8));
    let mut b = FractalMagic::new(fx(0.8));
    for s in &signal {
        assert_eq!(a.process(*s), b.process(*s));
    }
    assert_eq!(a, b);
}

#[test]
fn fractal_reset_restores_initial_dynamic_state() {
    let mut f = FractalMagic::new(fx(0.9));
    for s in test_signal(100) {
        f.process(s);
    }
    f.reset();
    assert_eq!(f.z_real.v, 0);
    assert_eq!(f.z_imag.v, 0);
    assert_eq!(f.sample_counter, 0);
    assert_eq!(f.prev_output.v, 0);
}

#[test]
fn fractal_release_tracks_sample_rate() {
    let mut f = FractalMagic::new(fx(0.5));
    f.set_sample_rate(44100);
    assert_eq!(f.release_smoothing.v, SCALE - 33);
    f.set_sample_rate(88200);
    assert_eq!(f.release_smoothing.v, SCALE - 16);
}

#[test]
fn fractal_buffer_matches_per_sample() {
    let signal = test_signal(64);
    let mut frames = vec![signal[..32].to_vec(), signal[32..].to_vec()];
    let mut buffered = FractalMagic::new(fx(0.7));
    buffered.process_buffer(&mut frames);
    let mut looped = FractalMagic::new(fx(0.7));
    let mut k = 0;
    for row in &frames {
        for s in row {
            assert_eq!(s.v, looped.process(signal[k]).v);
            k += 1;
        }
    }
    assert_eq!(buffered, looped);
}

#[test]
fn chaos_bypass_is_bit_exact() {
    let mut c = ChaosAttractor::new(fx(0.0));
    let before = c;
    for s in [-10.0, -0.25, 0.0, 1.5, 10.0] {
        let r = c.process(fx(s));
        assert_eq!(r, fx(s));
    }
    assert_eq!(c, before);
}

#[test]
fn chaos_output_bounded_on_test_signal() {
    let mut c = ChaosAttractor::new(fx(1.0));
    for s in test_signal(2000) {
        let r = c.process(s);
        assert!(r.v.abs() < SCALE);
    }
}

#[test]
fn chaos_coordinates_stay_clamped() {
    let mut c = ChaosAttractor::new(fx(1.0));
    for _ in 0..10000 {
        c.process(fx(1.0));
        assert!(c.x.v.abs() <= XYZ_BOUND);
        assert!(c.y.v.abs() <= XYZ_BOUND);
        assert!(c.z.v.abs() <= XYZ_BOUND);
    }
}

#[test]
fn chaos_is_deterministic() {
    let signal = test_signal(1000);
    let mut a = ChaosAttractor::new(fx(0.6));
    let mut b = ChaosAttractor::new(fx(0.6));
    for s in &signal {
        assert_eq!(a.process(*s), b.process(*s));
    }
    assert_eq!(a, b);
}

#[test]
fn chaos_reset_restores_initial_conditions() {
    let mut c = ChaosAttractor::new(fx(0.4));
    for s in test_signal(100) {
        c.process(s);
    }
    c.reset();
    // never exactly the unstable origin: 0.1 in each coordinate
    assert_eq!(c.x.v, 6554);
    assert_eq!(c.y.v, 6554);
    assert_eq!(c.z.v, 6554);
    assert_eq!(c.phase, 0);
    assert_eq!(c.evolution_counter, 0);
}

#[test]
fn chaos_time_step_tracks_sample_rate() {
    let mut c = ChaosAttractor::new(fx(0.4));
    // a fresh stage already carries the normalized step for its default rate
    assert_eq!(c.dt.v, 328);
    c.set_sample_rate(44100);
    assert_eq!(c.dt.v, 328);
    c.set_sample_rate(88200);
    assert_eq!(c.dt.v, 164);
}

#[test]
fn gain_is_exact_multiplication() {
    let g = GainProcessor::new();
    let cases = [(2.0, 3.0), (-1.5, 2.0), (0.0, 10.0), (4.0, 0.0), (-2.0, -2.0), (0.25, 0.5)];
    for (s, k) in cases {
        let r = g.process(fx(s), fx(k));
        assert_eq!(r.v, fixed_mul(fx(s).v, fx(k).v));
    }
    // unit gain is the identity
    for s in test_signal(100) {
        assert_eq!(g.process(s, fx(1.0)).v, s.v);
    }
}

#[test]
fn fractal_counter_wraps_after_one_minute() {
    let mut f = FractalMagic::new(fx(0.5));
    f.set_sample_rate(1000);
    for _ in 0..59999 {
        f.process(fx(0.1));
    }
    assert_eq!(f.sample_counter, 59999);
    f.process(fx(0.1));
    assert_eq!(f.sample_counter, 0);
}

#[test]
fn fractal_rate_change_wraps_counter_into_new_period() {
    let mut f = FractalMagic::new(fx(0.5));
    f.set_sample_rate(2000);
    for _ in 0..100000 {
        f.process(fx(0.1));
    }
    f.set_sample_rate(1000);
    assert!(f.sample_counter < 60000);
}

#[test]
fn chaos_parameters_stay_in_drift_ranges() {
    let mut c = ChaosAttractor::new(fx(1.0));
    for s in test_signal(9000) {
        c.process(s);
        assert!((c.sigma.v - SIGMA_BASE).abs() <= SIGMA_DRIFT);
        assert!((c.rho.v - RHO_BASE).abs() <= RHO_DRIFT);
        assert!((c.beta.v - BETA_BASE).abs() <= BETA_DRIFT);
    }
}
