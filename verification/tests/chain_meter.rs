use ret_gain::fixed::{Fx, SCALE};
use ret_gain::meter::PeakMeter;
use ret_gain::chain::{EffectChain, FrameParams};

fn fx(value: f64) -> Fx {
    Fx { v: (value * SCALE as f64).round() as i64 }
}

fn fixed_mul(a: i64, b: i64) -> i64 {
    let p = a.abs() * b.abs();
    let q = p / SCALE;
    if (a < 0) != (b < 0) {
        -q
    } else {
        q
    }
}

fn flat_params(n: usize, gain: f64, drive: f64, magic: f64, chaos: f64) -> Vec<FrameParams> {
    let p = FrameParams { gain: fx(gain), drive: fx(drive), magic: fx(magic), chaos: fx(chaos) };
    vec![p; n]
}

#[test]
fn meter_decay_weight_formula() {
    // 44100 Hz, 150 ms: ln 4 spread over 6615 samples
    let m = PeakMeter::new(44100, 150);
    assert_eq!(m.decay_weight.v, SCALE - 90852000 / (44100 * 150));
    assert_eq!(m.level.v, 0);
}

#[test]
fn meter_jumps_to_louder_peak() {
    let mut m = PeakMeter::new(44100, 150);
    m.update(fx(0.5));
    assert_eq!(m.read().v, fx(0.5).v);
    m.update(fx(0.8));
    assert_eq!(m.read().v, fx(0.8).v);
}

#[test]
fn meter_decays_geometrically_through_silence() {
    let mut m = PeakMeter::new(44100, 150);
    let w = m.decay_weight.v;
    m.update(fx(0.5));
    let mut expected = fx(0.5).v;
    for _ in 0..40 {
        let before = m.read().v;
        m.update(fx(0.0));
        expected = fixed_mul(expected, w);
        // exactly the starting peak multiplied by the weight once per block
        assert_eq!(m.read().v, expected);
        // and never rising during silence
        assert!(m.read().v <= before);
        assert!(m.read().v >= 0);
    }
}

#[test]
fn chain_all_zero_input_stays_silent() {
    let mut chain = EffectChain::new(44100);
    let mut frames = vec![vec![fx(0.0); 2]; 64];
    let params = flat_params(64, 1.0, 1.0, 0.0, 0.0);
    chain.process_block(&mut frames, &params);
    for row in &frames {
        for s in row {
            assert_eq!(s.v, 0);
        }
    }
    // the meter stays at its floor
    assert_eq!(chain.peak_meter().v, 0);
}

#[test]
fn chain_impulse_block_is_finite_and_metered() {
    let mut chain = EffectChain::new(44100);
    // a single full-scale impulse followed by one second of silence
    let mut frames = vec![vec![fx(0.0)]; 44100];
    frames[0][0] = fx(1.0);
    let params = flat_params(44100, 1.0, 2.0, 0.5, 0.3);
    chain.process_block(&mut frames, &params);
    let impulse_out = frames[0][0].v;
    let mut peak: i64 = 0;
    for row in &frames {
        for s in row {
            // bounded (hence finite) at every index, unit gain
            assert!(s.v.abs() <= SCALE);
            peak = peak.max(s.v.abs());
        }
    }
    // the meter captured at least the processed impulse's magnitude
    assert!(chain.peak_meter().v >= impulse_out.abs());
    assert_eq!(chain.peak_meter().v, peak);
}

#[test]
fn chain_outputs_bounded_in_documented_domains() {
    let mut chain = EffectChain::new(48000);
    let mut frames: Vec<Vec<Fx>> = Vec::new();
    for i in 0..50 {
        let s = ((i as i64) * 27 % 41 - 20) * SCALE / 2;
        frames.push(vec![Fx { v: s }, Fx { v: -s }]);
    }
    let params = flat_params(50, 1.5, 50.0, 1.0, 1.0);
    chain.process_block(&mut frames, &params);
    for row in &frames {
        for s in row {
            // gain 1.5: every output stays within [-1.5, 1.5]
            assert!(s.v.abs() <= 3 * SCALE / 2);
        }
    }
}

#[test]
fn chain_is_deterministic() {
    let build = || {
        let mut frames: Vec<Vec<Fx>> = Vec::new();
        for i in 0..200i64 {
            frames.push(vec![Fx { v: (i * 7919) % (2 * SCALE) - SCALE }]);
        }
        frames
    };
    let params = flat_params(200, 1.0, 3.0, 0.6, 0.4);
    let mut a = EffectChain::new(44100);
    let mut fa = build();
    a.process_block(&mut fa, &params);
    let mut b = EffectChain::new(44100);
    let mut fb = build();
    b.process_block(&mut fb, &params);
    assert_eq!(fa, fb);
    assert_eq!(a.peak_meter().v, b.peak_meter().v);
}

#[test]
fn chain_gain_scales_the_silent_path_meter() {
    // with both chaotic stages bypassed the chain is waveshaper then gain
    let mut chain = EffectChain::new(44100);
    let mut frames = vec![vec![fx(1.0)]];
    let params = flat_params(1, 2.0, 1.0, 0.0, 0.0);
    chain.process_block(&mut frames, &params);
    // soft_clip(1.0) = 0.5, times gain 2.0 = 1.0
    assert_eq!(frames[0][0].v, SCALE);
    assert_eq!(chain.peak_meter().v, SCALE);
}

#[test]
fn chain_sample_rate_change_keeps_meter_level() {
    let mut chain = EffectChain::new(44100);
    let mut frames = vec![vec![fx(0.9)]];
    let params = flat_params(1, 1.0, 1.0, 0.0, 0.0);
    chain.process_block(&mut frames, &params);
    let level = chain.peak_meter().v;
    assert!(level > 0);
    chain.set_sample_rate(96000);
    assert_eq!(chain.peak_meter().v, level);
    assert_eq!(chain.sample_rate, 96000);
}

#[test]
fn meter_weight_clamped_below_one() {
    // the longest window at the highest rate still decays
    let m = PeakMeter::new(1000000, 600000);
    assert_eq!(m.decay_weight.v, SCALE - 1);
    // the shortest window at a low rate floors at zero
    let fast = PeakMeter::new(1000, 1);
    assert_eq!(fast.decay_weight.v, 0);
}

#[test]
fn meter_decay_floors_at_block_peak() {
    // a fully decaying meter (weight 0) still ends at the block's own peak
    let mut m = PeakMeter::new(1000, 1);
    assert_eq!(m.decay_weight.v, 0);
    m.update(fx(1.0));
    assert_eq!(m.read().v, fx(1.0).v);
    m.update(fx(0.75));
    assert_eq!(m.read().v, fx(0.75).v);
    // with a realistic weight the decayed level wins when it is the larger
    let mut slow = PeakMeter::new(44100, 150);
    let w = slow.decay_weight.v;
    slow.update(fx(1.0));
    slow.update(fx(0.25));
    assert_eq!(slow.read().v, fixed_mul(fx(1.0).v, w));
    assert!(slow.read().v >= fx(0.25).v);
}

#[test]
fn meter_never_negative() {
    let mut m = PeakMeter::new(1000, 1);
    m.update(fx(0.25));
    for _ in 0..5 {
        m.update(fx(0.0));
        assert!(m.read().v >= 0);
    }
    assert_eq!(m.read().v, 0);
}
