//! Bounded waveform primitives shared by the effect stages.
//!
//! `soft_clip` is the saturating limiter applied wherever an unbounded
//! intermediate value must be brought back into the unit range: an odd,
//! monotone sigmoid `x / (1 + |x|)` whose output magnitude is proven to stay
//! strictly below 1.0 for every input.
//!
//! `sine_wave` and `cosine_wave` are the modulation oscillators: periodic
//! piecewise-linear waves of unit amplitude over the fixed-point angle
//! `TAU_FX` (one full turn). The stages rely only on their unit bound and on
//! their values at phase zero, both of which are stated exactly.

use vstd::prelude::*;

use crate::fixed::{Fx, SCALE, FX_LIM, fx_abs, fx_div, lemma_abs_mul, lemma_div_trunc_abs,
    lemma_div_ordered};

verus! {

/// One full turn of the oscillators' angle argument, in Q16.16 radians.
pub const TAU_FX: i64 = 411775;

/// A quarter turn.
pub const QTR_FX: i64 = 102944;

/// Exact value of the saturating limiter on a raw sample.
pub open spec fn soft_clip_spec(x: int) -> int {
    fx_div(x, (SCALE as int) + fx_abs(x))
}

/// Exact value of the unit-amplitude piecewise-linear sine on a raw angle.
pub open spec fn sine_spec(x: int) -> int {
    let p = x % (TAU_FX as int);
    if p < QTR_FX {
        (p * (SCALE as int)) / (QTR_FX as int)
    } else if p < 3 * QTR_FX {
        (SCALE as int) - (((p - QTR_FX) * (SCALE as int)) / (QTR_FX as int))
    } else {
        -(SCALE as int) + (((p - 3 * QTR_FX) * (SCALE as int)) / (QTR_FX as int))
    }
}

/// Exact value of the matching cosine: the sine a quarter turn ahead.
pub open spec fn cosine_spec(x: int) -> int {
    sine_spec(x + QTR_FX)
}

/// A non-negative dividend strictly below `c * d` divides to strictly below
/// `c`.
pub proof fn lemma_div_below(p: int, c: int, d: int)
    requires
        d >= 1,
        0 <= p,
        p < c * d,
    ensures
        p / d < c,
{
    assert(p / d < c) by (nonlinear_arith)
        requires
            d >= 1,
            0 <= p,
            p < c * d,
    ;
}

/// An exact multiple divides back to the factor.
pub proof fn lemma_div_multiple(x: int, d: int)
    requires
        d >= 1,
        x >= 0,
    ensures
        (x * d) / d == x,
{
    assert((x * d) / d == x) by (nonlinear_arith)
        requires
            d >= 1,
            x >= 0,
    ;
}

/// The saturator's value is strictly inside the unit range for every input,
/// never grows the magnitude, and keeps the sign.
pub proof fn lemma_soft_clip_spec_bounds(xi: int)
    ensures
        -SCALE < soft_clip_spec(xi) < SCALE,
        fx_abs(soft_clip_spec(xi)) <= fx_abs(xi),
        xi >= 0 ==> soft_clip_spec(xi) >= 0,
        xi <= 0 ==> soft_clip_spec(xi) <= 0,
        xi == 0 ==> soft_clip_spec(xi) == 0,
{
    let ax = fx_abs(xi);
    let di = (SCALE as int) + ax;
    lemma_abs_mul(xi, SCALE as int);
    lemma_div_trunc_abs(xi * (SCALE as int), di);
    // magnitude of the result is (|x| * SCALE) / (SCALE + |x|)
    assert(fx_abs(soft_clip_spec(xi)) == (ax * (SCALE as int)) / di);
    assert(ax * (SCALE as int) < (SCALE as int) * di) by (nonlinear_arith)
        requires
            ax >= 0,
            di == (SCALE as int) + ax,
    ;
    lemma_div_below(ax * (SCALE as int), SCALE as int, di);
    assert(ax * (SCALE as int) <= ax * di) by (nonlinear_arith)
        requires
            ax >= 0,
            di >= SCALE as int,
    ;
    lemma_div_ordered(ax * (SCALE as int), ax * di, di);
    lemma_div_multiple(ax, di);
    assert(ax * di == di * ax) by (nonlinear_arith);
}

/// The saturating limiter: `x / (1 + |x|)` in fixed point. Odd, sign- and
/// magnitude-reducing, and strictly inside the unit range for every input.
pub fn soft_clip(x: Fx) -> (r: Fx)
    requires
        fx_abs(x.v as int) <= FX_LIM,
    ensures
        r.v == soft_clip_spec(x.v as int),
        -SCALE < r.v < SCALE,
        fx_abs(r.v as int) <= fx_abs(x.v as int),
        x.v >= 0 ==> r.v >= 0,
        x.v <= 0 ==> r.v <= 0,
        x.v == 0 ==> r.v == 0,
{
    let a = x.abs_val();
    let d = Fx { v: SCALE + a.v };
    let r = x.divide(d);
    proof {
        lemma_soft_clip_spec_bounds(x.v as int);
    }
    r
}

/// Reduce a raw angle to `[0, TAU_FX)`: the euclidean remainder.
fn wrap_angle(x: i64) -> (r: i64)
    requires
        fx_abs(x as int) <= FX_LIM,
    ensures
        r == (x as int) % (TAU_FX as int),
        0 <= r < TAU_FX,
{
    proof {
        vstd::arithmetic::div_mod::lemma_mod_division_less_than_divisor(x as int, TAU_FX as int);
    }
    if x >= 0 {
        x % TAU_FX
    } else {
        let n = (-x) % TAU_FX;
        proof {
            let xi = x as int;
            let t = TAU_FX as int;
            vstd::arithmetic::div_mod::lemma_fundamental_div_mod(-xi, t);
            let q = (-xi) / t;
            let rr = (-xi) % t;
            vstd::arithmetic::div_mod::lemma_mod_division_less_than_divisor(-xi, t);
            if rr == 0 {
                vstd::arithmetic::div_mod::lemma_fundamental_div_mod_converse_mod(xi, t, -q, 0);
            } else {
                assert(xi == (-q - 1) * t + (t - rr)) by (nonlinear_arith)
                    requires
                        -xi == q * t + rr,
                        t == TAU_FX as int,
                ;
                vstd::arithmetic::div_mod::lemma_fundamental_div_mod_converse_mod(
                    xi,
                    t,
                    -q - 1,
                    t - rr,
                );
            }
        }
        if n == 0 {
            0
        } else {
            TAU_FX - n
        }
    }
}

/// The unit-amplitude piecewise-linear sine wave, periodic over `TAU_FX`.
pub fn sine_wave(x: Fx) -> (r: Fx)
    requires
        fx_abs(x.v as int) <= FX_LIM,
    ensures
        r.v == sine_spec(x.v as int),
        -SCALE <= r.v <= SCALE,
        x.v == 0 ==> r.v == 0,
{
    let p = wrap_angle(x.v);
    proof {
        if x.v == 0 {
            vstd::arithmetic::div_mod::lemma_small_mod(0nat, TAU_FX as nat);
        }
    }
    if p < QTR_FX {
        let t = (p * SCALE) / QTR_FX;
        proof {
            lemma_div_below(p * (SCALE as int), SCALE as int, QTR_FX as int);
            assert(p * (SCALE as int) < (SCALE as int) * (QTR_FX as int)) by (nonlinear_arith)
                requires
                    0 <= p < QTR_FX as int,
            ;
            vstd::arithmetic::div_mod::lemma_div_pos_is_pos(p * (SCALE as int), QTR_FX as int);
            assert(p * (SCALE as int) >= 0) by (nonlinear_arith)
                requires
                    p >= 0,
            ;
        }
        Fx { v: t }
    } else if p < 3 * QTR_FX {
        let t = ((p - QTR_FX) * SCALE) / QTR_FX;
        proof {
            let u = (p - QTR_FX) as int;
            assert(u * (SCALE as int) < (2 * (SCALE as int)) * (QTR_FX as int)) by (nonlinear_arith)
                requires
                    0 <= u < 2 * (QTR_FX as int),
            ;
            lemma_div_below(u * (SCALE as int), 2 * (SCALE as int), QTR_FX as int);
            assert(u * (SCALE as int) >= 0) by (nonlinear_arith)
                requires
                    u >= 0,
            ;
            vstd::arithmetic::div_mod::lemma_div_pos_is_pos(u * (SCALE as int), QTR_FX as int);
        }
        Fx { v: SCALE - t }
    } else {
        let t = ((p - 3 * QTR_FX) * SCALE) / QTR_FX;
        proof {
            let u = (p - 3 * QTR_FX) as int;
            assert(u * (SCALE as int) < (SCALE as int) * (QTR_FX as int)) by (nonlinear_arith)
                requires
                    0 <= u < QTR_FX as int,
            ;
            lemma_div_below(u * (SCALE as int), SCALE as int, QTR_FX as int);
            assert(u * (SCALE as int) >= 0) by (nonlinear_arith)
                requires
                    u >= 0,
            ;
            vstd::arithmetic::div_mod::lemma_div_pos_is_pos(u * (SCALE as int), QTR_FX as int);
        }
        Fx { v: -SCALE + t }
    }
}

/// The matching cosine wave: the sine a quarter turn ahead. At phase zero it
/// is exactly 1.0.
pub fn cosine_wave(x: Fx) -> (r: Fx)
    requires
        fx_abs(x.v as int) <= FX_LIM - QTR_FX,
    ensures
        r.v == cosine_spec(x.v as int),
        -SCALE <= r.v <= SCALE,
        x.v == 0 ==> r.v == SCALE,
{
    let r = sine_wave(Fx { v: x.v + QTR_FX });
    proof {
        if x.v == 0 {
            vstd::arithmetic::div_mod::lemma_small_mod(QTR_FX as nat, TAU_FX as nat);
            assert((0int * (SCALE as int)) == 0) by (nonlinear_arith);
            vstd::arithmetic::div_mod::lemma_div_of0(QTR_FX as int);
        }
    }
    r
}

} // verus!
