//! Signed Q16.16 fixed-point samples.
//!
//! A signal value or parameter is stored as an `i64` holding `value * SCALE`.
//! All arithmetic used by the effect stages is built from the operations
//! here; each operation states its exact result over the raw representation,
//! and the magnitude lemmas below are what the stages use to show that no
//! intermediate value overflows.

use vstd::prelude::*;

verus! {

/// The fixed-point unit: the raw representation of 1.0.
pub const SCALE: i64 = 65536;

/// Magnitude cap for the operands of `times` and `divide`: the product of two
/// raw values of magnitude at most `FX_LIM` stays below 2^62, so it cannot
/// overflow an `i64`.
pub const FX_LIM: i64 = 2147483648;

/// A fixed-point sample: `v` is the value scaled by [`SCALE`].
#[derive(Clone, Copy, Debug, PartialEq, Eq, Structural)]
pub struct Fx {
    pub v: i64,
}

/// Magnitude of a mathematical integer.
pub open spec fn fx_abs(x: int) -> int {
    if x >= 0 {
        x
    } else {
        -x
    }
}

/// Division truncating toward zero, as the machine division does.
pub open spec fn div_trunc(a: int, b: int) -> int {
    if a >= 0 {
        a / b
    } else {
        -((-a) / b)
    }
}

/// The raw value of a fixed-point product.
pub open spec fn fx_mul(a: int, b: int) -> int {
    div_trunc(a * b, SCALE as int)
}

/// The raw value of a fixed-point quotient.
pub open spec fn fx_div(a: int, b: int) -> int {
    div_trunc(a * (SCALE as int), b)
}

/// The magnitude of a product is the product of the magnitudes.
pub proof fn lemma_abs_mul(a: int, b: int)
    ensures
        fx_abs(a * b) == fx_abs(a) * fx_abs(b),
{
    assert(fx_abs(a * b) == fx_abs(a) * fx_abs(b)) by (nonlinear_arith);
}

/// Truncating division brings the magnitude down to the euclidean quotient of
/// the magnitudes and keeps the sign of the dividend.
pub proof fn lemma_div_trunc_abs(p: int, d: int)
    requires
        d >= 1,
    ensures
        fx_abs(div_trunc(p, d)) == fx_abs(p) / d,
        p >= 0 ==> div_trunc(p, d) >= 0,
        p <= 0 ==> div_trunc(p, d) <= 0,
{
    if p >= 0 {
        assert(p / d >= 0) by (nonlinear_arith)
            requires
                p >= 0,
                d >= 1,
        ;
    } else {
        assert((-p) / d >= 0) by (nonlinear_arith)
            requires
                -p >= 0,
                d >= 1,
        ;
    }
}

/// Euclidean division of non-negative values is monotone in the dividend.
pub proof fn lemma_div_ordered(x: int, y: int, d: int)
    requires
        0 <= x <= y,
        d >= 1,
    ensures
        x / d <= y / d,
{
    assert(x / d <= y / d) by (nonlinear_arith)
        requires
            0 <= x <= y,
            d >= 1,
    ;
}

/// Bounds on the operands of a fixed-point product bound its result.
pub proof fn lemma_fx_mul_bound(a: int, b: int, aa: int, bb: int)
    requires
        fx_abs(a) <= aa,
        fx_abs(b) <= bb,
    ensures
        fx_abs(fx_mul(a, b)) <= (aa * bb) / (SCALE as int),
        fx_abs(fx_mul(a, b)) <= aa * bb,
{
    lemma_abs_mul(a, b);
    assert(fx_abs(a) * fx_abs(b) <= aa * bb) by (nonlinear_arith)
        requires
            0 <= fx_abs(a) <= aa,
            0 <= fx_abs(b) <= bb,
    ;
    lemma_div_trunc_abs(a * b, SCALE as int);
    lemma_div_ordered(fx_abs(a * b), aa * bb, SCALE as int);
    assert((aa * bb) / (SCALE as int) <= aa * bb) by (nonlinear_arith)
        requires
            aa * bb >= 0,
    ;
}

/// Multiplying by a unit-range factor does not raise the magnitude: the
/// fixed-point product of `a` with a factor of magnitude at most 1.0 stays
/// within the magnitude of `a`.
pub proof fn lemma_fx_mul_unit(a: int, b: int)
    requires
        fx_abs(b) <= SCALE,
    ensures
        fx_abs(fx_mul(a, b)) <= fx_abs(a),
{
    lemma_fx_mul_bound(a, b, fx_abs(a), SCALE as int);
    assert((fx_abs(a) * (SCALE as int)) / (SCALE as int) == fx_abs(a)) by (nonlinear_arith);
}

/// Multiplying by the unit itself is exact.
pub proof fn lemma_fx_mul_one(a: int)
    ensures
        fx_mul(a, SCALE as int) == a,
{
    if a >= 0 {
        assert((a * (SCALE as int)) / (SCALE as int) == a) by (nonlinear_arith);
    } else {
        assert(a * (SCALE as int) < 0) by (nonlinear_arith)
            requires
                a < 0,
        ;
        assert(-(a * (SCALE as int)) == (-a) * (SCALE as int)) by (nonlinear_arith);
        assert(((-a) * (SCALE as int)) / (SCALE as int) == -a) by (nonlinear_arith);
    }
}

/// Multiplying by zero gives zero.
pub proof fn lemma_fx_mul_zero(a: int)
    ensures
        fx_mul(a, 0) == 0,
        fx_mul(0, a) == 0,
{
    assert(a * 0 == 0) by (nonlinear_arith);
    assert(0 * a == 0) by (nonlinear_arith);
}

impl Fx {
    /// The zero sample.
    pub fn zero() -> (r: Fx)
        ensures
            r.v == 0,
    {
        Fx { v: 0 }
    }

    /// A whole-number sample.
    pub fn from_int(i: i64) -> (r: Fx)
        requires
            -32768 <= i <= 32768,
        ensures
            r.v == i * SCALE,
    {
        Fx { v: i * SCALE }
    }

    /// Fixed-point multiplication, truncating toward zero.
    pub fn times(self, other: Fx) -> (r: Fx)
        requires
            fx_abs(self.v as int) <= FX_LIM,
            fx_abs(other.v as int) <= FX_LIM,
        ensures
            r.v == fx_mul(self.v as int, other.v as int),
    {
        let a = self.v;
        let b = other.v;
        let an: i64 = if a < 0 {
            -a
        } else {
            a
        };
        let bn: i64 = if b < 0 {
            -b
        } else {
            b
        };
        proof {
            assert(an * bn <= FX_LIM * FX_LIM) by (nonlinear_arith)
                requires
                    0 <= an <= FX_LIM,
                    0 <= bn <= FX_LIM,
            ;
            lemma_abs_mul(a as int, b as int);
        }
        let p: i64 = an * bn;
        let q: i64 = p / SCALE;
        proof {
            lemma_div_trunc_abs((a as int) * (b as int), SCALE as int);
            lemma_div_ordered(p as int, FX_LIM * FX_LIM, SCALE as int);
        }
        if (a < 0) != (b < 0) {
            proof {
                assert((a as int) * (b as int) <= 0) by (nonlinear_arith)
                    requires
                        a < 0 && b >= 0 || a >= 0 && b < 0,
                ;
            }
            Fx { v: -q }
        } else {
            proof {
                assert((a as int) * (b as int) >= 0) by (nonlinear_arith)
                    requires
                        a < 0 && b < 0 || a >= 0 && b >= 0,
                ;
            }
            Fx { v: q }
        }
    }

    /// Fixed-point division, truncating toward zero. The divisor must be a
    /// positive raw value.
    pub fn divide(self, other: Fx) -> (r: Fx)
        requires
            fx_abs(self.v as int) <= FX_LIM,
            1 <= other.v,
        ensures
            r.v == fx_div(self.v as int, other.v as int),
    {
        let a = self.v;
        let d = other.v;
        let an: i64 = if a < 0 {
            -a
        } else {
            a
        };
        proof {
            assert(an * (SCALE as int) <= FX_LIM * (SCALE as int)) by (nonlinear_arith)
                requires
                    0 <= an <= FX_LIM,
            ;
            lemma_abs_mul(a as int, SCALE as int);
        }
        let p: i64 = an * SCALE;
        let q: i64 = p / d;
        proof {
            lemma_div_trunc_abs((a as int) * (SCALE as int), d as int);
            lemma_div_ordered(p as int, FX_LIM * (SCALE as int), d as int);
            assert((FX_LIM * (SCALE as int)) / (d as int) <= FX_LIM * (SCALE as int)) by (nonlinear_arith)
                requires
                    1 <= d,
            ;
        }
        if a < 0 {
            proof {
                assert((a as int) * (SCALE as int) <= 0) by (nonlinear_arith)
                    requires
                        a < 0,
                ;
            }
            Fx { v: -q }
        } else {
            proof {
                assert((a as int) * (SCALE as int) >= 0) by (nonlinear_arith)
                    requires
                        a >= 0,
                ;
            }
            Fx { v: q }
        }
    }

    /// Division of the raw value by a positive whole number, truncating
    /// toward zero.
    pub fn div_int(self, k: i64) -> (r: Fx)
        requires
            k >= 1,
            self.v > i64::MIN,
        ensures
            r.v == div_trunc(self.v as int, k as int),
            fx_abs(r.v as int) <= fx_abs(self.v as int),
    {
        proof {
            lemma_div_trunc_abs(self.v as int, k as int);
            assert(fx_abs(self.v as int) / (k as int) <= fx_abs(self.v as int))
                by (nonlinear_arith)
                requires
                    fx_abs(self.v as int) >= 0,
                    k >= 1,
            ;
        }
        if self.v < 0 {
            Fx { v: -((-self.v) / k) }
        } else {
            Fx { v: self.v / k }
        }
    }

    /// Magnitude of a sample.
    pub fn abs_val(self) -> (r: Fx)
        requires
            self.v > i64::MIN,
        ensures
            r.v == fx_abs(self.v as int),
    {
        if self.v < 0 {
            Fx { v: -self.v }
        } else {
            Fx { v: self.v }
        }
    }

    /// Halving, truncating toward zero.
    pub fn half(self) -> (r: Fx)
        requires
            self.v > i64::MIN,
        ensures
            r.v == div_trunc(self.v as int, 2),
            fx_abs(r.v as int) <= fx_abs(self.v as int),
    {
        proof {
            lemma_div_trunc_abs(self.v as int, 2);
            lemma_div_ordered(fx_abs(self.v as int), fx_abs(self.v as int), 2);
            assert(fx_abs(self.v as int) / 2 <= fx_abs(self.v as int)) by (nonlinear_arith)
                requires
                    fx_abs(self.v as int) >= 0,
            ;
        }
        if self.v < 0 {
            Fx { v: -((-self.v) / 2) }
        } else {
            Fx { v: self.v / 2 }
        }
    }

    /// Clamp the raw value into `[lo, hi]`.
    pub fn clamp_to(self, lo: i64, hi: i64) -> (r: Fx)
        requires
            lo <= hi,
        ensures
            r.v == if self.v < lo {
                lo
            } else if self.v > hi {
                hi
            } else {
                self.v
            },
            lo <= r.v <= hi,
    {
        if self.v < lo {
            Fx { v: lo }
        } else if self.v > hi {
            Fx { v: hi }
        } else {
            self
        }
    }
}

} // verus!
