//! Decimal fixed-point scalar arithmetic.
//!
//! Every quantity in the engine (time, position, velocity, mass) is a real
//! number held as a signed count of `10^-12` units. All operations are
//! total functions with exactly specified results: sums and products
//! saturate at the `i64` range, division by zero yields zero, and the
//! square root of a non-positive value yields zero. Saturation stands in
//! for the unbounded growth that a blown-up computation would otherwise
//! produce; no operation panics.

use vstd::prelude::*;

verus! {

/// Number of raw units in one: values carry twelve decimal fraction digits.
pub const SCALE: i64 = 1_000_000_000_000;

/// A real number as a signed count of `10^-12` units.
#[derive(Clone, Copy, Debug, PartialEq, Eq, Structural)]
pub struct Fx {
    pub raw: i64,
}

/// Clamp a mathematical integer into the `i64` range.
pub open spec fn sat64(v: int) -> int {
    if v > i64::MAX {
        i64::MAX as int
    } else if v < i64::MIN {
        i64::MIN as int
    } else {
        v
    }
}

/// Magnitude of a mathematical integer.
pub open spec fn mag(v: int) -> int {
    if v < 0 {
        -v
    } else {
        v
    }
}

/// Saturating sum: `a + b` clamped into the `i64` range.
pub open spec fn fx_add_spec(a: Fx, b: Fx) -> Fx {
    Fx { raw: sat64(a.raw + b.raw) as i64 }
}

/// Saturating difference: `a - b` clamped into the `i64` range.
pub open spec fn fx_sub_spec(a: Fx, b: Fx) -> Fx {
    Fx { raw: sat64(a.raw - b.raw) as i64 }
}

/// Saturating negation (`-i64::MIN` clamps to `i64::MAX`).
pub open spec fn fx_neg_spec(a: Fx) -> Fx {
    Fx { raw: sat64(-(a.raw as int)) as i64 }
}

/// Saturating product: magnitudes are multiplied exactly, scaled down by
/// `SCALE` with truncation toward zero, then the sign is applied and the
/// result clamped into the `i64` range.
pub open spec fn fx_mul_spec(a: Fx, b: Fx) -> Fx {
    let m = mag(a.raw as int) * mag(b.raw as int) / (SCALE as int);
    let s = if (a.raw < 0) != (b.raw < 0) {
        -m
    } else {
        m
    };
    Fx { raw: sat64(s) as i64 }
}

/// Saturating quotient: `a * SCALE / b` on magnitudes, truncated toward
/// zero, with the sign applied afterwards. Division by zero yields zero.
pub open spec fn fx_div_spec(a: Fx, b: Fx) -> Fx {
    if b.raw == 0 {
        Fx { raw: 0 }
    } else {
        let m = mag(a.raw as int) * (SCALE as int) / mag(b.raw as int);
        let s = if (a.raw < 0) != (b.raw < 0) {
            -m
        } else {
            m
        };
        Fx { raw: sat64(s) as i64 }
    }
}

/// Integer square root, rounded down: the unique `r` with
/// `r * r <= n < (r + 1) * (r + 1)`.
pub open spec fn sqrt_floor(n: nat) -> nat
    decreases n,
{
    if n == 0 {
        0
    } else {
        let r = sqrt_floor((n - 1) as nat);
        if (r + 1) * (r + 1) <= n {
            r + 1
        } else {
            r
        }
    }
}

/// Square root of a fixed-point value: `sqrt(a * SCALE)` on raw units, so
/// the result is again in `10^-12` units, rounded down. Non-positive
/// arguments yield zero.
pub open spec fn fx_sqrt_spec(a: Fx) -> Fx {
    if a.raw <= 0 {
        Fx { raw: 0 }
    } else {
        Fx { raw: sqrt_floor((a.raw * SCALE) as nat) as i64 }
    }
}

/// `sqrt_floor` satisfies its characterizing inequalities.
pub proof fn lemma_sqrt_floor_bounds(n: nat)
    ensures
        sqrt_floor(n) * sqrt_floor(n) <= n,
        n < (sqrt_floor(n) + 1) * (sqrt_floor(n) + 1),
    decreases n,
{
    if n == 0 {
        assert(sqrt_floor(n) == 0);
        assert(n < (sqrt_floor(n) + 1) * (sqrt_floor(n) + 1)) by (nonlinear_arith)
            requires
                n == 0,
                sqrt_floor(n) == 0,
        ;
    } else {
        lemma_sqrt_floor_bounds((n - 1) as nat);
        let r = sqrt_floor((n - 1) as nat);
        assert(r * r <= n - 1);
        assert(n - 1 < (r + 1) * (r + 1));
        if (r + 1) * (r + 1) <= n {
            assert(sqrt_floor(n) == r + 1);
            assert(n <= (r + 1) * (r + 1));
            assert((r + 1) * (r + 1) < (r + 2) * (r + 2)) by (nonlinear_arith);
            assert(n < (sqrt_floor(n) + 1) * (sqrt_floor(n) + 1));
        } else {
            assert(sqrt_floor(n) == r);
            assert(sqrt_floor(n) * sqrt_floor(n) <= n);
            assert(n < (sqrt_floor(n) + 1) * (sqrt_floor(n) + 1));
        }
    }
}

/// Any `r` satisfying the characterizing inequalities equals `sqrt_floor`.
pub proof fn lemma_sqrt_floor_unique(n: nat, r: nat)
    requires
        r * r <= n,
        n < (r + 1) * (r + 1),
    ensures
        r == sqrt_floor(n),
{
    lemma_sqrt_floor_bounds(n);
    let s = sqrt_floor(n);
    if r < s {
        assert((r + 1) * (r + 1) <= s * s) by (nonlinear_arith)
            requires
                r + 1 <= s,
        ;
        assert(false);
    }
    if s < r {
        assert((s + 1) * (s + 1) <= r * r) by (nonlinear_arith)
            requires
                s + 1 <= r,
        ;
        assert(false);
    }
}

/// Magnitude of an `i64` as a `u128`.
fn mag_u128(x: i64) -> (r: u128)
    ensures
        r == mag(x as int),
{
    if x >= 0 {
        x as u128
    } else {
        (-(x as i128)) as u128
    }
}

/// Apply a sign to a magnitude and clamp into the `i64` range.
fn sat_from_mag(m: u128, neg: bool) -> (r: Fx)
    ensures
        r.raw == sat64(
            if neg {
                -(m as int)
            } else {
                m as int
            },
        ),
{
    if neg {
        if m >= 9_223_372_036_854_775_808u128 {
            Fx { raw: i64::MIN }
        } else {
            Fx { raw: -(m as i64) }
        }
    } else {
        if m > 9_223_372_036_854_775_807u128 {
            Fx { raw: i64::MAX }
        } else {
            Fx { raw: m as i64 }
        }
    }
}

/// Saturating addition.
pub fn fx_add(a: Fx, b: Fx) -> (r: Fx)
    ensures
        r == fx_add_spec(a, b),
{
    let s: i128 = a.raw as i128 + b.raw as i128;
    if s > i64::MAX as i128 {
        Fx { raw: i64::MAX }
    } else if s < i64::MIN as i128 {
        Fx { raw: i64::MIN }
    } else {
        Fx { raw: s as i64 }
    }
}

/// Saturating subtraction.
pub fn fx_sub(a: Fx, b: Fx) -> (r: Fx)
    ensures
        r == fx_sub_spec(a, b),
{
    let s: i128 = a.raw as i128 - b.raw as i128;
    if s > i64::MAX as i128 {
        Fx { raw: i64::MAX }
    } else if s < i64::MIN as i128 {
        Fx { raw: i64::MIN }
    } else {
        Fx { raw: s as i64 }
    }
}

/// Saturating negation.
pub fn fx_neg(a: Fx) -> (r: Fx)
    ensures
        r == fx_neg_spec(a),
{
    if a.raw == i64::MIN {
        Fx { raw: i64::MAX }
    } else {
        Fx { raw: -a.raw }
    }
}

/// Saturating fixed-point multiplication.
pub fn fx_mul(a: Fx, b: Fx) -> (r: Fx)
    ensures
        r == fx_mul_spec(a, b),
{
    let am = mag_u128(a.raw);
    let bm = mag_u128(b.raw);
    proof {
        assert((am as int) * (bm as int) <= 0x8000_0000_0000_0000 * 0x8000_0000_0000_0000)
            by (nonlinear_arith)
            requires
                am <= 0x8000_0000_0000_0000u128,
                bm <= 0x8000_0000_0000_0000u128,
        ;
    }
    let p = am * bm;
    let q = p / (SCALE as u128);
    sat_from_mag(q, (a.raw < 0) != (b.raw < 0))
}

/// Saturating fixed-point division; division by zero yields zero.
pub fn fx_div(a: Fx, b: Fx) -> (r: Fx)
    ensures
        r == fx_div_spec(a, b),
{
    if b.raw == 0 {
        Fx { raw: 0 }
    } else {
        let am = mag_u128(a.raw);
        let bm = mag_u128(b.raw);
        proof {
            assert((am as int) * (SCALE as int) <= 0x8000_0000_0000_0000 * 1_000_000_000_000)
                by (nonlinear_arith)
                requires
                    am <= 0x8000_0000_0000_0000u128,
            ;
        }
        let p = am * (SCALE as u128);
        let q = p / bm;
        sat_from_mag(q, (a.raw < 0) != (b.raw < 0))
    }
}

/// Integer square root by bisection on `[0, 2^64)`.
fn isqrt_u128(n: u128) -> (r: u128)
    ensures
        r == sqrt_floor(n as nat),
{
    let mut lo: u128 = 0;
    let mut hi: u128 = 0x1_0000_0000_0000_0000u128;
    proof {
        assert((n as int) < (hi as int) * (hi as int)) by (nonlinear_arith)
            requires
                n <= 0xffff_ffff_ffff_ffff_ffff_ffff_ffff_ffffu128,
                hi == 0x1_0000_0000_0000_0000u128,
        ;
    }
    while lo + 1 < hi
        invariant
            lo < hi,
            hi <= 0x1_0000_0000_0000_0000u128,
            (lo as int) * (lo as int) <= n as int,
            (n as int) < (hi as int) * (hi as int),
        decreases hi - lo,
    {
        let mid = lo + (hi - lo) / 2;
        proof {
            assert((mid as int) * (mid as int) <= 0xffff_ffff_ffff_ffff * 0xffff_ffff_ffff_ffff)
                by (nonlinear_arith)
                requires
                    mid <= 0xffff_ffff_ffff_ffffu128,
            ;
        }
        if mid * mid <= n {
            lo = mid;
        } else {
            hi = mid;
        }
    }
    proof {
        lemma_sqrt_floor_unique(n as nat, lo as nat);
    }
    lo
}

/// Fixed-point square root.
pub fn fx_sqrt(a: Fx) -> (r: Fx)
    ensures
        r == fx_sqrt_spec(a),
{
    if a.raw <= 0 {
        Fx { raw: 0 }
    } else {
        proof {
            assert((a.raw as int) * (SCALE as int) <= 0x8000_0000_0000_0000 * 1_000_000_000_000)
                by (nonlinear_arith)
                requires
                    a.raw as int <= 0x8000_0000_0000_0000,
            ;
        }
        let n: u128 = (a.raw as u128) * (SCALE as u128);
        let s = isqrt_u128(n);
        proof {
            lemma_sqrt_floor_bounds(n as nat);
            if s >= 0x10_0000_0000_0000u128 {
                assert(0x10_0000_0000_0000 * 0x10_0000_0000_0000 <= (s as int) * (s as int))
                    by (nonlinear_arith)
                    requires
                        0x10_0000_0000_0000 <= s as int,
                ;
                assert(false);
            }
        }
        Fx { raw: s as i64 }
    }
}

} // verus!
