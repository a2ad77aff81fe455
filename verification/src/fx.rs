//! Saturating fixed-point arithmetic.
//!
//! A quantity is an `i64` holding `SCALE` sub-units per simulation length
//! unit.  Every operation clamps its mathematical result into
//! `[FX_MIN, FX_MAX]`, so the executable functions are total and their
//! contracts pin the result exactly to the spec-level definitions.

use vstd::prelude::*;
use vstd::arithmetic::mul::lemma_mul_inequality;
use vstd::arithmetic::mul::lemma_mul_nonnegative;
use vstd::arithmetic::mul::lemma_mul_unary_negation;
use vstd::arithmetic::mul::lemma_mul_upper_bound;

verus! {

/// Number of fixed-point sub-units per simulation length unit.
pub const SCALE: i64 = 1_000_000;

/// Largest representable fixed-point quantity.
pub const FX_MAX: i64 = 1_000_000_000_000_000;

/// Smallest representable fixed-point quantity.
pub const FX_MIN: i64 = -1_000_000_000_000_000;

/// Clamp a mathematical integer into the representable fixed-point range.
pub open spec fn clamp_fx(v: int) -> int {
    if v > FX_MAX as int {
        FX_MAX as int
    } else if v < FX_MIN as int {
        FX_MIN as int
    } else {
        v
    }
}

/// Truncating division (round toward zero) for a positive divisor.
pub open spec fn div_trunc(a: int, b: int) -> int
    recommends
        b > 0,
{
    if a >= 0 {
        a / b
    } else {
        -((-a) / b)
    }
}

/// Saturating fixed-point addition.
pub open spec fn spec_add(a: int, b: int) -> int {
    clamp_fx(a + b)
}

/// Saturating fixed-point subtraction.
pub open spec fn spec_sub(a: int, b: int) -> int {
    clamp_fx(a - b)
}

/// Saturating fixed-point negation.
pub open spec fn spec_neg(a: int) -> int {
    clamp_fx(-a)
}

/// Saturating fixed-point absolute value.
pub open spec fn spec_abs(a: int) -> int {
    clamp_fx(if a < 0 { -a } else { a })
}

/// Saturating fixed-point multiplication: `(a * b) / SCALE`, truncated.
pub open spec fn spec_mul(a: int, b: int) -> int {
    clamp_fx(div_trunc(a * b, SCALE as int))
}

/// Saturating fixed-point division: `(a * SCALE) / b`, truncated.
pub open spec fn spec_div(a: int, b: int) -> int
    recommends
        b > 0,
{
    clamp_fx(div_trunc(a * (SCALE as int), b))
}

/// Floor of the square root of a natural number.
pub open spec fn sqrt_floor(a: nat) -> nat
    decreases a,
{
    if a == 0 {
        0
    } else {
        let s = sqrt_floor((a - 1) as nat);
        if (s + 1) * (s + 1) <= a {
            s + 1
        } else {
            s
        }
    }
}

/// Fixed-point square root: the result again holds `SCALE` sub-units per
/// unit, so it is the integer square root of `a * SCALE`.
pub open spec fn spec_fx_sqrt(a: int) -> int
    recommends
        a >= 0,
{
    sqrt_floor((a * (SCALE as int)) as nat) as int
}

/// `sqrt_floor(a)` is characterized by `r * r <= a < (r + 1) * (r + 1)`.
pub proof fn lemma_sqrt_floor_bounds(a: nat)
    ensures
        (sqrt_floor(a) as int) * (sqrt_floor(a) as int) <= a as int,
        (a as int) < (sqrt_floor(a) as int + 1) * (sqrt_floor(a) as int + 1),
    decreases a,
{
    if a == 0 {
        assert(sqrt_floor(0) == 0);
    } else {
        let s = sqrt_floor((a - 1) as nat);
        lemma_sqrt_floor_bounds((a - 1) as nat);
        let r = sqrt_floor(a) as int;
        let si = s as int;
        if (s + 1) * (s + 1) <= a {
            assert(r == si + 1);
            assert((si + 1) * (si + 1) == (s + 1) * (s + 1));
            assert(a as int - 1 < (si + 1) * (si + 1));
            assert((r + 1) * (r + 1) == (si + 1) * (si + 1) + 2 * (si + 1) + 1)
                by (nonlinear_arith)
                requires
                    r == si + 1,
            ;
            assert((a as int) < (r + 1) * (r + 1));
        } else {
            assert(r == si);
            assert(si * si <= a as int - 1);
            assert((a as int) < (si + 1) * (si + 1));
        }
    }
}

/// No two distinct values satisfy the square-root characterization.
pub proof fn lemma_sqrt_floor_unique(a: nat, r: nat)
    requires
        (r as int) * (r as int) <= a as int,
        (a as int) < (r as int + 1) * (r as int + 1),
    ensures
        r == sqrt_floor(a),
{
    let s = sqrt_floor(a) as int;
    let ri = r as int;
    lemma_sqrt_floor_bounds(a);
    if ri < s {
        lemma_mul_inequality(ri + 1, s, ri + 1);
        assert(s * (ri + 1) <= s * s) by {
            lemma_mul_inequality(ri + 1, s, s);
            vstd::arithmetic::mul::lemma_mul_is_commutative(s, ri + 1);
        }
    }
    if s < ri {
        lemma_mul_inequality(s + 1, ri, s + 1);
        assert(ri * (s + 1) <= ri * ri) by {
            lemma_mul_inequality(s + 1, ri, ri);
            vstd::arithmetic::mul::lemma_mul_is_commutative(ri, s + 1);
        }
    }
}

/// Clamp a wide intermediate into the fixed-point range.
pub fn fx_clamp(v: i128) -> (r: i64)
    ensures
        r as int == clamp_fx(v as int),
{
    if v > FX_MAX as i128 {
        FX_MAX
    } else if v < FX_MIN as i128 {
        FX_MIN
    } else {
        v as i64
    }
}

/// Saturating fixed-point addition.
pub fn fx_add(a: i64, b: i64) -> (r: i64)
    ensures
        r as int == spec_add(a as int, b as int),
{
    fx_clamp(a as i128 + b as i128)
}

/// Saturating fixed-point subtraction.
pub fn fx_sub(a: i64, b: i64) -> (r: i64)
    ensures
        r as int == spec_sub(a as int, b as int),
{
    fx_clamp(a as i128 - b as i128)
}

/// Saturating fixed-point negation.
pub fn fx_neg(a: i64) -> (r: i64)
    ensures
        r as int == spec_neg(a as int),
{
    fx_clamp(-(a as i128))
}

/// Saturating fixed-point absolute value.
pub fn fx_abs(a: i64) -> (r: i64)
    ensures
        r as int == spec_abs(a as int),
{
    if a < 0 {
        fx_clamp(-(a as i128))
    } else {
        fx_clamp(a as i128)
    }
}

/// Magnitude of an `i64`, as the wide unsigned intermediate type.
fn magnitude(a: i64) -> (r: u128)
    ensures
        r as int == if (a as int) < 0 { -(a as int) } else { a as int },
        r <= 0x8000_0000_0000_0000u128,
{
    if a < 0 {
        (-(a as i128)) as u128
    } else {
        a as u128
    }
}

/// The signed quotient `div_trunc(a * b, d)` computed on magnitudes, so that
/// all machine divisions happen on non-negative operands.
fn mul_div_trunc(a: i64, b: i64, d: u128) -> (r: i128)
    requires
        0 < d,
        d <= 0x8000_0000_0000_0000u128,
    ensures
        r == div_trunc((a as int) * (b as int), d as int),
{
    let ma = magnitude(a);
    let mb = magnitude(b);
    proof {
        lemma_mul_upper_bound(ma as int, 0x8000_0000_0000_0000, mb as int, 0x8000_0000_0000_0000);
        lemma_mul_nonnegative(ma as int, mb as int);
    }
    let mag = ma * mb;
    let q = mag / d;
    let neg = (a < 0) != (b < 0);
    proof {
        // Relate the signed product to the product of magnitudes.
        lemma_mul_unary_negation(a as int, b as int);
        lemma_mul_unary_negation(-(a as int), b as int);
        lemma_mul_unary_negation(a as int, -(b as int));
        if neg {
            assert((a as int) * (b as int) == -((ma as int) * (mb as int)));
        } else {
            assert((a as int) * (b as int) == (ma as int) * (mb as int));
        }
        // The quotient of magnitudes fits the signed wide type.
        vstd::arithmetic::div_mod::lemma_div_nonincreasing(mag as int, d as int);
    }
    if neg {
        proof {
            assert(q <= mag);
            assert(mag <= 0x8000_0000_0000_0000u128 * 0x8000_0000_0000_0000u128) by {
                lemma_mul_upper_bound(
                    ma as int,
                    0x8000_0000_0000_0000,
                    mb as int,
                    0x8000_0000_0000_0000,
                );
            }
        }
        -(q as i128)
    } else {
        proof {
            assert(q <= mag);
        }
        q as i128
    }
}

/// Saturating fixed-point multiplication.
pub fn fx_mul(a: i64, b: i64) -> (r: i64)
    ensures
        r as int == spec_mul(a as int, b as int),
{
    let q = mul_div_trunc(a, b, SCALE as u128);
    fx_clamp(q)
}

/// Saturating fixed-point division by a positive divisor.
pub fn fx_div(a: i64, b: i64) -> (r: i64)
    requires
        b > 0,
    ensures
        r as int == spec_div(a as int, b as int),
{
    let q = mul_div_trunc(a, SCALE, b as u128);
    fx_clamp(q)
}

/// Integer square root on the wide intermediate type.
fn isqrt_u128(a: u128) -> (r: u64)
    ensures
        (r as int) * (r as int) <= a as int,
        (a as int) < (r as int + 1) * (r as int + 1),
{
    let mut lo: u128 = 0;
    let mut hi: u128 = 1u128 << 64;
    proof {
        assert((1u128 << 64) == 0x1_0000_0000_0000_0000u128) by (bit_vector);
        assert(0x1_0000_0000_0000_0000 * 0x1_0000_0000_0000_0000 > u128::MAX as int);
    }
    while lo + 1 < hi
        invariant
            lo < hi,
            hi <= 0x1_0000_0000_0000_0000u128,
            (lo as int) * (lo as int) <= a as int,
            (a as int) < (hi as int) * (hi as int),
        decreases hi - lo,
    {
        let mid = lo + (hi - lo) / 2;
        proof {
            assert(mid < 0x1_0000_0000_0000_0000u128);
            lemma_mul_upper_bound(
                mid as int,
                0xffff_ffff_ffff_ffff,
                mid as int,
                0xffff_ffff_ffff_ffff,
            );
            lemma_mul_nonnegative(mid as int, mid as int);
        }
        if mid * mid <= a {
            lo = mid;
        } else {
            hi = mid;
        }
    }
    lo as u64
}

/// Fixed-point square root of a non-negative quantity.
pub fn fx_sqrt(a: i64) -> (r: i64)
    requires
        a >= 0,
    ensures
        r as int == spec_fx_sqrt(a as int),
{
    proof {
        lemma_mul_upper_bound(a as int, 0x7fff_ffff_ffff_ffff, SCALE as int, 1_000_000);
        lemma_mul_nonnegative(a as int, SCALE as int);
    }
    let m = (a as u128) * (SCALE as u128);
    let r = isqrt_u128(m);
    proof {
        lemma_sqrt_floor_unique(m as nat, r as nat);
        // The root fits comfortably in i64: otherwise its square would
        // exceed the largest possible radicand.
        if (r as int) >= 0x7fff_ffff_ffff_ffff {
            lemma_mul_inequality(0x7fff_ffff_ffff_ffff, r as int, r as int);
            lemma_mul_upper_bound(a as int, 0x7fff_ffff_ffff_ffff, SCALE as int, 1_000_000);
            assert(0x7fff_ffff_ffff_ffff * 0x7fff_ffff_ffff_ffff > 0x7fff_ffff_ffff_ffff
                * 1_000_000);
            assert(false);
        }
    }
    r as i64
}

/// The larger of two fixed-point quantities.
pub fn fx_max(a: i64, b: i64) -> (r: i64)
    ensures
        r as int == if a as int >= b as int { a as int } else { b as int },
{
    if a >= b {
        a
    } else {
        b
    }
}

} // verus!
