//! Fixed-point scalar arithmetic.
//!
//! Real-valued quantities (coordinates, matrix entries, depths, angles)
//! are carried as `i64` values scaled by [`ONE`]: a value `v` stands for
//! the real number `v / ONE`. Multiplication and division of such scalars
//! round toward zero, and both have exact contracts in terms of [`tdiv`].

use vstd::arithmetic::div_mod::{lemma_div_nonincreasing, lemma_div_pos_is_pos};
use vstd::prelude::*;

verus! {

/// The fixed-point scale: a stored value `v` stands for `v / ONE`.
pub const ONE: i64 = 65536;

/// The largest magnitude a coordinate-like scalar may have at the
/// interface of the arithmetic helpers: the bound keeps every
/// intermediate product inside `i128` and every rescaled result inside
/// `i64`.
pub const COORD_LIMIT: i64 = 0x40_0000_0000;

/// Whether a scalar is within [`COORD_LIMIT`].
pub open spec fn bounded(v: int) -> bool {
    -COORD_LIMIT <= v <= COORD_LIMIT
}

/// Division rounding toward zero, as Rust's `/` computes it, defined for
/// spec use over mathematical integers (spec `/` alone rounds toward
/// negative infinity). Unspecified when `b == 0`.
pub open spec fn tdiv(a: int, b: int) -> int {
    if a == 0 {
        0
    } else if a > 0 && b > 0 {
        a / b
    } else if a < 0 && b < 0 {
        (a * -1) / (b * -1)
    } else if a < 0 {
        ((a * -1) / b) * -1
    } else {
        (a / (b * -1)) * -1
    }
}

/// The product of two fixed-point scalars: `a * b` rescaled by `ONE`,
/// rounded toward zero.
pub open spec fn fmul(a: int, b: int) -> int {
    tdiv(a * b, ONE as int)
}

/// The quotient of two fixed-point scalars: `a / b` rescaled by `ONE`,
/// rounded toward zero.
pub open spec fn fdiv(a: int, b: int) -> int {
    tdiv(a * (ONE as int), b)
}

/// Rounding toward zero never grows the magnitude of a quotient.
pub proof fn lemma_tdiv_magnitude(a: int, b: int)
    requires
        b != 0,
    ensures
        -vstd::math::abs(a) <= tdiv(a, b) <= vstd::math::abs(a),
        a >= 0 && b > 0 ==> 0 <= tdiv(a, b),
        a <= 0 && b > 0 ==> tdiv(a, b) <= 0,
{
    if a > 0 && b > 0 {
        lemma_div_nonincreasing(a, b);
        lemma_div_pos_is_pos(a, b);
    } else if a < 0 && b < 0 {
        lemma_div_nonincreasing(a * -1, b * -1);
        lemma_div_pos_is_pos(a * -1, b * -1);
    } else if a < 0 {
        lemma_div_nonincreasing(a * -1, b);
        lemma_div_pos_is_pos(a * -1, b);
    } else if a > 0 {
        lemma_div_nonincreasing(a, b * -1);
        lemma_div_pos_is_pos(a, b * -1);
    }
}

/// Bounds on the operands bound their product.
pub proof fn lemma_mul_bound(a: int, b: int, ma: int, mb: int)
    by (nonlinear_arith)
    requires
        -ma <= a <= ma,
        -mb <= b <= mb,
        0 <= ma,
        0 <= mb,
    ensures
        -(ma * mb) <= a * b <= ma * mb,
{
}

/// A bound on the dividend bounds a quotient rounded toward zero.
pub proof fn lemma_tdiv_bound(a: int, b: int, m: int)
    requires
        0 < b,
        -m <= a <= m,
        0 <= m,
    ensures
        -(m / b) <= tdiv(a, b) <= m / b,
{
    if a >= 0 {
        vstd::arithmetic::div_mod::lemma_div_is_ordered(a, m, b);
        vstd::arithmetic::div_mod::lemma_div_pos_is_pos(a, b);
    } else {
        vstd::arithmetic::div_mod::lemma_div_is_ordered(a * -1, m, b);
        vstd::arithmetic::div_mod::lemma_div_pos_is_pos(a * -1, b);
    }
}

/// Truncating division leaves a remainder strictly smaller than the
/// divisor in magnitude.
pub proof fn lemma_tdiv_remainder(x: int, d: int)
    requires
        d != 0,
    ensures
        -vstd::math::abs(d) < x - d * tdiv(x, d) < vstd::math::abs(d),
{
    if x == 0 {
        assert(d * 0 == 0) by (nonlinear_arith);
    } else if x > 0 && d > 0 {
        vstd::arithmetic::div_mod::lemma_fundamental_div_mod(x, d);
    } else if x > 0 {
        let q = x / (d * -1);
        vstd::arithmetic::div_mod::lemma_fundamental_div_mod(x, d * -1);
        vstd::arithmetic::div_mod::lemma_mod_bound(x, d * -1);
        assert(d * (q * -1) == (d * -1) * q) by (nonlinear_arith);
    } else if d > 0 {
        let q = (x * -1) / d;
        vstd::arithmetic::div_mod::lemma_fundamental_div_mod(x * -1, d);
        vstd::arithmetic::div_mod::lemma_mod_bound(x * -1, d);
        assert(d * (q * -1) == -(d * q)) by (nonlinear_arith);
    } else {
        let q = (x * -1) / (d * -1);
        vstd::arithmetic::div_mod::lemma_fundamental_div_mod(x * -1, d * -1);
        vstd::arithmetic::div_mod::lemma_mod_bound(x * -1, d * -1);
        assert(d * q == -((d * -1) * q)) by (nonlinear_arith);
    }
}

/// Whether `r` is the square root of `v`, rounded down.
pub open spec fn is_sqrt_floor(v: int, r: int) -> bool {
    0 <= r && r * r <= v && v < (r + 1) * (r + 1)
}

/// The square root of `v`, rounded down. Meaningful for `v >= 0`:
/// [`lemma_sqrt_floor`] shows that exactly one value satisfies
/// [`is_sqrt_floor`] there.
pub open spec fn sqrt_floor(v: int) -> int {
    choose|r: int| is_sqrt_floor(v, r)
}

proof fn lemma_sqrt_floor_exists(v: int) -> (r: int)
    requires
        0 <= v,
    ensures
        is_sqrt_floor(v, r),
    decreases v,
{
    if v == 0 {
        0
    } else {
        let p = lemma_sqrt_floor_exists(v - 1);
        if (p + 1) * (p + 1) <= v {
            let r = p + 1;
            assert(v == r * r);
            assert((r + 1) * (r + 1) == r * r + 2 * r + 1) by (nonlinear_arith);
            r
        } else {
            p
        }
    }
}

proof fn lemma_sqrt_floor_unique(v: int, r1: int, r2: int)
    requires
        is_sqrt_floor(v, r1),
        is_sqrt_floor(v, r2),
    ensures
        r1 == r2,
{
    if r1 < r2 {
        assert((r1 + 1) * (r1 + 1) <= r2 * r2) by (nonlinear_arith)
            requires
                0 <= r1,
                r1 < r2,
        ;
    }
    if r2 < r1 {
        assert((r2 + 1) * (r2 + 1) <= r1 * r1) by (nonlinear_arith)
            requires
                0 <= r2,
                r2 < r1,
        ;
    }
}

/// `sqrt_floor(v)` is the one value that `is_sqrt_floor` accepts for `v`.
pub proof fn lemma_sqrt_floor(v: int, r: int)
    requires
        0 <= v,
        is_sqrt_floor(v, r),
    ensures
        sqrt_floor(v) == r,
{
    let w = lemma_sqrt_floor_exists(v);
    lemma_sqrt_floor_unique(v, r, w);
    lemma_sqrt_floor_unique(v, r, sqrt_floor(v));
}

/// For a non-negative argument, `sqrt_floor` satisfies `is_sqrt_floor`.
pub proof fn lemma_sqrt_floor_def(v: int)
    requires
        0 <= v,
    ensures
        is_sqrt_floor(v, sqrt_floor(v)),
{
    let w = lemma_sqrt_floor_exists(v);
    lemma_sqrt_floor(v, w);
}

/// The square root of `v`, rounded down, by bisection.
pub fn isqrt_u128(v: u128) -> (r: u128)
    requires
        v <= 0x3fff_ffff_ffff_ffff_ffff_ffff_ffff_ffffu128,
    ensures
        is_sqrt_floor(v as int, r as int),
        r as int == sqrt_floor(v as int),
{
    let mut lo: u128 = 0;
    let mut hi: u128 = 0x8000_0000_0000_0000u128;
    proof {
        assert((hi as int) * (hi as int) > v as int) by (nonlinear_arith)
            requires
                hi == 0x8000_0000_0000_0000u128,
                v <= 0x3fff_ffff_ffff_ffff_ffff_ffff_ffff_ffffu128,
        ;
    }
    while lo + 1 < hi
        invariant
            lo < hi <= 0x8000_0000_0000_0000u128,
            (lo as int) * (lo as int) <= v as int,
            (hi as int) * (hi as int) > v as int,
        decreases hi - lo,
    {
        let mid = lo + (hi - lo) / 2;
        if mid <= v / mid {
            proof {
                let vi = v as int;
                let mi = mid as int;
                vstd::arithmetic::div_mod::lemma_fundamental_div_mod(vi, mi);
                assert(mi * mi <= vi) by (nonlinear_arith)
                    requires
                        0 < mi,
                        mi <= vi / mi,
                        vi == (vi / mi) * mi + (vi % mi),
                        0 <= vi % mi,
                {}
            }
            lo = mid;
        } else {
            proof {
                let vi = v as int;
                let mi = mid as int;
                vstd::arithmetic::div_mod::lemma_fundamental_div_mod(vi, mi);
                assert(mi * mi > vi) by (nonlinear_arith)
                    requires
                        0 < mi,
                        mi > vi / mi,
                        vi == (vi / mi) * mi + (vi % mi),
                        vi % mi < mi,
                {}
            }
            hi = mid;
        }
    }
    proof {
        lemma_sqrt_floor(v as int, lo as int);
    }
    lo
}

/// The full-width product of two `i64` scalars, before any rescaling.
pub fn mul_wide(a: i64, b: i64) -> (p: i128)
    ensures
        p == a * b,
        -0x4000_0000_0000_0000_0000_0000_0000_0000 <= p
            <= 0x4000_0000_0000_0000_0000_0000_0000_0000,
{
    proof {
        assert((a as int) * (b as int) <= 0x4000_0000_0000_0000_0000_0000_0000_0000int
            && (a as int) * (b as int) >= -0x4000_0000_0000_0000_0000_0000_0000_0000int)
            by (nonlinear_arith)
            requires
                -0x8000_0000_0000_0000 <= a as int <= 0x7fff_ffff_ffff_ffff,
                -0x8000_0000_0000_0000 <= b as int <= 0x7fff_ffff_ffff_ffff,
        ;
    }
    (a as i128) * (b as i128)
}

/// Division of `i128` values rounding toward zero, as a checked call so
/// that the contract, not the caller, rules out overflow.
pub fn div_round_to_zero(a: i128, b: i128) -> (q: i128)
    requires
        b != 0,
        a != i128::MIN,
    ensures
        q == tdiv(a as int, b as int),
{
    proof {
        lemma_tdiv_magnitude(a as int, b as int);
    }
    match a.checked_div(b) {
        Some(q) => q,
        None => {
            proof {
                assert(false);
            }
            0
        },
    }
}

/// A four-term fixed-point inner product: the exact sum of the four
/// products, rescaled by `ONE`, rounded toward zero.
pub open spec fn dot4(
    a0: int,
    b0: int,
    a1: int,
    b1: int,
    a2: int,
    b2: int,
    a3: int,
    b3: int,
) -> int {
    tdiv(a0 * b0 + a1 * b1 + a2 * b2 + a3 * b3, ONE as int)
}

/// Computes [`dot4`] exactly, with all intermediates in `i128`.
pub fn fixed_dot4(a0: i64, b0: i64, a1: i64, b1: i64, a2: i64, b2: i64, a3: i64, b3: i64) -> (r:
    i64)
    requires
        bounded(a0 as int) && bounded(b0 as int),
        bounded(a1 as int) && bounded(b1 as int),
        bounded(a2 as int) && bounded(b2 as int),
        bounded(a3 as int) && bounded(b3 as int),
    ensures
        r == dot4(a0 as int, b0 as int, a1 as int, b1 as int, a2 as int, b2 as int, a3 as int,
            b3 as int),
        -0x4000_0000_0000_0000 <= r <= 0x4000_0000_0000_0000,
{
    let p0 = mul_wide(a0, b0);
    let p1 = mul_wide(a1, b1);
    let p2 = mul_wide(a2, b2);
    let p3 = mul_wide(a3, b3);
    proof {
        let l = COORD_LIMIT as int;
        lemma_mul_bound(a0 as int, b0 as int, l, l);
        lemma_mul_bound(a1 as int, b1 as int, l, l);
        lemma_mul_bound(a2 as int, b2 as int, l, l);
        lemma_mul_bound(a3 as int, b3 as int, l, l);
    }
    let s = p0 + p1 + p2 + p3;
    let q = div_round_to_zero(s, ONE as i128);
    proof {
        lemma_tdiv_bound(s as int, ONE as int, 0x4000_0000_0000_0000_0000int);
    }
    q as i64
}

/// A fixed-point two-product difference `(a·b - c·d) / ONE`, rounded
/// toward zero, as the cross product needs it.
pub open spec fn prod_diff(a: int, b: int, c: int, d: int) -> int {
    tdiv(a * b - c * d, ONE as int)
}

/// Computes [`prod_diff`] exactly, with all intermediates in `i128`.
pub fn fixed_prod_diff(a: i64, b: i64, c: i64, d: i64) -> (r: i64)
    requires
        bounded(a as int) && bounded(b as int),
        bounded(c as int) && bounded(d as int),
    ensures
        r == prod_diff(a as int, b as int, c as int, d as int),
        -0x2000_0000_0000_0000 <= r <= 0x2000_0000_0000_0000,
{
    let p0 = mul_wide(a, b);
    let p1 = mul_wide(c, d);
    proof {
        let l = COORD_LIMIT as int;
        lemma_mul_bound(a as int, b as int, l, l);
        lemma_mul_bound(c as int, d as int, l, l);
    }
    let s = p0 - p1;
    let q = div_round_to_zero(s, ONE as i128);
    proof {
        lemma_tdiv_bound(s as int, ONE as int, 0x2000_0000_0000_0000_0000int);
    }
    q as i64
}

/// Fixed-point multiplication: exact product rescaled by `ONE`, rounded
/// toward zero.
pub fn fixed_mul(a: i64, b: i64) -> (r: i64)
    requires
        i64::MIN <= fmul(a as int, b as int) <= i64::MAX,
    ensures
        r == fmul(a as int, b as int),
{
    let p = mul_wide(a, b);
    let q = div_round_to_zero(p, ONE as i128);
    q as i64
}

/// Fixed-point multiplication of two scalars of magnitude at most
/// `ONE`, as sine and cosine values are; the result stays within `ONE`.
pub fn fixed_mul_unit(a: i64, b: i64) -> (r: i64)
    requires
        -65536 <= a <= 65536,
        -65536 <= b <= 65536,
    ensures
        r == fmul(a as int, b as int),
        -65536 <= r <= 65536,
{
    proof {
        lemma_mul_bound(a as int, b as int, 65536, 65536);
        lemma_tdiv_bound((a as int) * (b as int), 65536, 65536int * 65536int);
    }
    fixed_mul(a, b)
}

/// Fixed-point multiplication of a scalar of magnitude at most
/// `2 * ONE` with a [`bounded`] scalar; the result stays within twice
/// [`COORD_LIMIT`].
pub fn fixed_mul_small(a: i64, b: i64) -> (r: i64)
    requires
        -131072 <= a <= 131072,
        bounded(b as int),
    ensures
        r == fmul(a as int, b as int),
        -2 * COORD_LIMIT <= r <= 2 * COORD_LIMIT,
{
    proof {
        lemma_mul_bound(a as int, b as int, 131072, COORD_LIMIT as int);
        lemma_tdiv_bound((a as int) * (b as int), 65536, 131072 * (COORD_LIMIT as int));
    }
    fixed_mul(a, b)
}

/// Fixed-point division: dividend rescaled by `ONE`, then divided,
/// rounded toward zero.
pub fn fixed_div(a: i64, b: i64) -> (r: i64)
    requires
        b != 0,
        i64::MIN <= fdiv(a as int, b as int) <= i64::MAX,
    ensures
        r == fdiv(a as int, b as int),
{
    let p = mul_wide(a, ONE);
    let q = div_round_to_zero(p, b as i128);
    q as i64
}

} // verus!
