//! 4D homogeneous vectors over fixed-point scalars.
//!
//! `w` carries the homogeneous weight: `ONE` for points, a small
//! non-zero marker for direction vectors, and the perspective divisor
//! after projection.

use crate::fixed::{
    bounded, dot4, fdiv, fixed_div, fixed_dot4, fixed_prod_diff, is_sqrt_floor, isqrt_u128,
    lemma_mul_bound, lemma_sqrt_floor, mul_wide, prod_diff, sqrt_floor,
};
use vstd::prelude::*;

verus! {

/// A homogeneous vector; each component is a fixed-point scalar.
#[derive(Clone, Copy, Debug)]
pub struct Vec4 {
    pub x: i64,
    pub y: i64,
    pub z: i64,
    pub w: i64,
}

/// Whether every component of a vector is within [`crate::fixed::COORD_LIMIT`],
/// the range the arithmetic helpers accept.
pub open spec fn vec_bounded(v: Vec4) -> bool {
    bounded(v.x as int) && bounded(v.y as int) && bounded(v.z as int) && bounded(v.w as int)
}

/// The fixed-point dot product of two vectors.
pub open spec fn dot_spec(a: Vec4, b: Vec4) -> int {
    dot4(a.x as int, b.x as int, a.y as int, b.y as int, a.z as int, b.z as int, a.w as int,
        b.w as int)
}

/// The sum of the squares of the components, in raw (unscaled) units;
/// its square root is the fixed-point magnitude of the vector.
pub open spec fn raw_norm_sq(v: Vec4) -> int {
    (v.x as int) * (v.x as int) + (v.y as int) * (v.y as int) + (v.z as int) * (v.z as int) + (
    v.w as int) * (v.w as int)
}

/// The fixed-point magnitude of a vector: the square root of the raw
/// component-square sum, rounded down.
pub open spec fn magnitude_spec(v: Vec4) -> int {
    sqrt_floor(raw_norm_sq(v))
}

/// The componentwise difference of two vectors.
pub open spec fn sub_spec(a: Vec4, b: Vec4) -> Vec4 {
    Vec4 {
        x: ((a.x as int) - (b.x as int)) as i64,
        y: ((a.y as int) - (b.y as int)) as i64,
        z: ((a.z as int) - (b.z as int)) as i64,
        w: ((a.w as int) - (b.w as int)) as i64,
    }
}

/// The 3D cross product of two vectors; `w` is zero.
pub open spec fn cross_spec(a: Vec4, b: Vec4) -> Vec4 {
    Vec4 {
        x: prod_diff(a.y as int, b.z as int, a.z as int, b.y as int) as i64,
        y: prod_diff(a.z as int, b.x as int, a.x as int, b.z as int) as i64,
        z: prod_diff(a.x as int, b.y as int, a.y as int, b.x as int) as i64,
        w: 0,
    }
}

/// The unit vector of `v`: each component divided by the magnitude.
pub open spec fn norm_spec(v: Vec4) -> Vec4 {
    Vec4 {
        x: fdiv(v.x as int, magnitude_spec(v)) as i64,
        y: fdiv(v.y as int, magnitude_spec(v)) as i64,
        z: fdiv(v.z as int, magnitude_spec(v)) as i64,
        w: fdiv(v.w as int, magnitude_spec(v)) as i64,
    }
}

impl Vec4 {
    pub fn new(x: i64, y: i64, z: i64, w: i64) -> (v: Self)
        ensures
            v == (Vec4 { x, y, z, w }),
    {
        Self { x, y, z, w }
    }

    /// The dot product, rescaled by `ONE` and rounded toward zero.
    pub fn dot(self, rhs: Vec4) -> (r: i64)
        requires
            vec_bounded(self),
            vec_bounded(rhs),
        ensures
            r == dot_spec(self, rhs),
    {
        fixed_dot4(self.x, rhs.x, self.y, rhs.y, self.z, rhs.z, self.w, rhs.w)
    }

    /// The 3D cross product; `w` of the result is zero.
    pub fn cross(self, rhs: Vec4) -> (r: Self)
        requires
            vec_bounded(self),
            vec_bounded(rhs),
        ensures
            r == cross_spec(self, rhs),
    {
        Self {
            x: fixed_prod_diff(self.y, rhs.z, self.z, rhs.y),
            y: fixed_prod_diff(self.z, rhs.x, self.x, rhs.z),
            z: fixed_prod_diff(self.x, rhs.y, self.y, rhs.x),
            w: 0,
        }
    }

    /// The squared magnitude: the dot product of the vector with itself.
    pub fn magnitude_squared(self) -> (r: i64)
        requires
            vec_bounded(self),
        ensures
            r == dot_spec(self, self),
    {
        self.dot(self)
    }

    /// The magnitude, exact up to the final rounding-down of the root.
    pub fn magnitude(self) -> (r: i64)
        requires
            vec_bounded(self),
        ensures
            r == magnitude_spec(self),
            0 <= r <= 0x80_0000_0000i64,
    {
        let px = mul_wide(self.x, self.x);
        let py = mul_wide(self.y, self.y);
        let pz = mul_wide(self.z, self.z);
        let pw = mul_wide(self.w, self.w);
        proof {
            let l = crate::fixed::COORD_LIMIT as int;
            lemma_mul_bound(self.x as int, self.x as int, l, l);
            lemma_mul_bound(self.y as int, self.y as int, l, l);
            lemma_mul_bound(self.z as int, self.z as int, l, l);
            lemma_mul_bound(self.w as int, self.w as int, l, l);
            assert(px >= 0 && py >= 0 && pz >= 0 && pw >= 0) by (nonlinear_arith)
                requires
                    px == (self.x as int) * (self.x as int),
                    py == (self.y as int) * (self.y as int),
                    pz == (self.z as int) * (self.z as int),
                    pw == (self.w as int) * (self.w as int),
            {}
        }
        let s = px + py + pz + pw;
        let r = isqrt_u128(s as u128);
        proof {
            let ri = r as int;
            let si = s as int;
            assert(ri <= 0x80_0000_0000) by (nonlinear_arith)
                requires
                    0 <= ri,
                    ri * ri <= si,
                    si <= 0x4000_0000_0000_0000_0000int,
            {}
        }
        r as i64
    }

    /// The unit vector in the direction of `self`: each component divided
    /// by the magnitude. The magnitude must be non-zero.
    pub fn norm(self) -> (r: Self)
        requires
            vec_bounded(self),
            magnitude_spec(self) != 0,
        ensures
            r == norm_spec(self),
            -65536 <= r.x <= 65536,
            -65536 <= r.y <= 65536,
            -65536 <= r.z <= 65536,
            -65536 <= r.w <= 65536,
    {
        let m = self.magnitude();
        proof {
            lemma_norm_component_bounds(self);
        }
        Self {
            x: fixed_div(self.x, m),
            y: fixed_div(self.y, m),
            z: fixed_div(self.z, m),
            w: fixed_div(self.w, m),
        }
    }

    /// Componentwise sum.
    pub fn add(self, rhs: Vec4) -> (r: Self)
        requires
            i64::MIN <= self.x + rhs.x <= i64::MAX,
            i64::MIN <= self.y + rhs.y <= i64::MAX,
            i64::MIN <= self.z + rhs.z <= i64::MAX,
            i64::MIN <= self.w + rhs.w <= i64::MAX,
        ensures
            r.x == self.x + rhs.x,
            r.y == self.y + rhs.y,
            r.z == self.z + rhs.z,
            r.w == self.w + rhs.w,
    {
        Self { x: self.x + rhs.x, y: self.y + rhs.y, z: self.z + rhs.z, w: self.w + rhs.w }
    }

    /// Componentwise difference.
    pub fn sub(self, rhs: Vec4) -> (r: Self)
        requires
            i64::MIN <= self.x - rhs.x <= i64::MAX,
            i64::MIN <= self.y - rhs.y <= i64::MAX,
            i64::MIN <= self.z - rhs.z <= i64::MAX,
            i64::MIN <= self.w - rhs.w <= i64::MAX,
        ensures
            r.x == self.x - rhs.x,
            r.y == self.y - rhs.y,
            r.z == self.z - rhs.z,
            r.w == self.w - rhs.w,
    {
        Self { x: self.x - rhs.x, y: self.y - rhs.y, z: self.z - rhs.z, w: self.w - rhs.w }
    }

    /// Componentwise negation.
    pub fn neg(self) -> (r: Self)
        requires
            self.x != i64::MIN && self.y != i64::MIN && self.z != i64::MIN && self.w != i64::MIN,
        ensures
            r.x == -self.x,
            r.y == -self.y,
            r.z == -self.z,
            r.w == -self.w,
    {
        Self { x: -self.x, y: -self.y, z: -self.z, w: -self.w }
    }

    /// The vector scaled by a fixed-point scalar.
    pub fn scale(self, rhs: i64) -> (r: Self)
        requires
            vec_bounded(self),
            bounded(rhs as int),
        ensures
            r.x == crate::fixed::fmul(self.x as int, rhs as int),
            r.y == crate::fixed::fmul(self.y as int, rhs as int),
            r.z == crate::fixed::fmul(self.z as int, rhs as int),
            r.w == crate::fixed::fmul(self.w as int, rhs as int),
    {
        proof {
            lemma_scale_fits(self, rhs);
        }
        Self {
            x: crate::fixed::fixed_mul(self.x, rhs),
            y: crate::fixed::fixed_mul(self.y, rhs),
            z: crate::fixed::fixed_mul(self.z, rhs),
            w: crate::fixed::fixed_mul(self.w, rhs),
        }
    }

    /// The vector divided by a fixed-point scalar, which must be
    /// non-zero.
    pub fn div(self, rhs: i64) -> (r: Self)
        requires
            rhs != 0,
            i64::MIN <= fdiv(self.x as int, rhs as int) <= i64::MAX,
            i64::MIN <= fdiv(self.y as int, rhs as int) <= i64::MAX,
            i64::MIN <= fdiv(self.z as int, rhs as int) <= i64::MAX,
            i64::MIN <= fdiv(self.w as int, rhs as int) <= i64::MAX,
        ensures
            r.x == fdiv(self.x as int, rhs as int),
            r.y == fdiv(self.y as int, rhs as int),
            r.z == fdiv(self.z as int, rhs as int),
            r.w == fdiv(self.w as int, rhs as int),
    {
        Self {
            x: fixed_div(self.x, rhs),
            y: fixed_div(self.y, rhs),
            z: fixed_div(self.z, rhs),
            w: fixed_div(self.w, rhs),
        }
    }
}

/// Scaling two bounded fixed-point scalars stays within `i64`.
proof fn lemma_scale_fit_one(c: int, t: int)
    requires
        bounded(c),
        bounded(t),
    ensures
        i64::MIN <= crate::fixed::fmul(c, t) <= i64::MAX,
{
    let l = crate::fixed::COORD_LIMIT as int;
    crate::fixed::lemma_mul_bound(c, t, l, l);
    crate::fixed::lemma_tdiv_bound(c * t, 65536, l * l);
}

/// Scaling a bounded vector by a bounded scalar stays within `i64`.
proof fn lemma_scale_fits(v: Vec4, t: i64)
    requires
        vec_bounded(v),
        bounded(t as int),
    ensures
        i64::MIN <= crate::fixed::fmul(v.x as int, t as int) <= i64::MAX,
        i64::MIN <= crate::fixed::fmul(v.y as int, t as int) <= i64::MAX,
        i64::MIN <= crate::fixed::fmul(v.z as int, t as int) <= i64::MAX,
        i64::MIN <= crate::fixed::fmul(v.w as int, t as int) <= i64::MAX,
{
    lemma_scale_fit_one(v.x as int, t as int);
    lemma_scale_fit_one(v.y as int, t as int);
    lemma_scale_fit_one(v.z as int, t as int);
    lemma_scale_fit_one(v.w as int, t as int);
}

/// A component whose square is at most the square sum is bounded by the
/// magnitude, so dividing it by the magnitude stays near `ONE`.
proof fn lemma_norm_component_one(c: int, s: int, m: int)
    requires
        c * c <= s,
        0 < m,
        m * m <= s,
        s < (m + 1) * (m + 1),
    ensures
        -65536 <= fdiv(c, m) <= 65536,
{
    assert(-m <= c <= m) by (nonlinear_arith)
        requires
            c * c <= s,
            0 <= m,
            s < (m + 1) * (m + 1),
    {}
    crate::fixed::lemma_mul_bound(c, 65536, m, 65536);
    crate::fixed::lemma_tdiv_bound(c * 65536, m, m * 65536);
    assert((m * 65536) / m == 65536) by (nonlinear_arith)
        requires
            m > 0,
    {}
}

/// Each component of a vector is bounded by the vector's magnitude, so
/// normalizing never overflows.
proof fn lemma_norm_component_bounds(v: Vec4)
    requires
        vec_bounded(v),
        magnitude_spec(v) != 0,
    ensures
        -65536 <= fdiv(v.x as int, magnitude_spec(v)) <= 65536,
        -65536 <= fdiv(v.y as int, magnitude_spec(v)) <= 65536,
        -65536 <= fdiv(v.z as int, magnitude_spec(v)) <= 65536,
        -65536 <= fdiv(v.w as int, magnitude_spec(v)) <= 65536,
{
    let s = raw_norm_sq(v);
    let m = magnitude_spec(v);
    let cx = v.x as int;
    let cy = v.y as int;
    let cz = v.z as int;
    let cw = v.w as int;
    assert(s >= 0 && cx * cx <= s && cy * cy <= s && cz * cz <= s && cw * cw <= s)
        by (nonlinear_arith)
        requires
            s == cx * cx + cy * cy + cz * cz + cw * cw,
    {}
    crate::fixed::lemma_sqrt_floor_def(s);
    lemma_norm_component_one(cx, s, m);
    lemma_norm_component_one(cy, s, m);
    lemma_norm_component_one(cz, s, m);
    lemma_norm_component_one(cw, s, m);
}

} // verus!
