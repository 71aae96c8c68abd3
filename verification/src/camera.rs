//! The perspective camera: a pose plus field of view, aspect ratio and
//! near/far distances, deriving its view and projection matrices on
//! demand.

use crate::fixed::{
    bounded, div_round_to_zero, fdiv, fixed_div, fmul, lemma_mul_bound, lemma_tdiv_bound,
    lemma_tdiv_magnitude, mul_wide, ONE,
};
use crate::matrices::{view_matrix_spec, Matrix4x4, ModelMatrix};
use crate::vec4::vec_bounded;
use vstd::prelude::*;

verus! {

/// A perspective camera. `fov` is the full vertical field of view in
/// fixed-point radians; `tan_half_fov` is the caller-evaluated tangent
/// of half of it, which the projection needs.
pub struct Camera {
    pub model: ModelMatrix,
    pub fov: i64,
    pub tan_half_fov: i64,
    pub aspect_ratio: i64,
    pub z_near: i64,
    pub z_far: i64,
}

/// The numerator of the last-column depth entry of the projection:
/// `-2 * z_far * z_near`, as a fixed-point product.
pub open spec fn proj_depth_num(c: Camera) -> int {
    -fmul(2 * (c.z_far as int), c.z_near as int)
}

/// The perspective projection matrix of a camera: a right-handed,
/// looks-down-negative-z convention whose product with a view-space
/// point has `w == -z`.
pub open spec fn projection_spec(c: Camera) -> Matrix4x4 {
    Matrix4x4 {
        m00: fdiv(ONE as int, fmul(c.aspect_ratio as int, c.tan_half_fov as int)) as i64,
        m01: 0,
        m02: 0,
        m03: 0,
        m10: 0,
        m11: fdiv(ONE as int, c.tan_half_fov as int) as i64,
        m12: 0,
        m13: 0,
        m20: 0,
        m21: 0,
        m22: fdiv(-((c.z_far as int) + (c.z_near as int)), (c.z_far as int) - (c.z_near as int)) as i64,
        m23: fdiv(proj_depth_num(c), (c.z_far as int) - (c.z_near as int)) as i64,
        m30: 0,
        m31: 0,
        m32: (-(ONE as int)) as i64,
        m33: 0,
    }
}

impl Camera {
    pub fn new(model: ModelMatrix, fov: i64, tan_half_fov: i64, aspect_ratio: i64, z_near: i64,
        z_far: i64) -> (c: Self)
        ensures
            c.model == model,
            c.fov == fov,
            c.tan_half_fov == tan_half_fov,
            c.aspect_ratio == aspect_ratio,
            c.z_near == z_near,
            c.z_far == z_far,
    {
        Self { model, fov, tan_half_fov, aspect_ratio, z_near, z_far }
    }

    /// The world-to-camera transform derived from the camera's pose.
    pub fn get_view_matrix(&self) -> (m: Matrix4x4)
        requires
            self.model.trig.wf(),
            vec_bounded(self.model.translation),
        ensures
            m == view_matrix_spec(self.model),
    {
        self.model.get_view_matrix()
    }

    /// The perspective projection matrix from `fov`, `aspect_ratio`,
    /// `z_near` and `z_far`.
    pub fn get_projection_matrix(&self) -> (m: Matrix4x4)
        requires
            bounded(self.z_near as int),
            bounded(self.z_far as int),
            self.z_near < self.z_far,
            bounded(self.aspect_ratio as int),
            bounded(self.tan_half_fov as int),
            self.tan_half_fov != 0,
            fmul(self.aspect_ratio as int, self.tan_half_fov as int) != 0,
            i64::MIN <= fdiv(proj_depth_num(*self), (self.z_far as int) - (self.z_near as int))
                <= i64::MAX,
        ensures
            m == projection_spec(*self),
    {
        let at = {
            proof {
                let l = crate::fixed::COORD_LIMIT as int;
                lemma_mul_bound(self.aspect_ratio as int, self.tan_half_fov as int, l, l);
                lemma_tdiv_bound((self.aspect_ratio as int) * (self.tan_half_fov as int), 65536,
                    l * l);
            }
            crate::fixed::fixed_mul(self.aspect_ratio, self.tan_half_fov)
        };
        proof {
            lemma_tdiv_magnitude(65536int * 65536int, at as int);
            lemma_tdiv_magnitude(65536int * 65536int, self.tan_half_fov as int);
        }
        let m00 = fixed_div(ONE, at);
        let m11 = fixed_div(ONE, self.tan_half_fov);

        let den = self.z_far - self.z_near;
        proof {
            lemma_tdiv_magnitude((-((self.z_far as int) + (self.z_near as int))) * 65536,
                den as int);
        }
        let m22 = fixed_div(-(self.z_far + self.z_near), den);

        let two_far = 2 * self.z_far;
        let p = mul_wide(two_far, self.z_near);
        let q128 = div_round_to_zero(p, ONE as i128);
        proof {
            let l = crate::fixed::COORD_LIMIT as int;
            lemma_mul_bound(two_far as int, self.z_near as int, 2 * l, l);
            lemma_tdiv_bound(p as int, 65536, 2 * l * l);
        }
        let q = q128 as i64;
        let m23 = fixed_div(-q, den);

        Matrix4x4 {
            m00,
            m01: 0,
            m02: 0,
            m03: 0,
            m10: 0,
            m11,
            m12: 0,
            m13: 0,
            m20: 0,
            m21: 0,
            m22,
            m23,
            m30: 0,
            m31: 0,
            m32: -ONE,
            m33: 0,
        }
    }
}

/// The clip-space depth that the projection assigns to a view-space
/// point at depth `z`, scaled by the positive factor `f - n` (the exact
/// value, before any fixed-point rounding): `-(f + n) * z - 2 * f * n`.
pub open spec fn clip_depth_scaled(n: int, f: int, z: int) -> int {
    -(f + n) * z - 2 * f * n
}

/// The projection maps the near plane to the rear of the depth range and
/// the far plane to the front: a point at view depth `z == -n` has exact
/// clip depth `-1` times its clip weight `w == n` (scaled by `f - n`),
/// and a point at `z == -f` has clip depth `+1` times its weight `f`.
pub proof fn lemma_projection_depth_range(n: int, f: int)
    requires
        0 < n < f,
    ensures
        clip_depth_scaled(n, f, -n) == -1 * ((f - n) * n),
        clip_depth_scaled(n, f, -f) == 1 * ((f - n) * f),
{
    assert(-(f + n) * (-n) - 2 * f * n == -1 * ((f - n) * n)) by (nonlinear_arith);
    assert(-(f + n) * (-f) - 2 * f * n == 1 * ((f - n) * f)) by (nonlinear_arith);
}

} // verus!
