//! Row-major 4x4 matrices over fixed-point scalars, and the per-object
//! model transform (translation, Euler angles, scale).
//!
//! Composition is right-to-left: applying `a.mul(b)` to a vector applies
//! `b` first. Rotation matrices are built from precomputed fixed-point
//! sine/cosine pairs ([`TrigAngles`]), since the trigonometric functions
//! themselves are evaluated by the caller.

use crate::fixed::{
    bounded, dot4, fixed_dot4, fixed_mul_small, fixed_mul_unit, fmul, COORD_LIMIT, ONE,
};
use crate::vec4::{vec_bounded, Vec4};
use vstd::prelude::*;

verus! {

/// A row-major 4x4 matrix of fixed-point scalars; `mRC` is the entry in
/// row `R`, column `C`.
#[derive(Clone, Copy, Debug)]
pub struct Matrix4x4 {
    pub m00: i64,
    pub m01: i64,
    pub m02: i64,
    pub m03: i64,
    pub m10: i64,
    pub m11: i64,
    pub m12: i64,
    pub m13: i64,
    pub m20: i64,
    pub m21: i64,
    pub m22: i64,
    pub m23: i64,
    pub m30: i64,
    pub m31: i64,
    pub m32: i64,
    pub m33: i64,
}

/// The identity matrix: `ONE` on the diagonal, zero elsewhere.
pub open spec fn identity_spec() -> Matrix4x4 {
    Matrix4x4 {
        m00: ONE,
        m01: 0,
        m02: 0,
        m03: 0,
        m10: 0,
        m11: ONE,
        m12: 0,
        m13: 0,
        m20: 0,
        m21: 0,
        m22: ONE,
        m23: 0,
        m30: 0,
        m31: 0,
        m32: 0,
        m33: ONE,
    }
}

/// The zero matrix.
pub open spec fn zero_spec() -> Matrix4x4 {
    Matrix4x4 {
        m00: 0,
        m01: 0,
        m02: 0,
        m03: 0,
        m10: 0,
        m11: 0,
        m12: 0,
        m13: 0,
        m20: 0,
        m21: 0,
        m22: 0,
        m23: 0,
        m30: 0,
        m31: 0,
        m32: 0,
        m33: 0,
    }
}

/// Whether every entry is within [`COORD_LIMIT`], so that products of
/// two such matrices stay exact.
pub open spec fn mat_bounded(m: Matrix4x4) -> bool {
    &&& bounded(m.m00 as int) && bounded(m.m01 as int) && bounded(m.m02 as int) && bounded(
        m.m03 as int,
    )
    &&& bounded(m.m10 as int) && bounded(m.m11 as int) && bounded(m.m12 as int) && bounded(
        m.m13 as int,
    )
    &&& bounded(m.m20 as int) && bounded(m.m21 as int) && bounded(m.m22 as int) && bounded(
        m.m23 as int,
    )
    &&& bounded(m.m30 as int) && bounded(m.m31 as int) && bounded(m.m32 as int) && bounded(
        m.m33 as int,
    )
}

/// The fixed-point matrix product: each entry is the four-term inner
/// product of a row of `a` with a column of `b`, rescaled by `ONE`.
pub open spec fn mat_mul_spec(a: Matrix4x4, b: Matrix4x4) -> Matrix4x4 {
    Matrix4x4 {
        m00: dot4(a.m00 as int, b.m00 as int, a.m01 as int, b.m10 as int, a.m02 as int,
            b.m20 as int, a.m03 as int, b.m30 as int) as i64,
        m01: dot4(a.m00 as int, b.m01 as int, a.m01 as int, b.m11 as int, a.m02 as int,
            b.m21 as int, a.m03 as int, b.m31 as int) as i64,
        m02: dot4(a.m00 as int, b.m02 as int, a.m01 as int, b.m12 as int, a.m02 as int,
            b.m22 as int, a.m03 as int, b.m32 as int) as i64,
        m03: dot4(a.m00 as int, b.m03 as int, a.m01 as int, b.m13 as int, a.m02 as int,
            b.m23 as int, a.m03 as int, b.m33 as int) as i64,
        m10: dot4(a.m10 as int, b.m00 as int, a.m11 as int, b.m10 as int, a.m12 as int,
            b.m20 as int, a.m13 as int, b.m30 as int) as i64,
        m11: dot4(a.m10 as int, b.m01 as int, a.m11 as int, b.m11 as int, a.m12 as int,
            b.m21 as int, a.m13 as int, b.m31 as int) as i64,
        m12: dot4(a.m10 as int, b.m02 as int, a.m11 as int, b.m12 as int, a.m12 as int,
            b.m22 as int, a.m13 as int, b.m32 as int) as i64,
        m13: dot4(a.m10 as int, b.m03 as int, a.m11 as int, b.m13 as int, a.m12 as int,
            b.m23 as int, a.m13 as int, b.m33 as int) as i64,
        m20: dot4(a.m20 as int, b.m00 as int, a.m21 as int, b.m10 as int, a.m22 as int,
            b.m20 as int, a.m23 as int, b.m30 as int) as i64,
        m21: dot4(a.m20 as int, b.m01 as int, a.m21 as int, b.m11 as int, a.m22 as int,
            b.m21 as int, a.m23 as int, b.m31 as int) as i64,
        m22: dot4(a.m20 as int, b.m02 as int, a.m21 as int, b.m12 as int, a.m22 as int,
            b.m22 as int, a.m23 as int, b.m32 as int) as i64,
        m23: dot4(a.m20 as int, b.m03 as int, a.m21 as int, b.m13 as int, a.m22 as int,
            b.m23 as int, a.m23 as int, b.m33 as int) as i64,
        m30: dot4(a.m30 as int, b.m00 as int, a.m31 as int, b.m10 as int, a.m32 as int,
            b.m20 as int, a.m33 as int, b.m30 as int) as i64,
        m31: dot4(a.m30 as int, b.m01 as int, a.m31 as int, b.m11 as int, a.m32 as int,
            b.m21 as int, a.m33 as int, b.m31 as int) as i64,
        m32: dot4(a.m30 as int, b.m02 as int, a.m31 as int, b.m12 as int, a.m32 as int,
            b.m22 as int, a.m33 as int, b.m32 as int) as i64,
        m33: dot4(a.m30 as int, b.m03 as int, a.m31 as int, b.m13 as int, a.m32 as int,
            b.m23 as int, a.m33 as int, b.m33 as int) as i64,
    }
}

/// The fixed-point matrix-vector product.
pub open spec fn mat_mul_vec_spec(m: Matrix4x4, v: Vec4) -> Vec4 {
    Vec4 {
        x: dot4(m.m00 as int, v.x as int, m.m01 as int, v.y as int, m.m02 as int, v.z as int,
            m.m03 as int, v.w as int) as i64,
        y: dot4(m.m10 as int, v.x as int, m.m11 as int, v.y as int, m.m12 as int, v.z as int,
            m.m13 as int, v.w as int) as i64,
        z: dot4(m.m20 as int, v.x as int, m.m21 as int, v.y as int, m.m22 as int, v.z as int,
            m.m23 as int, v.w as int) as i64,
        w: dot4(m.m30 as int, v.x as int, m.m31 as int, v.y as int, m.m32 as int, v.z as int,
            m.m33 as int, v.w as int) as i64,
    }
}

impl Matrix4x4 {
    pub fn identity() -> (m: Self)
        ensures
            m == identity_spec(),
    {
        Self {
            m00: ONE,
            m01: 0,
            m02: 0,
            m03: 0,
            m10: 0,
            m11: ONE,
            m12: 0,
            m13: 0,
            m20: 0,
            m21: 0,
            m22: ONE,
            m23: 0,
            m30: 0,
            m31: 0,
            m32: 0,
            m33: ONE,
        }
    }

    pub fn zero() -> (m: Self)
        ensures
            m == zero_spec(),
    {
        Self {
            m00: 0,
            m01: 0,
            m02: 0,
            m03: 0,
            m10: 0,
            m11: 0,
            m12: 0,
            m13: 0,
            m20: 0,
            m21: 0,
            m22: 0,
            m23: 0,
            m30: 0,
            m31: 0,
            m32: 0,
            m33: 0,
        }
    }

    /// The matrix product `self * rhs`: applied to a vector, `rhs` acts
    /// first.
    pub fn mul(self, rhs: Matrix4x4) -> (r: Self)
        requires
            mat_bounded(self),
            mat_bounded(rhs),
        ensures
            r == mat_mul_spec(self, rhs),
    {
        Self {
            m00: fixed_dot4(self.m00, rhs.m00, self.m01, rhs.m10, self.m02, rhs.m20, self.m03,
                rhs.m30),
            m01: fixed_dot4(self.m00, rhs.m01, self.m01, rhs.m11, self.m02, rhs.m21, self.m03,
                rhs.m31),
            m02: fixed_dot4(self.m00, rhs.m02, self.m01, rhs.m12, self.m02, rhs.m22, self.m03,
                rhs.m32),
            m03: fixed_dot4(self.m00, rhs.m03, self.m01, rhs.m13, self.m02, rhs.m23, self.m03,
                rhs.m33),
            m10: fixed_dot4(self.m10, rhs.m00, self.m11, rhs.m10, self.m12, rhs.m20, self.m13,
                rhs.m30),
            m11: fixed_dot4(self.m10, rhs.m01, self.m11, rhs.m11, self.m12, rhs.m21, self.m13,
                rhs.m31),
            m12: fixed_dot4(self.m10, rhs.m02, self.m11, rhs.m12, self.m12, rhs.m22, self.m13,
                rhs.m32),
            m13: fixed_dot4(self.m10, rhs.m03, self.m11, rhs.m13, self.m12, rhs.m23, self.m13,
                rhs.m33),
            m20: fixed_dot4(self.m20, rhs.m00, self.m21, rhs.m10, self.m22, rhs.m20, self.m23,
                rhs.m30),
            m21: fixed_dot4(self.m20, rhs.m01, self.m21, rhs.m11, self.m22, rhs.m21, self.m23,
                rhs.m31),
            m22: fixed_dot4(self.m20, rhs.m02, self.m21, rhs.m12, self.m22, rhs.m22, self.m23,
                rhs.m32),
            m23: fixed_dot4(self.m20, rhs.m03, self.m21, rhs.m13, self.m22, rhs.m23, self.m23,
                rhs.m33),
            m30: fixed_dot4(self.m30, rhs.m00, self.m31, rhs.m10, self.m32, rhs.m20, self.m33,
                rhs.m30),
            m31: fixed_dot4(self.m30, rhs.m01, self.m31, rhs.m11, self.m32, rhs.m21, self.m33,
                rhs.m31),
            m32: fixed_dot4(self.m30, rhs.m02, self.m31, rhs.m12, self.m32, rhs.m22, self.m33,
                rhs.m32),
            m33: fixed_dot4(self.m30, rhs.m03, self.m31, rhs.m13, self.m32, rhs.m23, self.m33,
                rhs.m33),
        }
    }

    /// The matrix applied to a homogeneous vector.
    pub fn mul_vec(self, rhs: Vec4) -> (r: Vec4)
        requires
            mat_bounded(self),
            vec_bounded(rhs),
        ensures
            r == mat_mul_vec_spec(self, rhs),
    {
        Vec4 {
            x: fixed_dot4(self.m00, rhs.x, self.m01, rhs.y, self.m02, rhs.z, self.m03, rhs.w),
            y: fixed_dot4(self.m10, rhs.x, self.m11, rhs.y, self.m12, rhs.z, self.m13, rhs.w),
            z: fixed_dot4(self.m20, rhs.x, self.m21, rhs.y, self.m22, rhs.z, self.m23, rhs.w),
            w: fixed_dot4(self.m30, rhs.x, self.m31, rhs.y, self.m32, rhs.z, self.m33, rhs.w),
        }
    }
}

impl Default for Matrix4x4 {
    fn default() -> (m: Self)
        ensures
            m == identity_spec(),
    {
        Self::identity()
    }
}

/// Fixed-point sines and cosines of the three Euler angles of a pose.
/// The caller evaluates the trigonometric functions and hands the values
/// in; well-formed values have magnitude at most `ONE`.
#[derive(Clone, Copy, Debug)]
pub struct TrigAngles {
    pub sin_x: i64,
    pub cos_x: i64,
    pub sin_y: i64,
    pub cos_y: i64,
    pub sin_z: i64,
    pub cos_z: i64,
}

impl TrigAngles {
    /// Whether every stored value has magnitude at most `ONE`, as any
    /// sine or cosine does.
    pub open spec fn wf(self) -> bool {
        &&& -65536 <= self.sin_x <= 65536 && -65536 <= self.cos_x <= 65536
        &&& -65536 <= self.sin_y <= 65536 && -65536 <= self.cos_y <= 65536
        &&& -65536 <= self.sin_z <= 65536 && -65536 <= self.cos_z <= 65536
    }

    pub fn new(sin_x: i64, cos_x: i64, sin_y: i64, cos_y: i64, sin_z: i64, cos_z: i64) -> (t: Self)
        ensures
            t == (TrigAngles { sin_x, cos_x, sin_y, cos_y, sin_z, cos_z }),
    {
        Self { sin_x, cos_x, sin_y, cos_y, sin_z, cos_z }
    }

    /// The trigonometric values of the zero angles: sines zero, cosines
    /// `ONE`.
    pub fn zero_angles() -> (t: Self)
        ensures
            t == (TrigAngles {
                sin_x: 0,
                cos_x: ONE,
                sin_y: 0,
                cos_y: ONE,
                sin_z: 0,
                cos_z: ONE,
            }),
    {
        Self { sin_x: 0, cos_x: ONE, sin_y: 0, cos_y: ONE, sin_z: 0, cos_z: ONE }
    }
}

/// A pose: translation, Euler angles (with their trigonometric values),
/// and scale. The 4x4 transform is derived on demand and never cached.
pub struct ModelMatrix {
    pub translation: Vec4,
    pub angle: Vec4,
    pub trig: TrigAngles,
    pub scale: Vec4,
}

/// The model transform of a pose: rotation (intrinsic Euler order:
/// z after y after x) times scale, with the translation written into the
/// last column.
pub open spec fn model_matrix_spec(mm: ModelMatrix) -> Matrix4x4 {
    let sx = mm.trig.sin_x as int;
    let cx = mm.trig.cos_x as int;
    let sy = mm.trig.sin_y as int;
    let cy = mm.trig.cos_y as int;
    let sz = mm.trig.sin_z as int;
    let cz = mm.trig.cos_z as int;
    Matrix4x4 {
        m00: fmul(fmul(cz, cy), mm.scale.x as int) as i64,
        m01: fmul(fmul(-sz, cx) + fmul(fmul(cz, sy), sx), mm.scale.y as int) as i64,
        m02: fmul(fmul(sz, sx) + fmul(fmul(cz, sy), cx), mm.scale.z as int) as i64,
        m03: mm.translation.x,
        m10: fmul(fmul(sz, cy), mm.scale.x as int) as i64,
        m11: fmul(fmul(cz, cx) + fmul(fmul(sz, sy), sx), mm.scale.y as int) as i64,
        m12: fmul(fmul(-cz, sx) + fmul(fmul(sz, sy), cx), mm.scale.z as int) as i64,
        m13: mm.translation.y,
        m20: fmul(-sy, mm.scale.x as int) as i64,
        m21: fmul(fmul(cy, sx), mm.scale.y as int) as i64,
        m22: fmul(fmul(cy, cx), mm.scale.z as int) as i64,
        m23: mm.translation.z,
        m30: 0,
        m31: 0,
        m32: 0,
        m33: ONE,
    }
}

/// The world-to-camera transform of a pose: the transpose of its
/// rotation, with `-R . t` as the translation column (the inverse of the
/// rigid transform; scale is not inverted).
pub open spec fn view_matrix_spec(mm: ModelMatrix) -> Matrix4x4 {
    let sx = mm.trig.sin_x as int;
    let cx = mm.trig.cos_x as int;
    let sy = mm.trig.sin_y as int;
    let cy = mm.trig.cos_y as int;
    let sz = mm.trig.sin_z as int;
    let cz = mm.trig.cos_z as int;
    let x = mm.translation.x as int;
    let y = mm.translation.y as int;
    let z = mm.translation.z as int;
    let r00 = fmul(cy, cz);
    let r01 = fmul(-cx, sz) + fmul(fmul(sx, sy), cz);
    let r02 = fmul(sx, sz) + fmul(fmul(cx, sy), cz);
    let r10 = fmul(cy, sz);
    let r11 = fmul(cx, cz) + fmul(fmul(sx, sy), sz);
    let r12 = fmul(-sx, cz) + fmul(fmul(cx, sy), sz);
    let r20 = -sy;
    let r21 = fmul(sx, cy);
    let r22 = fmul(cx, cy);
    Matrix4x4 {
        m00: r00 as i64,
        m01: r10 as i64,
        m02: r20 as i64,
        m03: (-(fmul(r00, x) + fmul(r10, y) + fmul(r20, z))) as i64,
        m10: r01 as i64,
        m11: r11 as i64,
        m12: r21 as i64,
        m13: (-(fmul(r01, x) + fmul(r11, y) + fmul(r21, z))) as i64,
        m20: r02 as i64,
        m21: r12 as i64,
        m22: r22 as i64,
        m23: (-(fmul(r02, x) + fmul(r12, y) + fmul(r22, z))) as i64,
        m30: 0,
        m31: 0,
        m32: 0,
        m33: ONE,
    }
}

/// Whether transforming normals by the model matrix would need the
/// inverse transpose: true exactly when the scale is non-uniform.
pub open spec fn non_uniform_scale(mm: ModelMatrix) -> bool {
    mm.scale.x != mm.scale.y || mm.scale.y != mm.scale.z
}

impl ModelMatrix {
    pub fn new(translation: Vec4, angle: Vec4, trig: TrigAngles, scale: Vec4) -> (mm: Self)
        ensures
            mm.translation == translation,
            mm.angle == angle,
            mm.trig == trig,
            mm.scale == scale,
    {
        Self { translation, angle, trig, scale }
    }

    pub fn update_translate(&mut self, translation: Vec4)
        ensures
            final(self).translation == translation,
            final(self).angle == old(self).angle,
            final(self).trig == old(self).trig,
            final(self).scale == old(self).scale,
    {
        self.translation = translation;
    }

    /// Replaces the Euler angles; the caller hands in the matching
    /// trigonometric values.
    pub fn update_angle(&mut self, angle: Vec4, trig: TrigAngles)
        ensures
            final(self).angle == angle,
            final(self).trig == trig,
            final(self).translation == old(self).translation,
            final(self).scale == old(self).scale,
    {
        self.angle = angle;
        self.trig = trig;
    }

    pub fn update_scale(&mut self, scale: Vec4)
        ensures
            final(self).scale == scale,
            final(self).angle == old(self).angle,
            final(self).trig == old(self).trig,
            final(self).translation == old(self).translation,
    {
        self.scale = scale;
    }

    /// Derives the model transform from the pose.
    pub fn get_model_matrix(&self) -> (m: Matrix4x4)
        requires
            self.trig.wf(),
            vec_bounded(self.scale),
        ensures
            m == model_matrix_spec(*self),
    {
        let sx = self.trig.sin_x;
        let cx = self.trig.cos_x;
        let sy = self.trig.sin_y;
        let cy = self.trig.cos_y;
        let sz = self.trig.sin_z;
        let cz = self.trig.cos_z;

        let czcy = fixed_mul_unit(cz, cy);
        let szcy = fixed_mul_unit(sz, cy);
        let czsy = fixed_mul_unit(cz, sy);
        let szsy = fixed_mul_unit(sz, sy);

        Matrix4x4 {
            m00: fixed_mul_small(czcy, self.scale.x),
            m01: fixed_mul_small(
                fixed_mul_unit(-sz, cx) + fixed_mul_unit(czsy, sx),
                self.scale.y,
            ),
            m02: fixed_mul_small(
                fixed_mul_unit(sz, sx) + fixed_mul_unit(czsy, cx),
                self.scale.z,
            ),
            m03: self.translation.x,
            m10: fixed_mul_small(szcy, self.scale.x),
            m11: fixed_mul_small(
                fixed_mul_unit(cz, cx) + fixed_mul_unit(szsy, sx),
                self.scale.y,
            ),
            m12: fixed_mul_small(
                fixed_mul_unit(-cz, sx) + fixed_mul_unit(szsy, cx),
                self.scale.z,
            ),
            m13: self.translation.y,
            m20: fixed_mul_small(-sy, self.scale.x),
            m21: fixed_mul_small(fixed_mul_unit(cy, sx), self.scale.y),
            m22: fixed_mul_small(fixed_mul_unit(cy, cx), self.scale.z),
            m23: self.translation.z,
            m30: 0,
            m31: 0,
            m32: 0,
            m33: ONE,
        }
    }

    /// Derives the world-to-camera transform from the pose.
    pub fn get_view_matrix(&self) -> (m: Matrix4x4)
        requires
            self.trig.wf(),
            vec_bounded(self.translation),
        ensures
            m == view_matrix_spec(*self),
    {
        let sx = self.trig.sin_x;
        let cx = self.trig.cos_x;
        let sy = self.trig.sin_y;
        let cy = self.trig.cos_y;
        let sz = self.trig.sin_z;
        let cz = self.trig.cos_z;

        let r00 = fixed_mul_unit(cy, cz);
        let r01 = fixed_mul_unit(-cx, sz) + fixed_mul_unit(fixed_mul_unit(sx, sy), cz);
        let r02 = fixed_mul_unit(sx, sz) + fixed_mul_unit(fixed_mul_unit(cx, sy), cz);
        let r10 = fixed_mul_unit(cy, sz);
        let r11 = fixed_mul_unit(cx, cz) + fixed_mul_unit(fixed_mul_unit(sx, sy), sz);
        let r12 = fixed_mul_unit(-sx, cz) + fixed_mul_unit(fixed_mul_unit(cx, sy), sz);
        let r20 = -sy;
        let r21 = fixed_mul_unit(sx, cy);
        let r22 = fixed_mul_unit(cx, cy);

        let x = self.translation.x;
        let y = self.translation.y;
        let z = self.translation.z;

        Matrix4x4 {
            m00: r00,
            m01: r10,
            m02: r20,
            m03: -(fixed_mul_small(r00, x) + fixed_mul_small(r10, y) + fixed_mul_small(r20, z)),
            m10: r01,
            m11: r11,
            m12: r21,
            m13: -(fixed_mul_small(r01, x) + fixed_mul_small(r11, y) + fixed_mul_small(r21, z)),
            m20: r02,
            m21: r12,
            m22: r22,
            m23: -(fixed_mul_small(r02, x) + fixed_mul_small(r12, y) + fixed_mul_small(r22, z)),
            m30: 0,
            m31: 0,
            m32: 0,
            m33: ONE,
        }
    }

    /// True exactly when the scale is non-uniform, in which case normals
    /// would need the inverse transpose of the model matrix.
    pub fn inverse_needed_for_normals(&self) -> (r: bool)
        ensures
            r == non_uniform_scale(*self),
    {
        self.scale.x != self.scale.y || self.scale.y != self.scale.z
    }
}

/// A pose at the identity: zero translation, zero rotation (sines zero,
/// cosines `ONE`), unit scale.
pub open spec fn identity_pose(mm: ModelMatrix) -> bool {
    &&& mm.translation.x == 0 && mm.translation.y == 0 && mm.translation.z == 0
    &&& mm.trig == (TrigAngles { sin_x: 0, cos_x: ONE, sin_y: 0, cos_y: ONE, sin_z: 0, cos_z: ONE })
    &&& mm.scale.x == ONE && mm.scale.y == ONE && mm.scale.z == ONE
}

/// The view matrix of a pose at the identity, composed with its model
/// matrix, is the identity transform — and each factor already is.
pub proof fn lemma_view_model_identity(mm: ModelMatrix)
    requires
        identity_pose(mm),
    ensures
        model_matrix_spec(mm) == identity_spec(),
        view_matrix_spec(mm) == identity_spec(),
        mat_mul_spec(view_matrix_spec(mm), model_matrix_spec(mm)) == identity_spec(),
{
}

} // verus!
