//! The rasterization core: near-plane clipping, perspective screen
//! mapping, and triangle fill with depth testing and directional-light
//! shading, over a color buffer and a depth buffer.

use crate::camera::{projection_spec, Camera};
use crate::color::{mix_channel, Color};
use crate::depth_buffer::DepthBuffer;
use crate::draw_buffer::{flipped_index, DrawBuffer};
use crate::fixed::{bounded, fdiv, fmul, tdiv, COORD_LIMIT, ONE};
use crate::matrices::{
    mat_bounded, mat_mul_spec, mat_mul_vec_spec, model_matrix_spec, non_uniform_scale,
    view_matrix_spec, Matrix4x4,
};
use crate::mesh::Mesh;
use crate::scene::Scene;
use crate::vec4::{cross_spec, magnitude_spec, norm_spec, sub_spec, vec_bounded, Vec4};
use vstd::prelude::*;

verus! {

/// The largest screen coordinate magnitude the fill engine accepts; it
/// keeps every edge-function product inside `i64`.
pub const SCREEN_LIMIT: i32 = 0x10_0000;

/// The largest screen-depth magnitude the fill engine accepts (four in
/// fixed point; depths of visible geometry lie in `[0, 1]`).
pub const DEPTH_LIMIT: i64 = 0x4_0000;

/// A vertex mapped to the screen: integer pixel coordinates and a
/// fixed-point depth in `[0, 1]` for visible geometry.
#[derive(Clone, Copy, Debug)]
pub struct ScreenVertex {
    pub x: i32,
    pub y: i32,
    pub z: i64,
}

/// Whether a screen vertex is within the fill engine's coordinate and
/// depth limits.
pub open spec fn screen_ok(v: ScreenVertex) -> bool {
    &&& -SCREEN_LIMIT <= v.x <= SCREEN_LIMIT
    &&& -SCREEN_LIMIT <= v.y <= SCREEN_LIMIT
    &&& -DEPTH_LIMIT <= v.z <= DEPTH_LIMIT
}

/// The edge function of the directed edge `a -> b` against the point
/// `(px, py)`: positive on the left of the edge, zero on it, negative on
/// the right. Doubles as a signed (doubled) triangle area.
pub open spec fn edge_at(a: ScreenVertex, b: ScreenVertex, px: int, py: int) -> int {
    ((b.x as int) - (a.x as int)) * (py - (a.y as int)) - ((b.y as int) - (a.y as int)) * (px - (
    a.x as int))
}

/// The signed doubled area of the screen triangle `a, b, c`: positive
/// for counter-clockwise winding.
pub open spec fn edge_spec(a: ScreenVertex, b: ScreenVertex, c: ScreenVertex) -> int {
    edge_at(a, b, c.x as int, c.y as int)
}

/// Whether the pixel `(px, py)` lies inside the triangle per the
/// edge-function test: all three edge values share the non-negative
/// sign.
pub open spec fn inside_spec(a: ScreenVertex, b: ScreenVertex, c: ScreenVertex, px: int, py: int) -> bool {
    edge_at(a, b, px, py) >= 0 && edge_at(b, c, px, py) >= 0 && edge_at(c, a, px, py) >= 0
}

/// The depth interpolated at `(px, py)` with barycentric weights: each
/// vertex's depth weighted by the edge value opposite it, normalized by
/// their sum (the doubled area).
pub open spec fn depth_at(a: ScreenVertex, b: ScreenVertex, c: ScreenVertex, px: int, py: int) -> int {
    let abp = edge_at(a, b, px, py);
    let bcp = edge_at(b, c, px, py);
    let cap = edge_at(c, a, px, py);
    tdiv(abp * (c.z as int) + bcp * (a.z as int) + cap * (b.z as int), abp + bcp + cap)
}

/// Expands each edge value into a fixed monomial form, so that the
/// barycentric identities reduce to linear reasoning over monomials.
#[verifier::rlimit(100)]
proof fn lemma_edge_expansions(
    ax: int,
    ay: int,
    bx: int,
    by: int,
    cx: int,
    cy: int,
    px: int,
    py: int,
)
    ensures
        (bx - ax) * (py - ay) - (by - ay) * (px - ax) == bx * py - ay * bx - ax * py - by * px + ax
            * by + ay * px,
        (cx - bx) * (py - by) - (cy - by) * (px - bx) == cx * py - by * cx - bx * py - cy * px + bx
            * cy + by * px,
        (ax - cx) * (py - cy) - (ay - cy) * (px - cx) == ax * py - ax * cy - cx * py - ay * px + ay
            * cx + cy * px,
        (bx - ax) * (cy - ay) - (by - ay) * (cx - ax) == bx * cy - ay * bx - ax * cy - by * cx + ax
            * by + ay * cx,
{
    assert((bx - ax) * (py - ay) - (by - ay) * (px - ax) == bx * py - ay * bx - ax * py - by * px
        + ax * by + ay * px) by (nonlinear_arith);
    assert((cx - bx) * (py - by) - (cy - by) * (px - bx) == cx * py - by * cx - bx * py - cy * px
        + bx * cy + by * px) by (nonlinear_arith);
    assert((ax - cx) * (py - cy) - (ay - cy) * (px - cx) == ax * py - ax * cy - cx * py - ay * px
        + ay * cx + cy * px) by (nonlinear_arith);
    assert((bx - ax) * (cy - ay) - (by - ay) * (cx - ax) == bx * cy - ay * bx - ax * cy - by * cx
        + ax * by + ay * cx) by (nonlinear_arith);
}

proof fn lemma_barycentric_sum(
    ax: int,
    ay: int,
    bx: int,
    by: int,
    cx: int,
    cy: int,
    px: int,
    py: int,
)
    ensures
        ((bx - ax) * (py - ay) - (by - ay) * (px - ax)) + ((cx - bx) * (py - by) - (cy - by) * (px
            - bx)) + ((ax - cx) * (py - cy) - (ay - cy) * (px - cx)) == (bx - ax) * (cy - ay) - (by
            - ay) * (cx - ax),
{
    lemma_edge_expansions(ax, ay, bx, by, cx, cy, px, py);
}

/// Rotates a triple product: `(u v) w == (w u) v`.
proof fn lemma_mul3_rotate(u: int, v: int, w: int)
    by (nonlinear_arith)
    ensures
        (u * v) * w == (w * u) * v,
{
}

/// Swaps the last two factors of a triple product: `(u v) w == (u w) v`.
proof fn lemma_mul3_swap(u: int, v: int, w: int)
    by (nonlinear_arith)
    ensures
        (u * v) * w == (u * w) * v,
{
}

/// Distributes a six-term signed sum over a factor.
proof fn lemma_distribute6(m1: int, m2: int, m3: int, m4: int, m5: int, m6: int, x: int)
    by (nonlinear_arith)
    ensures
        (m1 - m2 - m3 - m4 + m5 + m6) * x == m1 * x - m2 * x - m3 * x - m4 * x + m5 * x + m6 * x,
{
}

proof fn lemma_barycentric_coord(
    ax: int,
    ay: int,
    bx: int,
    by: int,
    cx: int,
    cy: int,
    px: int,
    py: int,
)
    ensures
        ((cx - bx) * (py - by) - (cy - by) * (px - bx)) * ax + ((ax - cx) * (py - cy) - (ay - cy) * (
        px - cx)) * bx + ((bx - ax) * (py - ay) - (by - ay) * (px - ax)) * cx == ((bx - ax) * (cy
            - ay) - (by - ay) * (cx - ax)) * px,
{
    lemma_edge_expansions(ax, ay, bx, by, cx, cy, px, py);

    lemma_distribute6(cx * py, by * cx, bx * py, cy * px, bx * cy, by * px, ax);
    lemma_mul3_rotate(cx, py, ax);
    lemma_mul3_rotate(by, cx, ax);
    lemma_mul3_rotate(bx, py, ax);
    lemma_mul3_rotate(cy, px, ax);
    lemma_mul3_rotate(bx, cy, ax);
    lemma_mul3_rotate(by, px, ax);

    lemma_distribute6(ax * py, ax * cy, cx * py, ay * px, ay * cx, cy * px, bx);
    lemma_mul3_swap(ax, py, bx);
    lemma_mul3_swap(ax, cy, bx);
    lemma_mul3_rotate(cx, py, bx);
    lemma_mul3_swap(ay, px, bx);
    lemma_mul3_swap(ay, cx, bx);
    lemma_mul3_rotate(cy, px, bx);

    lemma_distribute6(bx * py, ay * bx, ax * py, by * px, ax * by, ay * px, cx);
    lemma_mul3_swap(bx, py, cx);
    lemma_mul3_swap(ax, py, cx);
    lemma_mul3_swap(by, px, cx);
    lemma_mul3_swap(ay, px, cx);

    lemma_distribute6(bx * cy, ay * bx, ax * cy, by * cx, ax * by, ay * cx, px);
}

proof fn lemma_barycentric_raw(
    ax: int,
    ay: int,
    bx: int,
    by: int,
    cx: int,
    cy: int,
    px: int,
    py: int,
)
    ensures
        ((bx - ax) * (py - ay) - (by - ay) * (px - ax)) + ((cx - bx) * (py - by) - (cy - by) * (px
            - bx)) + ((ax - cx) * (py - cy) - (ay - cy) * (px - cx)) == (bx - ax) * (cy - ay) - (by
            - ay) * (cx - ax),
        ((cx - bx) * (py - by) - (cy - by) * (px - bx)) * ax + ((ax - cx) * (py - cy) - (ay - cy) * (
        px - cx)) * bx + ((bx - ax) * (py - ay) - (by - ay) * (px - ax)) * cx == ((bx - ax) * (cy
            - ay) - (by - ay) * (cx - ax)) * px,
        ((cx - bx) * (py - by) - (cy - by) * (px - bx)) * ay + ((ax - cx) * (py - cy) - (ay - cy) * (
        px - cx)) * by + ((bx - ax) * (py - ay) - (by - ay) * (px - ax)) * cy == ((bx - ax) * (cy
            - ay) - (by - ay) * (cx - ax)) * py,
{
    lemma_barycentric_sum(ax, ay, bx, by, cx, cy, px, py);
    lemma_barycentric_coord(ax, ay, bx, by, cx, cy, px, py);
    // The y-coordinate identity is the x-coordinate identity of the
    // mirrored triangle (coordinates swapped); the mirroring flips the
    // sign of every edge value and of the area.
    lemma_barycentric_coord(ay, ax, by, bx, cy, cx, py, px);
    lemma_mul_neg((cx - bx) * (py - by) - (cy - by) * (px - bx), ay);
    lemma_mul_neg((ax - cx) * (py - cy) - (ay - cy) * (px - cx), by);
    lemma_mul_neg((bx - ax) * (py - ay) - (by - ay) * (px - ax), cy);
    lemma_mul_neg((bx - ax) * (cy - ay) - (by - ay) * (cx - ax), py);
}

/// Pulls a negation out of a product.
proof fn lemma_mul_neg(u: int, v: int)
    by (nonlinear_arith)
    ensures
        (-u) * v == -(u * v),
{
}

/// The barycentric identities, phrased over screen vertices.
pub proof fn lemma_barycentric(
    a: ScreenVertex,
    b: ScreenVertex,
    c: ScreenVertex,
    px: int,
    py: int,
)
    ensures
        edge_at(a, b, px, py) + edge_at(b, c, px, py) + edge_at(c, a, px, py) == edge_spec(a, b, c),
        edge_at(b, c, px, py) * (a.x as int) + edge_at(c, a, px, py) * (b.x as int) + edge_at(
            a,
            b,
            px,
            py,
        ) * (c.x as int) == edge_spec(a, b, c) * px,
        edge_at(b, c, px, py) * (a.y as int) + edge_at(c, a, px, py) * (b.y as int) + edge_at(
            a,
            b,
            px,
            py,
        ) * (c.y as int) == edge_spec(a, b, c) * py,
{
    lemma_barycentric_raw(a.x as int, a.y as int, b.x as int, b.y as int, c.x as int, c.y as int,
        px, py);
}

/// A pixel inside a triangle of positive area lies within the triangle's
/// coordinate bounding box.
pub proof fn lemma_inside_bbox(a: ScreenVertex, b: ScreenVertex, c: ScreenVertex, px: int, py: int)
    requires
        inside_spec(a, b, c, px, py),
        edge_spec(a, b, c) > 0,
    ensures
        vstd::math::min(vstd::math::min(a.x as int, b.x as int), c.x as int) <= px,
        px <= vstd::math::max(vstd::math::max(a.x as int, b.x as int), c.x as int),
        vstd::math::min(vstd::math::min(a.y as int, b.y as int), c.y as int) <= py,
        py <= vstd::math::max(vstd::math::max(a.y as int, b.y as int), c.y as int),
{
    lemma_barycentric(a, b, c, px, py);
    let abp = edge_at(a, b, px, py);
    let bcp = edge_at(b, c, px, py);
    let cap = edge_at(c, a, px, py);
    let area = edge_spec(a, b, c);
    let minx = vstd::math::min(vstd::math::min(a.x as int, b.x as int), c.x as int);
    let maxx = vstd::math::max(vstd::math::max(a.x as int, b.x as int), c.x as int);
    let miny = vstd::math::min(vstd::math::min(a.y as int, b.y as int), c.y as int);
    let maxy = vstd::math::max(vstd::math::max(a.y as int, b.y as int), c.y as int);

    vstd::arithmetic::mul::lemma_mul_inequality(minx, a.x as int, bcp);
    vstd::arithmetic::mul::lemma_mul_inequality(minx, b.x as int, cap);
    vstd::arithmetic::mul::lemma_mul_inequality(minx, c.x as int, abp);
    vstd::arithmetic::mul::lemma_mul_inequality(a.x as int, maxx, bcp);
    vstd::arithmetic::mul::lemma_mul_inequality(b.x as int, maxx, cap);
    vstd::arithmetic::mul::lemma_mul_inequality(c.x as int, maxx, abp);
    vstd::arithmetic::mul::lemma_mul_is_distributive_sub_other_way(bcp + cap + abp, maxx, minx);
    assert(minx * area <= area * px <= maxx * area) by (nonlinear_arith)
        requires
            minx * bcp + minx * cap + minx * abp <= area * px <= maxx * bcp + maxx * cap + maxx
                * abp,
            area == abp + bcp + cap,
    {}
    assert(minx <= px <= maxx) by (nonlinear_arith)
        requires
            minx * area <= area * px <= maxx * area,
            area > 0,
    {}

    vstd::arithmetic::mul::lemma_mul_inequality(miny, a.y as int, bcp);
    vstd::arithmetic::mul::lemma_mul_inequality(miny, b.y as int, cap);
    vstd::arithmetic::mul::lemma_mul_inequality(miny, c.y as int, abp);
    vstd::arithmetic::mul::lemma_mul_inequality(a.y as int, maxy, bcp);
    vstd::arithmetic::mul::lemma_mul_inequality(b.y as int, maxy, cap);
    vstd::arithmetic::mul::lemma_mul_inequality(c.y as int, maxy, abp);
    assert(miny * area <= area * py <= maxy * area) by (nonlinear_arith)
        requires
            miny * bcp + miny * cap + miny * abp <= area * py <= maxy * bcp + maxy * cap + maxy
                * abp,
            area == abp + bcp + cap,
    {}
    assert(miny <= py <= maxy) by (nonlinear_arith)
        requires
            miny * area <= area * py <= maxy * area,
            area > 0,
    {}
}

/// Whether a clip-space vertex lies behind the near plane: its clip
/// weight `w` (the negated view depth) is closer than `z_near`.
pub open spec fn behind(v: Vec4, z_near: int) -> bool {
    (v.w as int) < z_near
}

/// The parameter of the intersection of the edge `a -> b` with the near
/// plane: `(-a.z - z_near) / (b.z - a.z)` in fixed point.
pub open spec fn find_t_spec(a: Vec4, b: Vec4, z_near: int) -> int {
    fdiv(-(a.z as int) - z_near, (b.z as int) - (a.z as int))
}

/// Linear interpolation `a + (b - a) * t` in clip space, including `w`.
pub open spec fn lerp_spec(a: Vec4, b: Vec4, t: int) -> Vec4 {
    Vec4 {
        x: ((a.x as int) + fmul((b.x as int) - (a.x as int), t)) as i64,
        y: ((a.y as int) + fmul((b.y as int) - (a.y as int), t)) as i64,
        z: ((a.z as int) + fmul((b.z as int) - (a.z as int), t)) as i64,
        w: ((a.w as int) + fmul((b.w as int) - (a.w as int), t)) as i64,
    }
}

/// A vertex interpolated onto the near plane lands exactly on it, before
/// fixed-point rounding: for clip-space vertices on the projective locus
/// `z == -w` (where the near plane sits after the perspective
/// projection), the exact interpolated `w` at the parameter
/// `(-a.z - z_near) / (b.z - a.z)` equals `z_near`; here both sides are
/// scaled by the denominator `b.z - a.z`.
pub proof fn lemma_clip_meets_near_plane(a: Vec4, b: Vec4, z_near: int)
    requires
        a.z as int == -(a.w as int),
        b.z as int == -(b.w as int),
    ensures
        (a.w as int) * ((b.z as int) - (a.z as int)) + ((b.w as int) - (a.w as int)) * (-(
        a.z as int) - z_near) == z_near * ((b.z as int) - (a.z as int)),
{
    let aw = a.w as int;
    let bw = b.w as int;
    assert(aw * (aw - bw) + (bw - aw) * (aw - z_near) == z_near * (aw - bw)) by (nonlinear_arith);
}

/// The computed fixed-point `w` of a clipped vertex misses the near
/// distance only by rounding: for clip-space vertices on the projective
/// locus `z == -w`, the interpolated `w` differs from `z_near` by less
/// than one unit plus the edge's `w` span scaled down by `ONE` (two
/// truncating divisions, one remainder each).
pub proof fn lemma_clip_w_tolerance(a: Vec4, b: Vec4, z_near: int)
    requires
        a.z as int == -(a.w as int),
        b.z as int == -(b.w as int),
        (b.z as int) != (a.z as int),
        vec_bounded(a),
        vec_bounded(b),
        bounded(z_near),
        bounded(find_t_spec(a, b, z_near)),
    ensures
        -(vstd::math::abs((a.w as int) - (b.w as int)) + 65536) < 65536 * (lerp_spec(
            a,
            b,
            find_t_spec(a, b, z_near),
        ).w - z_near),
        65536 * (lerp_spec(a, b, find_t_spec(a, b, z_near)).w - z_near) < vstd::math::abs(
            (a.w as int) - (b.w as int),
        ) + 65536,
{
    let aw = a.w as int;
    let bw = b.w as int;
    let n = aw - z_near;
    let d = aw - bw;
    let t = find_t_spec(a, b, z_near);
    assert(t == tdiv(n * 65536, d));
    let r1 = n * 65536 - d * t;
    crate::fixed::lemma_tdiv_remainder(n * 65536, d);
    let m = fmul(bw - aw, t);
    let r2 = (bw - aw) * t - 65536 * m;
    crate::fixed::lemma_tdiv_remainder((bw - aw) * t, 65536);
    lemma_mul_neg(d, t);
    assert((bw - aw) * t == (-d) * t);
    lemma_lerp_fits(a, b, t);
    let wv = aw + m;
    assert(lerp_spec(a, b, t).w == wv);
    assert(65536 * (wv - z_near) == r1 - r2);
}

/// Whether the edge `a -> b` can be clipped exactly: its depths differ
/// (no division by zero) and the intersection parameter is small enough
/// to interpolate with.
pub open spec fn clip_edge_ok(a: Vec4, b: Vec4, z_near: int) -> bool {
    (b.z as int) != (a.z as int) && bounded(find_t_spec(a, b, z_near))
}

/// What near-plane clipping yields, by the count of vertices behind the
/// plane: nothing for three, a pass-through triangle for none, one
/// clipped triangle for two, and a quadrilateral (two triangles sharing
/// the edge `p0 -> p2`) for one.
pub open spec fn clip_output(v0: Vec4, v1: Vec4, v2: Vec4, z_near: int) -> (
    Option<Vec4>,
    Option<Vec4>,
    Option<Vec4>,
    Option<Vec4>,
) {
    let b0 = behind(v0, z_near);
    let b1 = behind(v1, z_near);
    let b2 = behind(v2, z_near);
    if b0 && b1 && b2 {
        (None, None, None, None)
    } else if b1 && b2 {
        (
            Some(v0),
            Some(lerp_spec(v0, v1, find_t_spec(v0, v1, z_near))),
            Some(lerp_spec(v0, v2, find_t_spec(v0, v2, z_near))),
            None,
        )
    } else if b0 && b2 {
        (
            Some(v1),
            Some(lerp_spec(v1, v2, find_t_spec(v1, v2, z_near))),
            Some(lerp_spec(v1, v0, find_t_spec(v1, v0, z_near))),
            None,
        )
    } else if b0 && b1 {
        (
            Some(v2),
            Some(lerp_spec(v2, v0, find_t_spec(v2, v0, z_near))),
            Some(lerp_spec(v2, v1, find_t_spec(v2, v1, z_near))),
            None,
        )
    } else if b0 {
        (
            Some(v1),
            Some(v2),
            Some(lerp_spec(v2, v0, find_t_spec(v2, v0, z_near))),
            Some(lerp_spec(v1, v0, find_t_spec(v1, v0, z_near))),
        )
    } else if b1 {
        (
            Some(v2),
            Some(v0),
            Some(lerp_spec(v0, v1, find_t_spec(v0, v1, z_near))),
            Some(lerp_spec(v2, v1, find_t_spec(v2, v1, z_near))),
        )
    } else if b2 {
        (
            Some(v0),
            Some(v1),
            Some(lerp_spec(v1, v2, find_t_spec(v1, v2, z_near))),
            Some(lerp_spec(v0, v2, find_t_spec(v0, v2, z_near))),
        )
    } else {
        (Some(v0), Some(v1), Some(v2), None)
    }
}

/// Whether the edges that clipping would intersect can all be clipped
/// exactly (see [`clip_edge_ok`]); vertices on the surviving side need
/// nothing.
pub open spec fn clip_safe(v0: Vec4, v1: Vec4, v2: Vec4, z_near: int) -> bool {
    let b0 = behind(v0, z_near);
    let b1 = behind(v1, z_near);
    let b2 = behind(v2, z_near);
    if b0 && b1 && b2 {
        true
    } else if b1 && b2 {
        clip_edge_ok(v0, v1, z_near) && clip_edge_ok(v0, v2, z_near)
    } else if b0 && b2 {
        clip_edge_ok(v1, v2, z_near) && clip_edge_ok(v1, v0, z_near)
    } else if b0 && b1 {
        clip_edge_ok(v2, v0, z_near) && clip_edge_ok(v2, v1, z_near)
    } else if b0 {
        clip_edge_ok(v2, v0, z_near) && clip_edge_ok(v1, v0, z_near)
    } else if b1 {
        clip_edge_ok(v0, v1, z_near) && clip_edge_ok(v2, v1, z_near)
    } else if b2 {
        clip_edge_ok(v1, v2, z_near) && clip_edge_ok(v0, v2, z_near)
    } else {
        true
    }
}

/// A screen coordinate from a normalized device coordinate: mapped from
/// `[-1, 1]` to `[0, len]` and truncated to whole pixels.
pub open spec fn viewport_coord(x: int, len: int) -> int {
    tdiv((x + 65536) * len, 131072)
}

/// The perspective divide: every component divided by `w`.
pub open spec fn ndc_of(v: Vec4) -> Vec4 {
    Vec4 {
        x: fdiv(v.x as int, v.w as int) as i64,
        y: fdiv(v.y as int, v.w as int) as i64,
        z: fdiv(v.z as int, v.w as int) as i64,
        w: fdiv(v.w as int, v.w as int) as i64,
    }
}

/// The screen vertex of a clip-space vertex: perspective divide, then
/// the viewport transform, with depth mapped to `[0, 1]`.
pub open spec fn to_screen_spec(v: Vec4, width: int, height: int) -> ScreenVertex {
    let n = ndc_of(v);
    ScreenVertex {
        x: viewport_coord(n.x as int, width) as i32,
        y: viewport_coord(n.y as int, height) as i32,
        z: tdiv((n.z as int) + 65536, 2) as i64,
    }
}

/// Whether a clip-space vertex can be mapped to the screen: a non-zero
/// perspective divisor, components in range, and pixel coordinates that
/// fit in `i32`.
pub open spec fn screenable(v: Vec4, width: int, height: int) -> bool {
    &&& v.w != 0
    &&& vec_bounded(v)
    &&& i32::MIN <= viewport_coord(ndc_of(v).x as int, width) <= i32::MAX
    &&& i32::MIN <= viewport_coord(ndc_of(v).y as int, height) <= i32::MAX
}

/// The magnitude bound the fill engine asks of the normals it
/// interpolates; a weighted sum of three such normals stays within
/// [`COORD_LIMIT`].
pub const NORMAL_LIMIT: i64 = 0x10_0000_0000;

/// Whether every component of a normal is within [`NORMAL_LIMIT`].
pub open spec fn normal_bounded(v: Vec4) -> bool {
    &&& -NORMAL_LIMIT <= v.x <= NORMAL_LIMIT
    &&& -NORMAL_LIMIT <= v.y <= NORMAL_LIMIT
    &&& -NORMAL_LIMIT <= v.z <= NORMAL_LIMIT
    &&& -NORMAL_LIMIT <= v.w <= NORMAL_LIMIT
}

/// A barycentric weight: an edge value normalized by the doubled area,
/// in fixed point.
pub open spec fn weight_of(e: int, total: int) -> int {
    tdiv(e * 65536, total)
}

/// A triangle as the fill engine sees it: screen vertices, per-vertex
/// normals, and the base color.
pub struct TriangleAttrs {
    pub a: ScreenVertex,
    pub b: ScreenVertex,
    pub c: ScreenVertex,
    pub na: Vec4,
    pub nb: Vec4,
    pub nc: Vec4,
    pub color: Color,
}

/// The normal interpolated at a pixel: each vertex normal scaled by the
/// barycentric weight opposite it, summed.
pub open spec fn tri_pixel_normal(t: TriangleAttrs, px: int, py: int) -> Vec4 {
    let abp = edge_at(t.a, t.b, px, py);
    let bcp = edge_at(t.b, t.c, px, py);
    let cap = edge_at(t.c, t.a, px, py);
    let total = abp + bcp + cap;
    let wa = weight_of(bcp, total);
    let wb = weight_of(cap, total);
    let wc = weight_of(abp, total);
    Vec4 {
        x: (fmul(t.na.x as int, wa) + fmul(t.nb.x as int, wb) + fmul(t.nc.x as int, wc)) as i64,
        y: (fmul(t.na.y as int, wa) + fmul(t.nb.y as int, wb) + fmul(t.nc.y as int, wc)) as i64,
        z: (fmul(t.na.z as int, wa) + fmul(t.nb.z as int, wb) + fmul(t.nc.z as int, wc)) as i64,
        w: (fmul(t.na.w as int, wa) + fmul(t.nb.w as int, wb) + fmul(t.nc.w as int, wc)) as i64,
    }
}

/// The light intensity of a pixel normal under the fixed directional
/// light that points along negative z: the z component of the normalized
/// normal, floored at the ambient level (a tenth of `ONE`). A normal of
/// zero magnitude gets the ambient level.
pub open spec fn intensity_spec(n: Vec4) -> int {
    let m = crate::vec4::magnitude_spec(n);
    if m == 0 {
        6553
    } else if fdiv(n.z as int, m) < 6553 {
        6553
    } else {
        fdiv(n.z as int, m)
    }
}

/// The shaded color of a pixel: the base color mixed toward black by
/// one minus the intensity.
pub open spec fn shaded_color_spec(color: Color, n: Vec4) -> Color {
    Color {
        r: mix_channel(color.r as int, 0, 65536 - intensity_spec(n)) as u8,
        g: mix_channel(color.g as int, 0, 65536 - intensity_spec(n)) as u8,
        b: mix_channel(color.b as int, 0, 65536 - intensity_spec(n)) as u8,
        a: color.a,
    }
}

/// The packed shaded color a triangle writes at a pixel.
pub open spec fn tri_shaded_packed(t: TriangleAttrs, px: int, py: int) -> int {
    shaded_color_spec(t.color, tri_pixel_normal(t, px, py)).packed()
}

/// Whether a triangle writes the pixel `(px, py)`: the pixel lies inside
/// it and the interpolated depth passes the strict depth test against
/// the stored depth.
pub open spec fn tri_hits(t: TriangleAttrs, px: int, py: int, d_old: int) -> bool {
    inside_spec(t.a, t.b, t.c, px, py) && depth_at(t.a, t.b, t.c, px, py) < d_old
}

/// What filling a triangle leaves at one pixel, relating the buffers
/// before (`d0`, `c0`) and after (`d1`, `c1`): a hit writes the
/// interpolated depth and the shaded color; anything else is untouched.
pub open spec fn pixel_done(
    t: TriangleAttrs,
    d0: Seq<i64>,
    c0: Seq<u32>,
    d1: Seq<i64>,
    c1: Seq<u32>,
    width: int,
    height: int,
    px: int,
    py: int,
) -> bool {
    let idx = flipped_index(height, width, py, px);
    if tri_hits(t, px, py, d0[idx] as int) {
        d1[idx] == depth_at(t.a, t.b, t.c, px, py) && c1[idx] == tri_shaded_packed(t, px, py)
    } else {
        d1[idx] == d0[idx] && c1[idx] == c0[idx]
    }
}

/// Clamping an `i64` to `[0, len]`.
pub open spec fn clamp_spec(v: int, len: int) -> int {
    if v < 0 {
        0
    } else if v > len {
        len
    } else {
        v
    }
}

/// Clamps a coordinate to `[0, len]` for use as a loop bound.
fn clamp_to(v: i64, len: usize) -> (r: usize)
    requires
        len <= 0x10_0000,
    ensures
        r == clamp_spec(v as int, len as int),
{
    if v < 0 {
        0
    } else if v > len as i64 {
        len
    } else {
        v as usize
    }
}

/// A scaled fixed-point product of a bounded normal component and a unit
/// weight stays within the normal bound.
proof fn lemma_weighted_component(n: int, wgt: int)
    requires
        -NORMAL_LIMIT <= n <= NORMAL_LIMIT,
        0 <= wgt <= 65536,
    ensures
        -NORMAL_LIMIT <= fmul(n, wgt) <= NORMAL_LIMIT,
{
    crate::fixed::lemma_mul_bound(n, wgt, NORMAL_LIMIT as int, 65536);
    crate::fixed::lemma_tdiv_bound(n * wgt, 65536, (NORMAL_LIMIT as int) * 65536);
}

/// The rasterizer: the color buffer it fills and the depth buffer it
/// tests against.
pub struct Rasterizer {
    pub draw_buffer: DrawBuffer,
    pub depth_buffer: DepthBuffer,
}

/// Whether the two buffers agree on their dimensions and storage.
pub open spec fn ras_wf(r: Rasterizer) -> bool {
    &&& r.draw_buffer.wf()
    &&& r.depth_buffer.wf()
    &&& r.draw_buffer.buffer_width == r.depth_buffer.buffer_width
    &&& r.draw_buffer.buffer_height == r.depth_buffer.buffer_height
}

impl Rasterizer {
    pub fn new(draw_buffer: DrawBuffer, depth_buffer: DepthBuffer) -> (r: Self)
        ensures
            r.draw_buffer == draw_buffer,
            r.depth_buffer == depth_buffer,
    {
        Self { draw_buffer, depth_buffer }
    }

    /// The edge function on screen vertices, exact in `i64`.
    pub fn edge_function(a: ScreenVertex, b: ScreenVertex, c: ScreenVertex) -> (r: i64)
        requires
            screen_ok(a),
            screen_ok(b),
            screen_ok(c),
        ensures
            r == edge_spec(a, b, c),
            -0x800_0000_0000 <= r <= 0x800_0000_0000,
    {
        proof {
            crate::fixed::lemma_mul_bound((b.x as int) - (a.x as int), (c.y as int) - (a.y as int),
                0x20_0000, 0x20_0000);
            crate::fixed::lemma_mul_bound((b.y as int) - (a.y as int), (c.x as int) - (a.x as int),
                0x20_0000, 0x20_0000);
        }
        let r = ((b.x as i64) - (a.x as i64)) * ((c.y as i64) - (a.y as i64)) - ((b.y as i64) - (
        a.y as i64)) * ((c.x as i64) - (a.x as i64));
        r
    }

    /// Whether the pixel `point` lies inside the triangle, and the depth
    /// interpolated there. The triangle must have positive doubled area.
    pub fn in_triangle(a: ScreenVertex, b: ScreenVertex, c: ScreenVertex, point: ScreenVertex) -> (r:
        (bool, i64))
        requires
            screen_ok(a),
            screen_ok(b),
            screen_ok(c),
            screen_ok(point),
            edge_spec(a, b, c) > 0,
        ensures
            r.0 == inside_spec(a, b, c, point.x as int, point.y as int),
            r.1 == depth_at(a, b, c, point.x as int, point.y as int),
    {
        let abp = Self::edge_function(a, b, point);
        let bcp = Self::edge_function(b, c, point);
        let cap = Self::edge_function(c, a, point);
        proof {
            lemma_barycentric(a, b, c, point.x as int, point.y as int);
        }
        let total = abp + bcp + cap;
        let pa = crate::fixed::mul_wide(abp, c.z);
        let pb = crate::fixed::mul_wide(bcp, a.z);
        let pc = crate::fixed::mul_wide(cap, b.z);
        proof {
            crate::fixed::lemma_mul_bound(abp as int, c.z as int, 0x800_0000_0000, DEPTH_LIMIT as int);
            crate::fixed::lemma_mul_bound(bcp as int, a.z as int, 0x800_0000_0000, DEPTH_LIMIT as int);
            crate::fixed::lemma_mul_bound(cap as int, b.z as int, 0x800_0000_0000, DEPTH_LIMIT as int);
            crate::fixed::lemma_tdiv_magnitude((pa + pb + pc) as int, total as int);
        }
        let z = crate::fixed::div_round_to_zero(pa + pb + pc, total as i128) as i64;
        (abp >= 0 && bcp >= 0 && cap >= 0, z)
    }

    /// The near-plane intersection parameter of the edge `a -> b`.
    fn find_t(a: Vec4, b: Vec4, camera: &Camera) -> (t: i64)
        requires
            bounded(a.z as int),
            bounded(b.z as int),
            bounded(camera.z_near as int),
            b.z != a.z,
        ensures
            t == find_t_spec(a, b, camera.z_near as int),
    {
        proof {
            crate::fixed::lemma_tdiv_magnitude((-(a.z as int) - (camera.z_near as int)) * 65536, (
            b.z as int) - (a.z as int));
        }
        crate::fixed::fixed_div(-a.z - camera.z_near, b.z - a.z)
    }

    /// Linear interpolation between clip-space vertices.
    fn lerp(a: Vec4, b: Vec4, t: i64) -> (r: Vec4)
        requires
            vec_bounded(a),
            vec_bounded(b),
            bounded(t as int),
        ensures
            r == lerp_spec(a, b, t as int),
    {
        proof {
            lemma_lerp_fits(a, b, t as int);
        }
        Vec4 {
            x: a.x + crate::fixed::fixed_mul(b.x - a.x, t),
            y: a.y + crate::fixed::fixed_mul(b.y - a.y, t),
            z: a.z + crate::fixed::fixed_mul(b.z - a.z, t),
            w: a.w + crate::fixed::fixed_mul(b.w - a.w, t),
        }
    }

    /// Clips a clip-space triangle against the camera's near plane,
    /// yielding zero, one, or two triangles (three or four vertices; a
    /// fourth makes the pair `p0 p1 p2`, `p0 p2 p3`).
    pub fn clip_triangle(v0: Vec4, v1: Vec4, v2: Vec4, camera: &Camera) -> (r: (
        Option<Vec4>,
        Option<Vec4>,
        Option<Vec4>,
        Option<Vec4>,
    ))
        requires
            vec_bounded(v0),
            vec_bounded(v1),
            vec_bounded(v2),
            bounded(camera.z_near as int),
            clip_safe(v0, v1, v2, camera.z_near as int),
        ensures
            r == clip_output(v0, v1, v2, camera.z_near as int),
    {
        let b0 = v0.w < camera.z_near;
        let b1 = v1.w < camera.z_near;
        let b2 = v2.w < camera.z_near;
        if b0 && b1 && b2 {
            (None, None, None, None)
        } else if b1 && b2 {
            let t1 = Self::find_t(v0, v1, camera);
            let t2 = Self::find_t(v0, v2, camera);
            (Some(v0), Some(Self::lerp(v0, v1, t1)), Some(Self::lerp(v0, v2, t2)), None)
        } else if b0 && b2 {
            let t2 = Self::find_t(v1, v2, camera);
            let t0 = Self::find_t(v1, v0, camera);
            (Some(v1), Some(Self::lerp(v1, v2, t2)), Some(Self::lerp(v1, v0, t0)), None)
        } else if b0 && b1 {
            let t0 = Self::find_t(v2, v0, camera);
            let t1 = Self::find_t(v2, v1, camera);
            (Some(v2), Some(Self::lerp(v2, v0, t0)), Some(Self::lerp(v2, v1, t1)), None)
        } else if b0 {
            let t_20 = Self::find_t(v2, v0, camera);
            let t_10 = Self::find_t(v1, v0, camera);
            (
                Some(v1),
                Some(v2),
                Some(Self::lerp(v2, v0, t_20)),
                Some(Self::lerp(v1, v0, t_10)),
            )
        } else if b1 {
            let t_01 = Self::find_t(v0, v1, camera);
            let t_21 = Self::find_t(v2, v1, camera);
            (
                Some(v2),
                Some(v0),
                Some(Self::lerp(v0, v1, t_01)),
                Some(Self::lerp(v2, v1, t_21)),
            )
        } else if b2 {
            let t_12 = Self::find_t(v1, v2, camera);
            let t_02 = Self::find_t(v0, v2, camera);
            (
                Some(v0),
                Some(v1),
                Some(Self::lerp(v1, v2, t_12)),
                Some(Self::lerp(v0, v2, t_02)),
            )
        } else {
            (Some(v0), Some(v1), Some(v2), None)
        }
    }

    /// Maps a normalized-device-coordinate point to screen coordinates:
    /// x and y from `[-1, 1]` to pixels, depth to `[0, 1]`.
    fn viewport_transform(&self, point: Vec4) -> (r: ScreenVertex)
        requires
            i32::MIN <= viewport_coord(point.x as int, self.draw_buffer.buffer_width as int)
                <= i32::MAX,
            i32::MIN <= viewport_coord(point.y as int, self.draw_buffer.buffer_height as int)
                <= i32::MAX,
        ensures
            r.x == viewport_coord(point.x as int, self.draw_buffer.buffer_width as int),
            r.y == viewport_coord(point.y as int, self.draw_buffer.buffer_height as int),
            r.z == tdiv((point.z as int) + 65536, 2),
    {
        let x = Self::viewport_axis(point.x, self.draw_buffer.buffer_width);
        let y = Self::viewport_axis(point.y, self.draw_buffer.buffer_height);
        proof {
            crate::fixed::lemma_tdiv_magnitude((point.z as int) + 65536, 2);
        }
        let z = crate::fixed::div_round_to_zero((point.z as i128) + 65536, 2) as i64;
        ScreenVertex { x, y, z }
    }

    /// One axis of the viewport transform, exact in `i128`.
    fn viewport_axis(x: i64, len: usize) -> (r: i32)
        requires
            i32::MIN <= viewport_coord(x as int, len as int) <= i32::MAX,
        ensures
            r == viewport_coord(x as int, len as int),
    {
        let p = ((x as i128) + 65536) * (len as i128);
        proof {
            crate::fixed::lemma_mul_bound((x as int) + 65536, len as int,
                0x1_0000_0000_0000_0000_0000int, 0x1_0000_0000_0000_0000_0000int);
        }
        let q = crate::fixed::div_round_to_zero(p, 131072);
        q as i32
    }

    /// Maps a clip-space vertex to the screen: perspective divide, then
    /// the viewport transform.
    fn to_screen(&self, v: Vec4) -> (r: ScreenVertex)
        requires
            screenable(v, self.draw_buffer.buffer_width as int,
                self.draw_buffer.buffer_height as int),
        ensures
            r == to_screen_spec(v, self.draw_buffer.buffer_width as int,
                self.draw_buffer.buffer_height as int),
    {
        proof {
            lemma_ndc_fits(v);
        }
        let ndc = v.div(v.w);
        self.viewport_transform(ndc)
    }

    /// Transforms a clip-space triangle to screen space, clipping it
    /// against the near plane on the way: up to four screen vertices (a
    /// fourth exactly when one vertex lay behind the near plane).
    pub fn world_to_screen(&self, v0: Vec4, v1: Vec4, v2: Vec4, camera: &Camera) -> (r: (
        Option<ScreenVertex>,
        Option<ScreenVertex>,
        Option<ScreenVertex>,
        Option<ScreenVertex>,
    ))
        requires
            vec_bounded(v0),
            vec_bounded(v1),
            vec_bounded(v2),
            bounded(camera.z_near as int),
            clip_safe(v0, v1, v2, camera.z_near as int),
            clip_output(v0, v1, v2, camera.z_near as int).0 matches Some(v) ==> screenable(v,
                self.draw_buffer.buffer_width as int, self.draw_buffer.buffer_height as int),
            clip_output(v0, v1, v2, camera.z_near as int).1 matches Some(v) ==> screenable(v,
                self.draw_buffer.buffer_width as int, self.draw_buffer.buffer_height as int),
            clip_output(v0, v1, v2, camera.z_near as int).2 matches Some(v) ==> screenable(v,
                self.draw_buffer.buffer_width as int, self.draw_buffer.buffer_height as int),
            clip_output(v0, v1, v2, camera.z_near as int).3 matches Some(v) ==> screenable(v,
                self.draw_buffer.buffer_width as int, self.draw_buffer.buffer_height as int),
        ensures
            ({
                let co = clip_output(v0, v1, v2, camera.z_near as int);
                let w = self.draw_buffer.buffer_width as int;
                let h = self.draw_buffer.buffer_height as int;
                &&& (co.0 matches Some(v) ==> r.0 == Some(to_screen_spec(v, w, h)))
                &&& (co.0 is None ==> r.0 is None)
                &&& (co.1 matches Some(v) ==> r.1 == Some(to_screen_spec(v, w, h)))
                &&& (co.1 is None ==> r.1 is None)
                &&& (co.2 matches Some(v) ==> r.2 == Some(to_screen_spec(v, w, h)))
                &&& (co.2 is None ==> r.2 is None)
                &&& (co.3 matches Some(v) ==> r.3 == Some(to_screen_spec(v, w, h)))
                &&& (co.3 is None ==> r.3 is None)
            }),
    {
        let (c0, c1, c2, c3) = Self::clip_triangle(v0, v1, v2, camera);
        let s0 = match c0 {
            Some(v) => Some(self.to_screen(v)),
            None => None,
        };
        let s1 = match c1 {
            Some(v) => Some(self.to_screen(v)),
            None => None,
        };
        let s2 = match c2 {
            Some(v) => Some(self.to_screen(v)),
            None => None,
        };
        let s3 = match c3 {
            Some(v) => Some(self.to_screen(v)),
            None => None,
        };
        (s0, s1, s2, s3)
    }
}

/// The smaller of three coordinates.
fn min3(a: i32, b: i32, c: i32) -> (r: i32)
    ensures
        r as int == vstd::math::min(vstd::math::min(a as int, b as int), c as int),
{
    let m = if b < a {
        b
    } else {
        a
    };
    if c < m {
        c
    } else {
        m
    }
}

/// The larger of three coordinates.
fn max3(a: i32, b: i32, c: i32) -> (r: i32)
    ensures
        r as int == vstd::math::max(vstd::math::max(a as int, b as int), c as int),
{
    let m = if b > a {
        b
    } else {
        a
    };
    if c > m {
        c
    } else {
        m
    }
}

/// A barycentric weight, exact in `i128`: the edge value rescaled by
/// `ONE` and divided by the doubled area. Inside the triangle the weight
/// lies in the unit interval.
fn pixel_weight(e: i64, total: i64) -> (w: i64)
    requires
        0 <= e <= total,
        0 < total,
    ensures
        w == weight_of(e as int, total as int),
        0 <= w <= 65536,
{
    let p = crate::fixed::mul_wide(e, ONE);
    let q = crate::fixed::div_round_to_zero(p, total as i128);
    proof {
        if e > 0 {
            vstd::arithmetic::div_mod::lemma_div_pos_is_pos((e as int) * 65536, total as int);
            vstd::arithmetic::div_mod::lemma_div_is_ordered((e as int) * 65536, (total as int)
                * 65536, total as int);
            vstd::arithmetic::div_mod::lemma_div_multiples_vanish(65536, total as int);
        }
    }
    q as i64
}

/// The shaded color of a base color under the interpolated normal `n`:
/// the base mixed toward black by one minus the light intensity.
fn shade(color: Color, n: Vec4) -> (c: Color)
    requires
        vec_bounded(n),
    ensures
        c == shaded_color_spec(color, n),
{
    let m = n.magnitude();
    let intensity: i64 = if m == 0 {
        6553
    } else {
        proof {
            let s = crate::vec4::raw_norm_sq(n);
            let nz = n.z as int;
            assert(s >= 0 && nz * nz <= s) by (nonlinear_arith)
                requires
                    s == (n.x as int) * (n.x as int) + (n.y as int) * (n.y as int) + nz * nz + (
                    n.w as int) * (n.w as int),
            {}
            crate::fixed::lemma_sqrt_floor_def(s);
            assert(-(m as int) <= nz <= m as int) by (nonlinear_arith)
                requires
                    nz * nz <= s,
                    0 <= m as int,
                    s < ((m as int) + 1) * ((m as int) + 1),
            {}
            crate::fixed::lemma_mul_bound(nz, 65536, m as int, 65536);
            crate::fixed::lemma_tdiv_bound(nz * 65536, m as int, (m as int) * 65536);
            vstd::arithmetic::div_mod::lemma_div_multiples_vanish(65536, m as int);
        }
        let d = crate::fixed::fixed_div(n.z, m);
        if d < 6553 {
            6553
        } else {
            d
        }
    };
    Color::mix(color, Color::new(0, 0, 0, 255), ONE - intensity)
}

impl Rasterizer {
    /// Processes one pixel of a triangle: the edge-function inside test,
    /// the strict depth test, and on a hit the depth write and the
    /// shaded color write. Every other pixel is untouched.
    fn shade_pixel(
        &mut self,
        a: ScreenVertex,
        b: ScreenVertex,
        c: ScreenVertex,
        n_a: Vec4,
        n_b: Vec4,
        n_c: Vec4,
        color: Color,
        j: usize,
        i: usize,
    )
        requires
            ras_wf(*old(self)),
            screen_ok(a),
            screen_ok(b),
            screen_ok(c),
            normal_bounded(n_a),
            normal_bounded(n_b),
            normal_bounded(n_c),
            edge_spec(a, b, c) > 0,
            old(self).draw_buffer.buffer_width <= 0x10_0000,
            old(self).draw_buffer.buffer_height <= 0x10_0000,
            j < old(self).draw_buffer.buffer_width,
            i < old(self).draw_buffer.buffer_height,
        ensures
            ras_wf(*final(self)),
            final(self).draw_buffer.buffer_width == old(self).draw_buffer.buffer_width,
            final(self).draw_buffer.buffer_height == old(self).draw_buffer.buffer_height,
            pixel_done(
                TriangleAttrs { a, b, c, na: n_a, nb: n_b, nc: n_c, color },
                old(self).depth_buffer.buffer@,
                old(self).draw_buffer.buffer@,
                final(self).depth_buffer.buffer@,
                final(self).draw_buffer.buffer@,
                old(self).draw_buffer.buffer_width as int,
                old(self).draw_buffer.buffer_height as int,
                j as int,
                i as int,
            ),
            forall|px: int, py: int|
                0 <= px < old(self).draw_buffer.buffer_width && 0 <= py < old(
                    self,
                ).draw_buffer.buffer_height && !(px == j as int && py == i as int) ==> {
                    let idx = #[trigger] flipped_index(
                        old(self).draw_buffer.buffer_height as int,
                        old(self).draw_buffer.buffer_width as int,
                        py,
                        px,
                    );
                    final(self).depth_buffer.buffer@[idx] == old(self).depth_buffer.buffer@[idx]
                        && final(self).draw_buffer.buffer@[idx] == old(
                        self,
                    ).draw_buffer.buffer@[idx]
                },
    {
        let ghost t = TriangleAttrs { a, b, c, na: n_a, nb: n_b, nc: n_c, color };
        let ghost wi = self.draw_buffer.buffer_width as int;
        let ghost hi = self.draw_buffer.buffer_height as int;
        let point = ScreenVertex { x: j as i32, y: i as i32, z: 0 };
        proof {
            assert(point.x as int == j as int && point.y as int == i as int);
            crate::draw_buffer::lemma_flipped_index_in_range(hi, wi, i as int, j as int);
        }
        let (in_trig, z_coord) = Self::in_triangle(a, b, c, point);
        let buffer_value = self.depth_buffer.get(i, j);
        if in_trig && z_coord < buffer_value {
            self.depth_buffer.set(i, j, z_coord);
            let abp = Self::edge_function(a, b, point);
            let bcp = Self::edge_function(b, c, point);
            let cap = Self::edge_function(c, a, point);
            proof {
                lemma_barycentric(a, b, c, j as int, i as int);
            }
            let total = abp + bcp + cap;
            let wa = pixel_weight(bcp, total);
            let wb = pixel_weight(cap, total);
            let wc = pixel_weight(abp, total);
            proof {
                lemma_weighted_component(n_a.x as int, wa as int);
                lemma_weighted_component(n_a.y as int, wa as int);
                lemma_weighted_component(n_a.z as int, wa as int);
                lemma_weighted_component(n_a.w as int, wa as int);
                lemma_weighted_component(n_b.x as int, wb as int);
                lemma_weighted_component(n_b.y as int, wb as int);
                lemma_weighted_component(n_b.z as int, wb as int);
                lemma_weighted_component(n_b.w as int, wb as int);
                lemma_weighted_component(n_c.x as int, wc as int);
                lemma_weighted_component(n_c.y as int, wc as int);
                lemma_weighted_component(n_c.z as int, wc as int);
                lemma_weighted_component(n_c.w as int, wc as int);
            }
            let n = n_a.scale(wa).add(n_b.scale(wb)).add(n_c.scale(wc));
            proof {
                let pxi = j as int;
                let pyi = i as int;
                assert(abp as int == edge_at(a, b, pxi, pyi));
                assert(bcp as int == edge_at(b, c, pxi, pyi));
                assert(cap as int == edge_at(c, a, pxi, pyi));
                assert(total as int == edge_at(a, b, pxi, pyi) + edge_at(b, c, pxi, pyi) + edge_at(
                    c,
                    a,
                    pxi,
                    pyi,
                ));
                assert(wa as int == weight_of(edge_at(b, c, pxi, pyi), total as int));
                assert(wb as int == weight_of(edge_at(c, a, pxi, pyi), total as int));
                assert(wc as int == weight_of(edge_at(a, b, pxi, pyi), total as int));
                assert(n.x as int == fmul(n_a.x as int, wa as int) + fmul(n_b.x as int, wb as int)
                    + fmul(n_c.x as int, wc as int));
                assert(n == tri_pixel_normal(t, pxi, pyi));
            }
            let shaded = shade(color, n);
            self.draw_buffer.set(i, j, shaded);
            proof {
                assert forall|px: int, py: int|
                    0 <= px < wi && 0 <= py < hi && !(px == j as int && py == i as int) implies {
                    let idx = #[trigger] flipped_index(hi, wi, py, px);
                    self.depth_buffer.buffer@[idx] == old(self).depth_buffer.buffer@[idx]
                        && self.draw_buffer.buffer@[idx] == old(self).draw_buffer.buffer@[idx]
                } by {
                    crate::draw_buffer::lemma_flipped_index_injective(hi, wi, py, px, i as int,
                        j as int);
                    crate::draw_buffer::lemma_flipped_index_in_range(hi, wi, py, px);
                }
            }
        }
    }

    /// Fills a screen triangle of positive doubled area: scans its
    /// clamped bounding box and, at every pixel whose center lies inside
    /// per the edge-function test and whose interpolated depth passes
    /// the strict depth test, writes that depth and the shaded color.
    /// Every other pixel of both buffers is untouched.
    pub fn fill_triangle(
        &mut self,
        a: ScreenVertex,
        b: ScreenVertex,
        c: ScreenVertex,
        n_a: Vec4,
        n_b: Vec4,
        n_c: Vec4,
        color: Color,
    )
        requires
            ras_wf(*old(self)),
            screen_ok(a),
            screen_ok(b),
            screen_ok(c),
            normal_bounded(n_a),
            normal_bounded(n_b),
            normal_bounded(n_c),
            edge_spec(a, b, c) > 0,
            old(self).draw_buffer.buffer_width <= 0x10_0000,
            old(self).draw_buffer.buffer_height <= 0x10_0000,
        ensures
            ras_wf(*final(self)),
            final(self).draw_buffer.buffer_width == old(self).draw_buffer.buffer_width,
            final(self).draw_buffer.buffer_height == old(self).draw_buffer.buffer_height,
            forall|px: int, py: int|
                0 <= px < old(self).draw_buffer.buffer_width && 0 <= py < old(
                    self,
                ).draw_buffer.buffer_height ==> #[trigger] pixel_done(
                    TriangleAttrs { a, b, c, na: n_a, nb: n_b, nc: n_c, color },
                    old(self).depth_buffer.buffer@,
                    old(self).draw_buffer.buffer@,
                    final(self).depth_buffer.buffer@,
                    final(self).draw_buffer.buffer@,
                    old(self).draw_buffer.buffer_width as int,
                    old(self).draw_buffer.buffer_height as int,
                    px,
                    py,
                ),
    {
        let ghost t = TriangleAttrs { a, b, c, na: n_a, nb: n_b, nc: n_c, color };
        let ghost d0 = self.depth_buffer.buffer@;
        let ghost c0 = self.draw_buffer.buffer@;
        let width = self.draw_buffer.buffer_width();
        let height = self.draw_buffer.buffer_height();
        let ghost wi = width as int;
        let ghost hi = height as int;

        let min_x = min3(a.x, b.x, c.x);
        let max_x = max3(a.x, b.x, c.x);
        let min_y = min3(a.y, b.y, c.y);
        let max_y = max3(a.y, b.y, c.y);

        let lo_x = clamp_to(min_x as i64, width);
        let hi_x = clamp_to((max_x as i64) + 1, width);
        let lo_y = clamp_to(min_y as i64, height);
        let hi_y = clamp_to((max_y as i64) + 1, height);

        let mut i = lo_y;
        while i < hi_y
            invariant
                ras_wf(*self),
                self.draw_buffer.buffer_width == width,
                self.draw_buffer.buffer_height == height,
                wi == width as int,
                hi == height as int,
                width <= 0x10_0000,
                height <= 0x10_0000,
                screen_ok(a) && screen_ok(b) && screen_ok(c),
                normal_bounded(n_a) && normal_bounded(n_b) && normal_bounded(n_c),
                edge_spec(a, b, c) > 0,
                t == (TriangleAttrs { a, b, c, na: n_a, nb: n_b, nc: n_c, color }),
                lo_y <= i <= hi_y,
                hi_y <= height,
                lo_x <= hi_x,
                hi_x <= width,
                forall|px: int, py: int|
                    0 <= px < wi && 0 <= py < hi && lo_y <= py < i && lo_x <= px < hi_x
                        ==> #[trigger] pixel_done(t, d0, c0, self.depth_buffer.buffer@,
                        self.draw_buffer.buffer@, wi, hi, px, py),
                forall|px: int, py: int|
                    0 <= px < wi && 0 <= py < hi && !(lo_y <= py < i && lo_x <= px < hi_x) ==> {
                        let idx = #[trigger] flipped_index(hi, wi, py, px);
                        self.depth_buffer.buffer@[idx] == d0[idx]
                            && self.draw_buffer.buffer@[idx] == c0[idx]
                    },
            decreases hi_y - i,
        {
            let mut j = lo_x;
            while j < hi_x
                invariant
                    ras_wf(*self),
                    self.draw_buffer.buffer_width == width,
                    self.draw_buffer.buffer_height == height,
                    wi == width as int,
                    hi == height as int,
                    width <= 0x10_0000,
                    height <= 0x10_0000,
                    screen_ok(a) && screen_ok(b) && screen_ok(c),
                    normal_bounded(n_a) && normal_bounded(n_b) && normal_bounded(n_c),
                    edge_spec(a, b, c) > 0,
                    t == (TriangleAttrs { a, b, c, na: n_a, nb: n_b, nc: n_c, color }),
                    lo_y <= i < hi_y,
                    hi_y <= height,
                    lo_x <= j <= hi_x,
                    hi_x <= width,
                    forall|px: int, py: int|
                        0 <= px < wi && 0 <= py < hi && ((lo_y <= py < i && lo_x <= px < hi_x) || (
                        py == i as int && lo_x <= px < j)) ==> #[trigger] pixel_done(t, d0, c0,
                            self.depth_buffer.buffer@, self.draw_buffer.buffer@, wi, hi, px, py),
                    forall|px: int, py: int|
                        0 <= px < wi && 0 <= py < hi && !((lo_y <= py < i && lo_x <= px < hi_x) || (
                        py == i as int && lo_x <= px < j)) ==> {
                            let idx = #[trigger] flipped_index(hi, wi, py, px);
                            self.depth_buffer.buffer@[idx] == d0[idx]
                                && self.draw_buffer.buffer@[idx] == c0[idx]
                        },
                decreases hi_x - j,
            {
                let ghost d_prev = self.depth_buffer.buffer@;
                let ghost c_prev = self.draw_buffer.buffer@;
                self.shade_pixel(a, b, c, n_a, n_b, n_c, color, j, i);
                proof {
                    let pxi = j as int;
                    let pyi = i as int;
                    let idx = flipped_index(hi, wi, pyi, pxi);
                    crate::draw_buffer::lemma_flipped_index_in_range(hi, wi, pyi, pxi);
                    // The pixel was untouched before this step, so its
                    // transition is also a transition from the entry state.
                    assert(d_prev[idx] == d0[idx] && c_prev[idx] == c0[idx]);
                    assert(pixel_done(t, d0, c0, self.depth_buffer.buffer@,
                        self.draw_buffer.buffer@, wi, hi, pxi, pyi));
                    assert forall|px: int, py: int|
                        0 <= px < wi && 0 <= py < hi && !(px == pxi && py == pyi) implies {
                        let idx2 = #[trigger] flipped_index(hi, wi, py, px);
                        self.depth_buffer.buffer@[idx2] == d_prev[idx2]
                            && self.draw_buffer.buffer@[idx2] == c_prev[idx2]
                    } by {}
                    assert forall|px: int, py: int|
                        0 <= px < wi && 0 <= py < hi && ((lo_y <= py < i && lo_x <= px < hi_x) || (
                        py == pyi && lo_x <= px < j + 1)) implies #[trigger] pixel_done(t, d0, c0,
                        self.depth_buffer.buffer@, self.draw_buffer.buffer@, wi, hi, px, py) by {
                        if !(px == pxi && py == pyi) {
                            crate::draw_buffer::lemma_flipped_index_injective(hi, wi, py, px, pyi,
                                pxi);
                            crate::draw_buffer::lemma_flipped_index_in_range(hi, wi, py, px);
                            assert(pixel_done(t, d0, c0, d_prev, c_prev, wi, hi, px, py));
                        }
                    }
                }
                j = j + 1;
            }
            i = i + 1;
        }
        proof {
            assert forall|px: int, py: int| 0 <= px < wi && 0 <= py < hi implies #[trigger] pixel_done(
                t,
                d0,
                c0,
                self.depth_buffer.buffer@,
                self.draw_buffer.buffer@,
                wi,
                hi,
                px,
                py,
            ) by {
                if !(lo_y <= py < i && lo_x <= px < hi_x) {
                    // An unvisited pixel is untouched; it also lies
                    // outside the triangle, since an inside pixel lies
                    // within the clamped bounding box.
                    if inside_spec(a, b, c, px, py) {
                        lemma_inside_bbox(a, b, c, px, py);
                    }
                }
            }
        }
    }
}

impl Rasterizer {
    /// Draws one screen triangle with back-face culling: a triangle
    /// whose signed doubled area is not positive (clockwise or
    /// degenerate winding) is discarded and the buffers are untouched;
    /// otherwise it is filled as by [`Rasterizer::fill_triangle`].
    pub fn draw_triangle(
        &mut self,
        p0: ScreenVertex,
        p1: ScreenVertex,
        p2: ScreenVertex,
        n_a: Vec4,
        n_b: Vec4,
        n_c: Vec4,
        color: Color,
    )
        requires
            ras_wf(*old(self)),
            screen_ok(p0),
            screen_ok(p1),
            screen_ok(p2),
            normal_bounded(n_a),
            normal_bounded(n_b),
            normal_bounded(n_c),
            old(self).draw_buffer.buffer_width <= 0x10_0000,
            old(self).draw_buffer.buffer_height <= 0x10_0000,
        ensures
            ras_wf(*final(self)),
            final(self).draw_buffer.buffer_width == old(self).draw_buffer.buffer_width,
            final(self).draw_buffer.buffer_height == old(self).draw_buffer.buffer_height,
            edge_spec(p0, p1, p2) <= 0 ==> final(self).depth_buffer.buffer@ == old(
                self,
            ).depth_buffer.buffer@ && final(self).draw_buffer.buffer@ == old(
                self,
            ).draw_buffer.buffer@,
            edge_spec(p0, p1, p2) > 0 ==> forall|px: int, py: int|
                0 <= px < old(self).draw_buffer.buffer_width && 0 <= py < old(
                    self,
                ).draw_buffer.buffer_height ==> #[trigger] pixel_done(
                    TriangleAttrs { a: p0, b: p1, c: p2, na: n_a, nb: n_b, nc: n_c, color },
                    old(self).depth_buffer.buffer@,
                    old(self).draw_buffer.buffer@,
                    final(self).depth_buffer.buffer@,
                    final(self).draw_buffer.buffer@,
                    old(self).draw_buffer.buffer_width as int,
                    old(self).draw_buffer.buffer_height as int,
                    px,
                    py,
                ),
    {
        let area = Self::edge_function(p0, p1, p2);
        if area <= 0 {
            return ;
        }
        self.fill_triangle(p0, p1, p2, n_a, n_b, n_c, color);
    }
}

/// The pixel row a storage index belongs to (rows count from the
/// bottom; storage is vertically flipped).
pub open spec fn row_of(idx: int, width: int, height: int) -> int {
    height - 1 - idx / width
}

/// The pixel column a storage index belongs to.
pub open spec fn col_of(idx: int, width: int) -> int {
    idx % width
}

/// Every storage index is the flipped index of exactly the pixel given
/// by [`row_of`] and [`col_of`].
pub proof fn lemma_index_pixel(width: int, height: int, k: int)
    requires
        0 < width,
        0 <= k < width * height,
    ensures
        0 <= col_of(k, width) < width,
        0 <= row_of(k, width, height) < height,
        flipped_index(height, width, row_of(k, width, height), col_of(k, width)) == k,
{
    vstd::arithmetic::div_mod::lemma_fundamental_div_mod(k, width);
    vstd::arithmetic::div_mod::lemma_mod_bound(k, width);
    vstd::arithmetic::div_mod::lemma_div_pos_is_pos(k, width);
    assert(k / width < height) by (nonlinear_arith)
        requires
            k == width * (k / width) + k % width,
            0 <= k % width < width,
            k < width * height,
            0 <= k / width,
    {}
    assert((height - row_of(k, width, height) - 1) * width == (k / width) * width);
    assert((k / width) * width + k % width == k) by (nonlinear_arith)
        requires
            k == width * (k / width) + k % width,
    {}
}

/// The depth buffer after one triangle fill, pixel by pixel: at every
/// hit the interpolated depth, elsewhere the old entry.
pub open spec fn fill_depth_spec(t: TriangleAttrs, d: Seq<i64>, width: int, height: int) -> Seq<
    i64,
> {
    Seq::new(
        d.len(),
        |k: int|
            {
                let px = col_of(k, width);
                let py = row_of(k, width, height);
                if tri_hits(t, px, py, d[k] as int) {
                    depth_at(t.a, t.b, t.c, px, py) as i64
                } else {
                    d[k]
                }
            },
    )
}

/// The color buffer after one triangle fill, pixel by pixel: at every
/// hit the shaded packed color, elsewhere the old entry.
pub open spec fn fill_draw_spec(
    t: TriangleAttrs,
    d: Seq<i64>,
    c: Seq<u32>,
    width: int,
    height: int,
) -> Seq<u32> {
    Seq::new(
        c.len(),
        |k: int|
            {
                let px = col_of(k, width);
                let py = row_of(k, width, height);
                if tri_hits(t, px, py, d[k] as int) {
                    tri_shaded_packed(t, px, py) as u32
                } else {
                    c[k]
                }
            },
    )
}

/// The per-pixel account of a fill pins the buffers down: they equal the
/// pointwise functions above.
pub proof fn lemma_fill_functional(
    t: TriangleAttrs,
    d0: Seq<i64>,
    c0: Seq<u32>,
    d1: Seq<i64>,
    c1: Seq<u32>,
    width: int,
    height: int,
)
    requires
        0 <= width,
        0 <= height,
        d0.len() == width * height,
        c0.len() == width * height,
        d1.len() == d0.len(),
        c1.len() == c0.len(),
        forall|px: int, py: int|
            0 <= px < width && 0 <= py < height ==> #[trigger] pixel_done(t, d0, c0, d1, c1,
                width, height, px, py),
    ensures
        d1 == fill_depth_spec(t, d0, width, height),
        c1 == fill_draw_spec(t, d0, c0, width, height),
{
    assert forall|k: int| 0 <= k < d0.len() implies d1[k] == fill_depth_spec(t, d0, width, height)[k]
        && c1[k] == fill_draw_spec(t, d0, c0, width, height)[k] by {
        if width <= 0 {
            assert(width * height <= 0) by (nonlinear_arith)
                requires
                    width <= 0,
                    0 <= height,
            {}
        }
        lemma_index_pixel(width, height, k);
        let px = col_of(k, width);
        let py = row_of(k, width, height);
        assert(pixel_done(t, d0, c0, d1, c1, width, height, px, py));
    }
    assert(d1 =~= fill_depth_spec(t, d0, width, height));
    assert(c1 =~= fill_draw_spec(t, d0, c0, width, height));
}

/// A triangle fill never raises a pixel's stored depth: a hit writes a
/// strictly smaller depth and a miss leaves the entry alone.
pub proof fn lemma_fill_depth_monotone(
    t: TriangleAttrs,
    d0: Seq<i64>,
    c0: Seq<u32>,
    d1: Seq<i64>,
    c1: Seq<u32>,
    width: int,
    height: int,
)
    requires
        forall|px: int, py: int|
            0 <= px < width && 0 <= py < height ==> #[trigger] pixel_done(t, d0, c0, d1, c1,
                width, height, px, py),
    ensures
        forall|px: int, py: int|
            0 <= px < width && 0 <= py < height ==> d1[#[trigger] flipped_index(height, width, py,
                px)] <= d0[flipped_index(height, width, py, px)],
{
    assert forall|px: int, py: int| 0 <= px < width && 0 <= py < height implies d1[#[trigger] flipped_index(
        height,
        width,
        py,
        px,
    )] <= d0[flipped_index(height, width, py, px)] by {
        assert(pixel_done(t, d0, c0, d1, c1, width, height, px, py));
    }
}

/// Depth-test order independence: filling the same two triangles in
/// either order leaves identical color and depth buffers, provided the
/// triangles' interpolated depths differ at every pixel that lies inside
/// both. The four buffer pairs are the states after each fill: first
/// `t1` then `t2` (`d1`/`c1`, then `d12`/`c12`), and first `t2` then
/// `t1` (`d2`/`c2`, then `d21`/`c21`).
pub proof fn lemma_fill_order_independent(
    t1: TriangleAttrs,
    t2: TriangleAttrs,
    d0: Seq<i64>,
    c0: Seq<u32>,
    d1: Seq<i64>,
    c1: Seq<u32>,
    d12: Seq<i64>,
    c12: Seq<u32>,
    d2: Seq<i64>,
    c2: Seq<u32>,
    d21: Seq<i64>,
    c21: Seq<u32>,
    width: int,
    height: int,
)
    requires
        0 <= width,
        0 <= height,
        d0.len() == width * height,
        c0.len() == d0.len(),
        d1.len() == d0.len() && c1.len() == d0.len(),
        d12.len() == d0.len() && c12.len() == d0.len(),
        d2.len() == d0.len() && c2.len() == d0.len(),
        d21.len() == d0.len() && c21.len() == d0.len(),
        forall|px: int, py: int|
            0 <= px < width && 0 <= py < height ==> #[trigger] pixel_done(t1, d0, c0, d1, c1,
                width, height, px, py),
        forall|px: int, py: int|
            0 <= px < width && 0 <= py < height ==> #[trigger] pixel_done(t2, d1, c1, d12, c12,
                width, height, px, py),
        forall|px: int, py: int|
            0 <= px < width && 0 <= py < height ==> #[trigger] pixel_done(t2, d0, c0, d2, c2,
                width, height, px, py),
        forall|px: int, py: int|
            0 <= px < width && 0 <= py < height ==> #[trigger] pixel_done(t1, d2, c2, d21, c21,
                width, height, px, py),
        forall|px: int, py: int|
            0 <= px < width && 0 <= py < height && inside_spec(t1.a, t1.b, t1.c, px, py)
                && inside_spec(t2.a, t2.b, t2.c, px, py) ==> #[trigger] depth_at(t1.a, t1.b, t1.c,
                px, py) != #[trigger] depth_at(t2.a, t2.b, t2.c, px, py),
    ensures
        d12 == d21,
        c12 == c21,
{
    assert forall|k: int| 0 <= k < d0.len() implies d12[k] == d21[k] && c12[k] == c21[k] by {
        lemma_index_pixel(width, height, k);
        let px = col_of(k, width);
        let py = row_of(k, width, height);
        assert(pixel_done(t1, d0, c0, d1, c1, width, height, px, py));
        assert(pixel_done(t2, d1, c1, d12, c12, width, height, px, py));
        assert(pixel_done(t2, d0, c0, d2, c2, width, height, px, py));
        assert(pixel_done(t1, d2, c2, d21, c21, width, height, px, py));
        let z1 = depth_at(t1.a, t1.b, t1.c, px, py);
        let z2 = depth_at(t2.a, t2.b, t2.c, px, py);
        assert(inside_spec(t1.a, t1.b, t1.c, px, py) && inside_spec(t2.a, t2.b, t2.c, px, py)
            ==> z1 != z2);
    }
    assert(d12 =~= d21);
    assert(c12 =~= c21);
}

/// The `w` value that marks a direction vector (as opposed to a point):
/// the smallest representable stand-in for a tiny epsilon.
pub const DIRECTION_MARK: i64 = 7;

/// The projection-times-view matrix of the scene's camera.
pub open spec fn scene_pv(s: Scene) -> Matrix4x4 {
    mat_mul_spec(projection_spec(s.camera), view_matrix_spec(s.camera.model))
}

/// The position, in the scene's mesh list, of the mesh that object `o`
/// references.
pub open spec fn obj_mesh_index(s: Scene, o: int) -> int {
    s.objects@[o].object_id as int
}

/// The vertex index of corner `j` of triangle `k` of object `o`.
pub open spec fn tri_vertex_index(s: Scene, o: int, k: int, j: int) -> int {
    s.meshes@[obj_mesh_index(s, o)].indices@[3 * k + j] as int
}

/// Corner `j` of triangle `k` of object `o`, in world space.
pub open spec fn tri_world_vertex(s: Scene, o: int, k: int, j: int) -> Vec4 {
    mat_mul_vec_spec(
        model_matrix_spec(s.objects@[o].model_matrix),
        s.meshes@[obj_mesh_index(s, o)].vertices@[tri_vertex_index(s, o, k, j)],
    )
}

/// Corner `j` of triangle `k` of object `o`, in clip space.
pub open spec fn tri_clip_vertex(s: Scene, o: int, k: int, j: int) -> Vec4 {
    mat_mul_vec_spec(scene_pv(s), tri_world_vertex(s, o, k, j))
}

/// The shading normal at corner `j` of triangle `k` of object `o`: the
/// mesh normal transformed by the model matrix and renormalized — left
/// untransformed under a non-uniform scale, where the direct matrix
/// would be wrong and the inverse transpose is not computed — or, for a
/// mesh without normals, the normalized flat face normal shared by all
/// three corners, with a direction mark as `w`.
pub open spec fn tri_shading_normal(s: Scene, o: int, k: int, j: int) -> Vec4 {
    let obj = s.objects@[o];
    let mesh = s.meshes@[obj_mesh_index(s, o)];
    if mesh.normals@.len() > 0 {
        let n = mesh.normals@[tri_vertex_index(s, o, k, j)];
        if !non_uniform_scale(obj.model_matrix) {
            norm_spec(mat_mul_vec_spec(model_matrix_spec(obj.model_matrix), n))
        } else {
            n
        }
    } else {
        let e0 = sub_spec(tri_world_vertex(s, o, k, 1), tri_world_vertex(s, o, k, 0));
        let e1 = sub_spec(tri_world_vertex(s, o, k, 2), tri_world_vertex(s, o, k, 0));
        let fl = norm_spec(cross_spec(e0, e1));
        Vec4 { x: fl.x, y: fl.y, z: fl.z, w: DIRECTION_MARK }
    }
}

/// The machine-limit conditions under which one triangle of the scene
/// renders without overflow or division by zero: vertices, transforms
/// and clip results in range, clippable edges, mappable screen
/// coordinates, and usable normals.
pub open spec fn per_triangle_ok(s: Scene, o: int, k: int, width: int, height: int) -> bool {
    let mesh = s.meshes@[obj_mesh_index(s, o)];
    let zn = s.camera.z_near as int;
    let c0 = tri_clip_vertex(s, o, k, 0);
    let c1 = tri_clip_vertex(s, o, k, 1);
    let c2 = tri_clip_vertex(s, o, k, 2);
    let co = clip_output(c0, c1, c2, zn);
    &&& vec_bounded(mesh.vertices@[tri_vertex_index(s, o, k, 0)])
    &&& vec_bounded(mesh.vertices@[tri_vertex_index(s, o, k, 1)])
    &&& vec_bounded(mesh.vertices@[tri_vertex_index(s, o, k, 2)])
    &&& vec_bounded(tri_world_vertex(s, o, k, 0))
    &&& vec_bounded(tri_world_vertex(s, o, k, 1))
    &&& vec_bounded(tri_world_vertex(s, o, k, 2))
    &&& vec_bounded(c0) && vec_bounded(c1) && vec_bounded(c2)
    &&& clip_safe(c0, c1, c2, zn)
    &&& (co.0 matches Some(v) ==> screenable(v, width, height) && screen_ok(
        to_screen_spec(v, width, height),
    ))
    &&& (co.1 matches Some(v) ==> screenable(v, width, height) && screen_ok(
        to_screen_spec(v, width, height),
    ))
    &&& (co.2 matches Some(v) ==> screenable(v, width, height) && screen_ok(
        to_screen_spec(v, width, height),
    ))
    &&& (co.3 matches Some(v) ==> screenable(v, width, height) && screen_ok(
        to_screen_spec(v, width, height),
    ))
    &&& if mesh.normals@.len() > 0 {
        let n0 = mesh.normals@[tri_vertex_index(s, o, k, 0)];
        let n1 = mesh.normals@[tri_vertex_index(s, o, k, 1)];
        let n2 = mesh.normals@[tri_vertex_index(s, o, k, 2)];
        &&& vec_bounded(n0) && vec_bounded(n1) && vec_bounded(n2)
        &&& if !non_uniform_scale(s.objects@[o].model_matrix) {
            let t0 = mat_mul_vec_spec(model_matrix_spec(s.objects@[o].model_matrix), n0);
            let t1 = mat_mul_vec_spec(model_matrix_spec(s.objects@[o].model_matrix), n1);
            let t2 = mat_mul_vec_spec(model_matrix_spec(s.objects@[o].model_matrix), n2);
            &&& vec_bounded(t0) && vec_bounded(t1) && vec_bounded(t2)
            &&& magnitude_spec(t0) != 0 && magnitude_spec(t1) != 0 && magnitude_spec(t2) != 0
        } else {
            normal_bounded(n0) && normal_bounded(n1) && normal_bounded(n2)
        }
    } else {
        let e0 = sub_spec(tri_world_vertex(s, o, k, 1), tri_world_vertex(s, o, k, 0));
        let e1 = sub_spec(tri_world_vertex(s, o, k, 2), tri_world_vertex(s, o, k, 0));
        &&& vec_bounded(e0) && vec_bounded(e1)
        &&& vec_bounded(cross_spec(e0, e1))
        &&& magnitude_spec(cross_spec(e0, e1)) != 0
    }
}

/// The machine-limit conditions under which a camera's view and
/// projection matrices exist and stay in range.
pub open spec fn camera_renderable(c: Camera) -> bool {
    &&& c.model.trig.wf()
    &&& vec_bounded(c.model.translation)
    &&& bounded(c.z_near as int) && bounded(c.z_far as int)
    &&& c.z_near < c.z_far
    &&& bounded(c.aspect_ratio as int) && bounded(c.tan_half_fov as int)
    &&& c.tan_half_fov != 0
    &&& fmul(c.aspect_ratio as int, c.tan_half_fov as int) != 0
    &&& i64::MIN <= fdiv(
        crate::camera::proj_depth_num(c),
        (c.z_far as int) - (c.z_near as int),
    ) <= i64::MAX
    &&& mat_bounded(projection_spec(c))
    &&& mat_bounded(view_matrix_spec(c.model))
}

/// The machine-limit conditions on one object's pose.
pub open spec fn object_renderable(mm: crate::matrices::ModelMatrix) -> bool {
    &&& mm.trig.wf()
    &&& vec_bounded(mm.scale)
    &&& mat_bounded(model_matrix_spec(mm))
}

/// The machine-limit conditions under which a whole scene renders: a
/// well-formed scene, a camera whose matrices exist and stay in range,
/// bounded object transforms, and [`per_triangle_ok`] for every triangle
/// of every object.
pub open spec fn scene_renderable(s: Scene, width: int, height: int) -> bool {
    &&& s.wf()
    &&& camera_renderable(s.camera)
    &&& mat_bounded(scene_pv(s))
    &&& forall|o: int|
        0 <= o < s.objects@.len() ==> object_renderable(
            (#[trigger] s.objects@[o]).model_matrix,
        )
    &&& forall|o: int, k: int|
        0 <= o < s.objects@.len() && 0 <= k < s.meshes@[obj_mesh_index(s, o)].tri_count()
            ==> #[trigger] per_triangle_ok(s, o, k, width, height)
}

/// The near-plane clip result of triangle `k` of object `o`.
pub open spec fn tri_clip_result(s: Scene, o: int, k: int) -> (
    Option<Vec4>,
    Option<Vec4>,
    Option<Vec4>,
    Option<Vec4>,
) {
    clip_output(
        tri_clip_vertex(s, o, k, 0),
        tri_clip_vertex(s, o, k, 1),
        tri_clip_vertex(s, o, k, 2),
        s.camera.z_near as int,
    )
}

/// The first screen triangle that triangle `k` of object `o` yields,
/// when clipping kept it: the first three clip vertices mapped to the
/// screen, the three shading normals in corner order, and the palette
/// color assigned cyclically by triangle index.
pub open spec fn tri_attrs_first(
    s: Scene,
    colors: Seq<Color>,
    o: int,
    k: int,
    width: int,
    height: int,
) -> TriangleAttrs {
    let co = tri_clip_result(s, o, k);
    TriangleAttrs {
        a: to_screen_spec(co.0->Some_0, width, height),
        b: to_screen_spec(co.1->Some_0, width, height),
        c: to_screen_spec(co.2->Some_0, width, height),
        na: tri_shading_normal(s, o, k, 0),
        nb: tri_shading_normal(s, o, k, 1),
        nc: tri_shading_normal(s, o, k, 2),
        color: colors[k % (colors.len() as int)],
    }
}

/// The second screen triangle, when clipping split a quadrilateral off:
/// it shares the edge from the first vertex to the third and takes the
/// fourth clip vertex as its own; its last normal is a placeholder, as
/// no attribute-correct normal is interpolated across a clipped edge.
pub open spec fn tri_attrs_second(
    s: Scene,
    colors: Seq<Color>,
    o: int,
    k: int,
    width: int,
    height: int,
) -> TriangleAttrs {
    let co = tri_clip_result(s, o, k);
    let first = tri_attrs_first(s, colors, o, k, width, height);
    TriangleAttrs {
        a: first.a,
        b: first.c,
        c: to_screen_spec(co.3->Some_0, width, height),
        na: first.na,
        nb: first.nc,
        nc: Vec4 { x: ONE, y: ONE, z: ONE, w: DIRECTION_MARK },
        color: first.color,
    }
}

/// What one triangle of the scene does to the buffer pair: nothing when
/// clipping culled it or the first screen triangle does not wind
/// counter-clockwise; otherwise one fill, and a second for the
/// quadrilateral's second triangle when it exists and winds
/// counter-clockwise.
pub open spec fn scene_tri_step(
    s: Scene,
    colors: Seq<Color>,
    o: int,
    k: int,
    d: Seq<i64>,
    c: Seq<u32>,
    width: int,
    height: int,
) -> (Seq<i64>, Seq<u32>) {
    let co = tri_clip_result(s, o, k);
    if co.0 is Some && co.1 is Some && co.2 is Some {
        let t1 = tri_attrs_first(s, colors, o, k, width, height);
        if edge_spec(t1.a, t1.b, t1.c) > 0 {
            let d1 = fill_depth_spec(t1, d, width, height);
            let c1 = fill_draw_spec(t1, d, c, width, height);
            if co.3 is Some {
                let t2 = tri_attrs_second(s, colors, o, k, width, height);
                if edge_spec(t2.a, t2.b, t2.c) > 0 {
                    (fill_depth_spec(t2, d1, width, height), fill_draw_spec(t2, d1, c1, width,
                        height))
                } else {
                    (d1, c1)
                }
            } else {
                (d1, c1)
            }
        } else {
            (d, c)
        }
    } else {
        (d, c)
    }
}

/// The buffers after the first `k` triangles of object `o`, in index
/// order.
pub open spec fn render_tris_upto(
    s: Scene,
    colors: Seq<Color>,
    o: int,
    k: int,
    d: Seq<i64>,
    c: Seq<u32>,
    width: int,
    height: int,
) -> (Seq<i64>, Seq<u32>)
    decreases k,
{
    if k <= 0 {
        (d, c)
    } else {
        let prev = render_tris_upto(s, colors, o, k - 1, d, c, width, height);
        scene_tri_step(s, colors, o, k - 1, prev.0, prev.1, width, height)
    }
}

/// The buffers after the first `o` objects, in list order.
pub open spec fn render_objs_upto(
    s: Scene,
    colors: Seq<Color>,
    o: int,
    d: Seq<i64>,
    c: Seq<u32>,
    width: int,
    height: int,
) -> (Seq<i64>, Seq<u32>)
    decreases o,
{
    if o <= 0 {
        (d, c)
    } else {
        let prev = render_objs_upto(s, colors, o - 1, d, c, width, height);
        render_tris_upto(s, colors, o - 1, s.meshes@[obj_mesh_index(s, o - 1)].tri_count() as int,
            prev.0, prev.1, width, height)
    }
}

/// The whole frame: every object in list order, within each object every
/// triangle in index order, each applying [`scene_tri_step`].
pub open spec fn render_scene_spec(
    s: Scene,
    colors: Seq<Color>,
    d: Seq<i64>,
    c: Seq<u32>,
    width: int,
    height: int,
) -> (Seq<i64>, Seq<u32>) {
    render_objs_upto(s, colors, s.objects@.len() as int, d, c, width, height)
}

/// Whether a scalar is within the coordinate range, executably.
fn bounded_check(v: i64) -> (r: bool)
    ensures
        r == bounded(v as int),
{
    -COORD_LIMIT <= v && v <= COORD_LIMIT
}

/// Whether every component of a vector is within the coordinate range.
fn vec_bounded_check(v: Vec4) -> (r: bool)
    ensures
        r == vec_bounded(v),
{
    bounded_check(v.x) && bounded_check(v.y) && bounded_check(v.z) && bounded_check(v.w)
}

/// Whether every component of a normal is within the normal range.
fn normal_bounded_check(v: Vec4) -> (r: bool)
    ensures
        r == normal_bounded(v),
{
    -NORMAL_LIMIT <= v.x && v.x <= NORMAL_LIMIT && -NORMAL_LIMIT <= v.y && v.y <= NORMAL_LIMIT
        && -NORMAL_LIMIT <= v.z && v.z <= NORMAL_LIMIT && -NORMAL_LIMIT <= v.w && v.w
        <= NORMAL_LIMIT
}

/// Whether stored trigonometric values have magnitude at most `ONE`.
fn trig_wf_check(t: crate::matrices::TrigAngles) -> (r: bool)
    ensures
        r == t.wf(),
{
    -ONE <= t.sin_x && t.sin_x <= ONE && -ONE <= t.cos_x && t.cos_x <= ONE && -ONE <= t.sin_y
        && t.sin_y <= ONE && -ONE <= t.cos_y && t.cos_y <= ONE && -ONE <= t.sin_z && t.sin_z <= ONE
        && -ONE <= t.cos_z && t.cos_z <= ONE
}

/// Whether every matrix entry is within the coordinate range.
fn mat_bounded_check(m: Matrix4x4) -> (r: bool)
    ensures
        r == mat_bounded(m),
{
    bounded_check(m.m00) && bounded_check(m.m01) && bounded_check(m.m02) && bounded_check(m.m03)
        && bounded_check(m.m10) && bounded_check(m.m11) && bounded_check(m.m12) && bounded_check(
        m.m13,
    ) && bounded_check(m.m20) && bounded_check(m.m21) && bounded_check(m.m22) && bounded_check(
        m.m23,
    ) && bounded_check(m.m30) && bounded_check(m.m31) && bounded_check(m.m32) && bounded_check(
        m.m33,
    )
}

/// Whether `fdiv(num, den)` stays within `i64`, computed in `i128`.
fn fdiv_fits_check(num: i64, den: i64) -> (r: bool)
    requires
        den != 0,
    ensures
        r == (i64::MIN <= fdiv(num as int, den as int) <= i64::MAX),
{
    let p = crate::fixed::mul_wide(num, ONE);
    let q = crate::fixed::div_round_to_zero(p, den as i128);
    (i64::MIN as i128) <= q && q <= (i64::MAX as i128)
}

/// Executable mirror of [`camera_renderable`].
fn camera_renderable_check(camera: &Camera) -> (r: bool)
    ensures
        r == camera_renderable(*camera),
{
    if !trig_wf_check(camera.model.trig) {
        return false;
    }
    if !vec_bounded_check(camera.model.translation) {
        return false;
    }
    if !(bounded_check(camera.z_near) && bounded_check(camera.z_far)) {
        return false;
    }
    if !(camera.z_near < camera.z_far) {
        return false;
    }
    if !(bounded_check(camera.aspect_ratio) && bounded_check(camera.tan_half_fov)) {
        return false;
    }
    if camera.tan_half_fov == 0 {
        return false;
    }
    let at = {
        proof {
            let l = COORD_LIMIT as int;
            crate::fixed::lemma_mul_bound(camera.aspect_ratio as int, camera.tan_half_fov as int,
                l, l);
            crate::fixed::lemma_tdiv_bound((camera.aspect_ratio as int) * (
            camera.tan_half_fov as int), 65536, l * l);
        }
        crate::fixed::fixed_mul(camera.aspect_ratio, camera.tan_half_fov)
    };
    if at == 0 {
        return false;
    }
    let two_far = 2 * camera.z_far;
    let p = crate::fixed::mul_wide(two_far, camera.z_near);
    let q128 = crate::fixed::div_round_to_zero(p, ONE as i128);
    proof {
        let l = COORD_LIMIT as int;
        crate::fixed::lemma_mul_bound(two_far as int, camera.z_near as int, 2 * l, l);
        crate::fixed::lemma_tdiv_bound(p as int, 65536, 2 * l * l);
    }
    let q = q128 as i64;
    if !fdiv_fits_check(-q, camera.z_far - camera.z_near) {
        return false;
    }
    let proj = camera.get_projection_matrix();
    if !mat_bounded_check(proj) {
        return false;
    }
    let view = camera.get_view_matrix();
    mat_bounded_check(view)
}

/// Executable mirror of [`Mesh::wf`].
fn mesh_wf_check(mesh: &Mesh) -> (r: bool)
    ensures
        r == mesh.wf(),
{
    if mesh.indices.len() % 3 != 0 {
        return false;
    }
    let n_vertices = mesh.vertices.len();
    let mut j: usize = 0;
    while j < mesh.indices.len()
        invariant
            j <= mesh.indices@.len(),
            forall|i: int| 0 <= i < j ==> (mesh.indices@[i] as nat) < mesh.vertices@.len(),
            n_vertices == mesh.vertices@.len(),
            mesh.indices@.len() % 3 == 0,
        decreases mesh.indices@.len() - j,
    {
        if mesh.indices[j] >= n_vertices {
            proof {
                assert(!((mesh.indices@[j as int] as nat) < mesh.vertices@.len()));
            }
            return false;
        }
        j = j + 1;
    }
    mesh.normals.len() == 0 || mesh.normals.len() == n_vertices
}

/// Executable mirror of [`Scene::wf`].
fn scene_wf_check(scene: &Scene) -> (r: bool)
    ensures
        r == scene.wf(),
{
    let mut o: usize = 0;
    while o < scene.objects.len()
        invariant
            o <= scene.objects@.len(),
            forall|i: int|
                0 <= i < o ==> ((#[trigger] scene.objects@[i]).object_id as nat)
                    < scene.meshes@.len(),
        decreases scene.objects@.len() - o,
    {
        if scene.objects[o].object_id >= scene.meshes.len() {
            proof {
                assert(!((scene.objects@[o as int].object_id as nat) < scene.meshes@.len()));
            }
            return false;
        }
        o = o + 1;
    }
    let mut m: usize = 0;
    while m < scene.meshes.len()
        invariant
            m <= scene.meshes@.len(),
            forall|i: int| 0 <= i < m ==> (#[trigger] scene.meshes@[i]).wf(),
            forall|i: int|
                0 <= i < scene.objects@.len() ==> ((#[trigger] scene.objects@[i]).object_id as nat)
                    < scene.meshes@.len(),
        decreases scene.meshes@.len() - m,
    {
        if !mesh_wf_check(&scene.meshes[m]) {
            proof {
                assert(!(scene.meshes@[m as int]).wf());
            }
            return false;
        }
        m = m + 1;
    }
    true
}

/// Whether a clip-space vertex both maps to the screen and lands within
/// the fill engine's limits, executably.
fn screen_target_check(v: Vec4, width: usize, height: usize) -> (r: bool)
    ensures
        r == (screenable(v, width as int, height as int) && screen_ok(
            to_screen_spec(v, width as int, height as int),
        )),
{
    if v.w == 0 {
        return false;
    }
    if !vec_bounded_check(v) {
        return false;
    }
    proof {
        lemma_ndc_fits(v);
        crate::fixed::lemma_tdiv_magnitude((v.x as int) * 65536, v.w as int);
        crate::fixed::lemma_tdiv_magnitude((v.y as int) * 65536, v.w as int);
        crate::fixed::lemma_tdiv_magnitude((v.z as int) * 65536, v.w as int);
    }
    let nx = crate::fixed::fixed_div(v.x, v.w);
    let ny = crate::fixed::fixed_div(v.y, v.w);
    let nz = crate::fixed::fixed_div(v.z, v.w);
    proof {
        crate::fixed::lemma_mul_bound((nx as int) + 65536, width as int, 0x80_0000_0000_0000int,
            0x1_0000_0000_0000_0000int);
        crate::fixed::lemma_mul_bound((ny as int) + 65536, height as int, 0x80_0000_0000_0000int,
            0x1_0000_0000_0000_0000int);
    }
    let px = ((nx as i128) + 65536) * (width as i128);
    let py = ((ny as i128) + 65536) * (height as i128);
    proof {
        crate::fixed::lemma_tdiv_magnitude(px as int, 131072);
        crate::fixed::lemma_tdiv_magnitude(py as int, 131072);
    }
    let qx = crate::fixed::div_round_to_zero(px, 131072);
    let qy = crate::fixed::div_round_to_zero(py, 131072);
    if !((i32::MIN as i128) <= qx && qx <= (i32::MAX as i128)) {
        return false;
    }
    if !((i32::MIN as i128) <= qy && qy <= (i32::MAX as i128)) {
        return false;
    }
    proof {
        crate::fixed::lemma_tdiv_magnitude((nz as int) + 65536, 2);
    }
    let qz = crate::fixed::div_round_to_zero((nz as i128) + 65536, 2);
    -(SCREEN_LIMIT as i128) <= qx && qx <= (SCREEN_LIMIT as i128) && -(SCREEN_LIMIT as i128) <= qy
        && qy <= (SCREEN_LIMIT as i128) && -(DEPTH_LIMIT as i128) <= qz && qz
        <= (DEPTH_LIMIT as i128)
}

/// Whether the edge `a -> b` can be clipped exactly, executably.
fn clip_edge_ok_check(a: Vec4, b: Vec4, z_near: i64) -> (r: bool)
    requires
        vec_bounded(a),
        vec_bounded(b),
        bounded(z_near as int),
    ensures
        r == clip_edge_ok(a, b, z_near as int),
{
    if b.z == a.z {
        return false;
    }
    let num = -a.z - z_near;
    let p = crate::fixed::mul_wide(num, ONE);
    let t = crate::fixed::div_round_to_zero(p, (b.z - a.z) as i128);
    -(COORD_LIMIT as i128) <= t && t <= (COORD_LIMIT as i128)
}

/// Executable mirror of [`clip_safe`].
fn clip_safe_check(v0: Vec4, v1: Vec4, v2: Vec4, z_near: i64) -> (r: bool)
    requires
        vec_bounded(v0),
        vec_bounded(v1),
        vec_bounded(v2),
        bounded(z_near as int),
    ensures
        r == clip_safe(v0, v1, v2, z_near as int),
{
    let b0 = v0.w < z_near;
    let b1 = v1.w < z_near;
    let b2 = v2.w < z_near;
    if b0 && b1 && b2 {
        true
    } else if b1 && b2 {
        clip_edge_ok_check(v0, v1, z_near) && clip_edge_ok_check(v0, v2, z_near)
    } else if b0 && b2 {
        clip_edge_ok_check(v1, v2, z_near) && clip_edge_ok_check(v1, v0, z_near)
    } else if b0 && b1 {
        clip_edge_ok_check(v2, v0, z_near) && clip_edge_ok_check(v2, v1, z_near)
    } else if b0 {
        clip_edge_ok_check(v2, v0, z_near) && clip_edge_ok_check(v1, v0, z_near)
    } else if b1 {
        clip_edge_ok_check(v0, v1, z_near) && clip_edge_ok_check(v2, v1, z_near)
    } else if b2 {
        clip_edge_ok_check(v1, v2, z_near) && clip_edge_ok_check(v0, v2, z_near)
    } else {
        true
    }
}

/// Executable mirror of [`per_triangle_ok`] for one triangle of one
/// object.
fn triangle_renderable_check(
    scene: &Scene,
    o: usize,
    k: usize,
    model_matrix: Matrix4x4,
    pv: Matrix4x4,
    width: usize,
    height: usize,
) -> (r: bool)
    requires
        scene.wf(),
        o < scene.objects@.len(),
        (k as int) < scene.meshes@[obj_mesh_index(*scene, o as int)].tri_count(),
        model_matrix == model_matrix_spec(scene.objects@[o as int].model_matrix),
        pv == scene_pv(*scene),
        mat_bounded(model_matrix),
        mat_bounded(pv),
        bounded(scene.camera.z_near as int),
    ensures
        r == per_triangle_ok(*scene, o as int, k as int, width as int, height as int),
{
    let ghost s = *scene;
    let ghost oi = o as int;
    let ghost ki = k as int;
    let mesh = &scene.meshes[scene.objects[o].object_id];
    let n_indices = mesh.indices.len();
    proof {
        assert(s.meshes@[obj_mesh_index(s, oi)].wf());
        assert(3 * ki + 2 < mesh.indices@.len()) by {
            vstd::arithmetic::div_mod::lemma_fundamental_div_mod(mesh.indices@.len() as int, 3);
        }
        assert((mesh.indices@[3 * ki] as nat) < mesh.vertices@.len());
        assert((mesh.indices@[3 * ki + 1] as nat) < mesh.vertices@.len());
        assert((mesh.indices@[3 * ki + 2] as nat) < mesh.vertices@.len());
    }
    let i = 3 * k;
    let idx0 = mesh.indices[i];
    let idx1 = mesh.indices[i + 1];
    let idx2 = mesh.indices[i + 2];
    let v0 = mesh.vertices[idx0];
    let v1 = mesh.vertices[idx1];
    let v2 = mesh.vertices[idx2];
    if !(vec_bounded_check(v0) && vec_bounded_check(v1) && vec_bounded_check(v2)) {
        return false;
    }
    let v0_world = model_matrix.mul_vec(v0);
    let v1_world = model_matrix.mul_vec(v1);
    let v2_world = model_matrix.mul_vec(v2);
    if !(vec_bounded_check(v0_world) && vec_bounded_check(v1_world) && vec_bounded_check(
        v2_world,
    )) {
        return false;
    }
    let v0c = pv.mul_vec(v0_world);
    let v1c = pv.mul_vec(v1_world);
    let v2c = pv.mul_vec(v2_world);
    proof {
        assert(v0c == tri_clip_vertex(s, oi, ki, 0));
        assert(v1c == tri_clip_vertex(s, oi, ki, 1));
        assert(v2c == tri_clip_vertex(s, oi, ki, 2));
    }
    if !(vec_bounded_check(v0c) && vec_bounded_check(v1c) && vec_bounded_check(v2c)) {
        return false;
    }
    if !clip_safe_check(v0c, v1c, v2c, scene.camera.z_near) {
        return false;
    }
    let (c0, c1, c2, c3) = Rasterizer::clip_triangle(v0c, v1c, v2c, &scene.camera);
    if let Some(v) = c0 {
        if !screen_target_check(v, width, height) {
            return false;
        }
    }
    if let Some(v) = c1 {
        if !screen_target_check(v, width, height) {
            return false;
        }
    }
    if let Some(v) = c2 {
        if !screen_target_check(v, width, height) {
            return false;
        }
    }
    if let Some(v) = c3 {
        if !screen_target_check(v, width, height) {
            return false;
        }
    }
    if mesh.normals.len() > 0 {
        let m0 = mesh.normals[idx0];
        let m1 = mesh.normals[idx1];
        let m2 = mesh.normals[idx2];
        if !(vec_bounded_check(m0) && vec_bounded_check(m1) && vec_bounded_check(m2)) {
            return false;
        }
        if scene.objects[o].model_matrix.scale.x == scene.objects[o].model_matrix.scale.y
            && scene.objects[o].model_matrix.scale.y == scene.objects[o].model_matrix.scale.z {
            let t0 = model_matrix.mul_vec(m0);
            let t1 = model_matrix.mul_vec(m1);
            let t2 = model_matrix.mul_vec(m2);
            if !(vec_bounded_check(t0) && vec_bounded_check(t1) && vec_bounded_check(t2)) {
                return false;
            }
            t0.magnitude() != 0 && t1.magnitude() != 0 && t2.magnitude() != 0
        } else {
            normal_bounded_check(m0) && normal_bounded_check(m1) && normal_bounded_check(m2)
        }
    } else {
        let e0 = v1_world.sub(v0_world);
        let e1 = v2_world.sub(v0_world);
        if !(vec_bounded_check(e0) && vec_bounded_check(e1)) {
            return false;
        }
        let cr = e0.cross(e1);
        if !vec_bounded_check(cr) {
            return false;
        }
        cr.magnitude() != 0
    }
}

/// An executable gate for [`Rasterizer::draw_scene`]: true exactly when
/// the scene, rendered into a buffer of the given dimensions, stays
/// within the machine limits that `draw_scene`'s contract asks for. A
/// front end can run this before a frame and skip scenes it rejects,
/// failing fast instead of reaching code outside its contract.
pub fn scene_renderable_check(scene: &Scene, width: usize, height: usize) -> (r: bool)
    ensures
        r == scene_renderable(*scene, width as int, height as int),
{
    let ghost s = *scene;
    let ghost wi = width as int;
    let ghost hi = height as int;
    if !scene_wf_check(scene) {
        return false;
    }
    if !camera_renderable_check(&scene.camera) {
        return false;
    }
    let view = scene.camera.get_view_matrix();
    let proj = scene.camera.get_projection_matrix();
    let pv = proj.mul(view);
    proof {
        assert(pv == scene_pv(s));
    }
    if !mat_bounded_check(pv) {
        return false;
    }
    let mut o: usize = 0;
    while o < scene.objects.len()
        invariant
            s == *scene,
            wi == width as int,
            hi == height as int,
            s.wf(),
            camera_renderable(s.camera),
            pv == scene_pv(s),
            mat_bounded(pv),
            bounded(s.camera.z_near as int),
            o <= scene.objects@.len(),
            forall|o2: int|
                0 <= o2 < o ==> object_renderable((#[trigger] s.objects@[o2]).model_matrix),
            forall|o2: int, k2: int|
                0 <= o2 < o && 0 <= k2 < s.meshes@[obj_mesh_index(s, o2)].tri_count()
                    ==> #[trigger] per_triangle_ok(s, o2, k2, wi, hi),
        decreases scene.objects@.len() - o,
    {
        let obj = &scene.objects[o];
        if !trig_wf_check(obj.model_matrix.trig) {
            proof {
                assert(!object_renderable(s.objects@[o as int].model_matrix));
            }
            return false;
        }
        if !vec_bounded_check(obj.model_matrix.scale) {
            proof {
                assert(!object_renderable(s.objects@[o as int].model_matrix));
            }
            return false;
        }
        let model_matrix = obj.model_matrix.get_model_matrix();
        if !mat_bounded_check(model_matrix) {
            proof {
                assert(!object_renderable(s.objects@[o as int].model_matrix));
            }
            return false;
        }
        let mesh = &scene.meshes[obj.object_id];
        let n_tris = mesh.indices.len() / 3;
        let mut k: usize = 0;
        while k < n_tris
            invariant
                s == *scene,
                wi == width as int,
                hi == height as int,
                s.wf(),
                camera_renderable(s.camera),
                pv == scene_pv(s),
                mat_bounded(pv),
                bounded(s.camera.z_near as int),
                o < scene.objects@.len(),
                mesh == &scene.meshes@[obj_mesh_index(s, o as int)],
                model_matrix == model_matrix_spec(s.objects@[o as int].model_matrix),
                mat_bounded(model_matrix),
                n_tris as int == s.meshes@[obj_mesh_index(s, o as int)].tri_count(),
                k <= n_tris,
                forall|o2: int|
                    0 <= o2 < o ==> object_renderable((#[trigger] s.objects@[o2]).model_matrix),
                object_renderable(s.objects@[o as int].model_matrix),
                forall|o2: int, k2: int|
                    0 <= o2 < o && 0 <= k2 < s.meshes@[obj_mesh_index(s, o2)].tri_count()
                        ==> #[trigger] per_triangle_ok(s, o2, k2, wi, hi),
                forall|k2: int|
                    0 <= k2 < k ==> #[trigger] per_triangle_ok(s, o as int, k2, wi, hi),
            decreases n_tris - k,
        {
            if !triangle_renderable_check(scene, o, k, model_matrix, pv, width, height) {
                proof {
                    assert(!per_triangle_ok(s, o as int, k as int, wi, hi));
                }
                return false;
            }
            k = k + 1;
        }
        proof {
            assert forall|o2: int, k2: int|
                0 <= o2 < o + 1 && 0 <= k2 < s.meshes@[obj_mesh_index(s, o2)].tri_count() implies #[trigger] per_triangle_ok(
                s,
                o2,
                k2,
                wi,
                hi,
            ) by {
                if o2 == o as int {
                    assert(per_triangle_ok(s, o as int, k2, wi, hi));
                }
            }
        }
        o = o + 1;
    }
    true
}

impl Rasterizer {
    /// Renders the whole scene: for every object, in list order, and
    /// every triangle of its mesh, in index order, transforms the
    /// corners to clip space, clips against the near plane, culls
    /// clockwise windings, and fills what survives with cyclically
    /// assigned palette colors. The resulting buffers are exactly
    /// [`render_scene_spec`] of the scene, palette and prior contents —
    /// so equal inputs give bit-identical frames. The preconditions are
    /// decided by [`scene_renderable_check`].
    pub fn draw_scene(&mut self, scene: &Scene, colors: &Vec<Color>)
        requires
            ras_wf(*old(self)),
            old(self).draw_buffer.buffer_width <= 0x10_0000,
            old(self).draw_buffer.buffer_height <= 0x10_0000,
            scene_renderable(*scene, old(self).draw_buffer.buffer_width as int,
                old(self).draw_buffer.buffer_height as int),
            colors@.len() > 0,
        ensures
            ras_wf(*final(self)),
            final(self).draw_buffer.buffer_width == old(self).draw_buffer.buffer_width,
            final(self).draw_buffer.buffer_height == old(self).draw_buffer.buffer_height,
            // The depth test only brings surfaces nearer: no pixel's
            // stored depth grows during a frame.
            forall|px: int, py: int|
                0 <= px < old(self).draw_buffer.buffer_width && 0 <= py < old(
                    self,
                ).draw_buffer.buffer_height ==> final(self).depth_buffer.buffer@[#[trigger] flipped_index(
                    old(self).draw_buffer.buffer_height as int,
                    old(self).draw_buffer.buffer_width as int,
                    py,
                    px,
                )] <= old(self).depth_buffer.buffer@[flipped_index(
                    old(self).draw_buffer.buffer_height as int,
                    old(self).draw_buffer.buffer_width as int,
                    py,
                    px,
                )],
            // The frame is exactly the in-order fold of the per-triangle
            // fill transitions over the scene.
            final(self).depth_buffer.buffer@ == render_scene_spec(*scene, colors@,
                old(self).depth_buffer.buffer@, old(self).draw_buffer.buffer@,
                old(self).draw_buffer.buffer_width as int,
                old(self).draw_buffer.buffer_height as int).0,
            final(self).draw_buffer.buffer@ == render_scene_spec(*scene, colors@,
                old(self).depth_buffer.buffer@, old(self).draw_buffer.buffer@,
                old(self).draw_buffer.buffer_width as int,
                old(self).draw_buffer.buffer_height as int).1,
    {
        let ghost s = *scene;
        let ghost wi = self.draw_buffer.buffer_width as int;
        let ghost hi = self.draw_buffer.buffer_height as int;
        let ghost d0 = self.depth_buffer.buffer@;
        let ghost c0 = self.draw_buffer.buffer@;

        let view_matrix = scene.camera.get_view_matrix();
        let projection_matrix = scene.camera.get_projection_matrix();
        let pv = projection_matrix.mul(view_matrix);
        proof {
            assert(pv == scene_pv(s));
        }

        let mut o: usize = 0;
        while o < scene.objects.len()
            invariant
                ras_wf(*self),
                self.draw_buffer.buffer_width == old(self).draw_buffer.buffer_width,
                self.draw_buffer.buffer_height == old(self).draw_buffer.buffer_height,
                o <= scene.objects@.len(),
                wi == self.draw_buffer.buffer_width as int,
                hi == self.draw_buffer.buffer_height as int,
                self.draw_buffer.buffer_width <= 0x10_0000,
                self.draw_buffer.buffer_height <= 0x10_0000,
                s == *scene,
                scene_renderable(s, wi, hi),
                colors@.len() > 0,
                pv == scene_pv(s),
                self.depth_buffer.buffer@.len() == d0.len(),
                forall|px: int, py: int|
                    0 <= px < wi && 0 <= py < hi ==> self.depth_buffer.buffer@[#[trigger] flipped_index(
                        hi,
                        wi,
                        py,
                        px,
                    )] <= d0[flipped_index(hi, wi, py, px)],
                self.depth_buffer.buffer@ == render_objs_upto(s, colors@, o as int, d0, c0, wi,
                    hi).0,
                self.draw_buffer.buffer@ == render_objs_upto(s, colors@, o as int, d0, c0, wi,
                    hi).1,
            decreases scene.objects@.len() - o,
        {
            let obj = &scene.objects[o];
            let model_matrix = obj.model_matrix.get_model_matrix();
            let mesh = &scene.meshes[obj.object_id];
            let n_indices = mesh.indices.len();
            let n_tris = n_indices / 3;
            proof {
                vstd::arithmetic::div_mod::lemma_fundamental_div_mod(n_indices as int, 3);
            }
            let ghost obj_d = self.depth_buffer.buffer@;
            let ghost obj_c = self.draw_buffer.buffer@;
            let mut k: usize = 0;
            while k < n_tris
                invariant
                    ras_wf(*self),
                    self.draw_buffer.buffer_width == old(self).draw_buffer.buffer_width,
                    self.draw_buffer.buffer_height == old(self).draw_buffer.buffer_height,
                    wi == self.draw_buffer.buffer_width as int,
                    hi == self.draw_buffer.buffer_height as int,
                    self.draw_buffer.buffer_width <= 0x10_0000,
                    self.draw_buffer.buffer_height <= 0x10_0000,
                    s == *scene,
                    scene_renderable(s, wi, hi),
                    colors@.len() > 0,
                    pv == scene_pv(s),
                    o < scene.objects@.len(),
                    obj == &scene.objects@[o as int],
                    mesh == &scene.meshes@[obj_mesh_index(s, o as int)],
                    model_matrix == model_matrix_spec(s.objects@[o as int].model_matrix),
                    n_indices == mesh.indices@.len(),
                    n_tris as int == s.meshes@[obj_mesh_index(s, o as int)].tri_count(),
                    k <= n_tris,
                    self.depth_buffer.buffer@.len() == d0.len(),
                    forall|px: int, py: int|
                        0 <= px < wi && 0 <= py < hi ==> self.depth_buffer.buffer@[#[trigger] flipped_index(
                            hi,
                            wi,
                            py,
                            px,
                        )] <= d0[flipped_index(hi, wi, py, px)],
                    obj_d == render_objs_upto(s, colors@, o as int, d0, c0, wi, hi).0,
                    obj_c == render_objs_upto(s, colors@, o as int, d0, c0, wi, hi).1,
                    self.depth_buffer.buffer@ == render_tris_upto(s, colors@, o as int, k as int,
                        obj_d, obj_c, wi, hi).0,
                    self.draw_buffer.buffer@ == render_tris_upto(s, colors@, o as int, k as int,
                        obj_d, obj_c, wi, hi).1,
                decreases n_tris - k,
            {
                let ghost oi = o as int;
                let ghost ki = k as int;
                proof {
                    assert(per_triangle_ok(s, oi, ki, wi, hi));
                    assert(s.meshes@[obj_mesh_index(s, oi)].wf());
                    assert(3 * ki + 2 < mesh.indices@.len()) by {
                        assert(mesh.indices@.len() == 3 * (n_tris as int) + mesh.indices@.len()
                            % 3);
                    }
                    assert((mesh.indices@[3 * ki] as nat) < mesh.vertices@.len());
                    assert((mesh.indices@[3 * ki + 1] as nat) < mesh.vertices@.len());
                    assert((mesh.indices@[3 * ki + 2] as nat) < mesh.vertices@.len());
                }
                let i = 3 * k;
                let idx0 = mesh.indices[i];
                let idx1 = mesh.indices[i + 1];
                let idx2 = mesh.indices[i + 2];

                let v0 = mesh.vertices[idx0];
                let v1 = mesh.vertices[idx1];
                let v2 = mesh.vertices[idx2];

                let v0_world = model_matrix.mul_vec(v0);
                let v1_world = model_matrix.mul_vec(v1);
                let v2_world = model_matrix.mul_vec(v2);

                let v0c = pv.mul_vec(v0_world);
                let v1c = pv.mul_vec(v1_world);
                let v2c = pv.mul_vec(v2_world);
                proof {
                    assert(v0c == tri_clip_vertex(s, oi, ki, 0));
                    assert(v1c == tri_clip_vertex(s, oi, ki, 1));
                    assert(v2c == tri_clip_vertex(s, oi, ki, 2));
                }

                let ghost cur_d = self.depth_buffer.buffer@;
                let ghost cur_c = self.draw_buffer.buffer@;
                let ghost co = tri_clip_result(s, oi, ki);
                proof {
                    assert(co == clip_output(v0c, v1c, v2c, scene.camera.z_near as int));
                }

                let (opt0, opt1, opt2, opt3) = self.world_to_screen(v0c, v1c, v2c, &scene.camera);

                if let (Some(p0), Some(p1), Some(p2)) = (opt0, opt1, opt2) {
                    let area = Self::edge_function(p0, p1, p2);
                    proof {
                        assert(co.0 is Some && co.1 is Some && co.2 is Some);
                        assert(p0 == to_screen_spec(co.0->Some_0, wi, hi));
                        assert(p1 == to_screen_spec(co.1->Some_0, wi, hi));
                        assert(p2 == to_screen_spec(co.2->Some_0, wi, hi));
                    }
                    if area > 0 {
                        let (n0, n1, n2) = if mesh.normals.len() > 0 {
                            let m0 = mesh.normals[idx0];
                            let m1 = mesh.normals[idx1];
                            let m2 = mesh.normals[idx2];
                            if !obj.model_matrix.inverse_needed_for_normals() {
                                (
                                    model_matrix.mul_vec(m0).norm(),
                                    model_matrix.mul_vec(m1).norm(),
                                    model_matrix.mul_vec(m2).norm(),
                                )
                            } else {
                                // A non-uniform scale would need the
                                // inverse transpose; the transform is
                                // skipped instead.
                                (m0, m1, m2)
                            }
                        } else {
                            // No vertex normals: flat shading from the
                            // face normal.
                            let edge0 = v1_world.sub(v0_world);
                            let edge1 = v2_world.sub(v0_world);
                            let fl = edge0.cross(edge1).norm();
                            let normal = Vec4::new(fl.x, fl.y, fl.z, DIRECTION_MARK);
                            (normal, normal, normal)
                        };
                        proof {
                            assert(n0 == tri_shading_normal(s, oi, ki, 0));
                            assert(n1 == tri_shading_normal(s, oi, ki, 1));
                            assert(n2 == tri_shading_normal(s, oi, ki, 2));
                        }
                        let color = colors[k % colors.len()];
                        let ghost t1 = TriangleAttrs { a: p0, b: p1, c: p2, na: n0, nb: n1, nc: n2, color };
                        proof {
                            assert(t1 == tri_attrs_first(s, colors@, oi, ki, wi, hi));
                        }
                        self.fill_triangle(p0, p1, p2, n0, n1, n2, color);
                        proof {
                            lemma_fill_depth_monotone(t1, cur_d, cur_c,
                                self.depth_buffer.buffer@, self.draw_buffer.buffer@, wi, hi);
                            lemma_fill_functional(t1, cur_d, cur_c, self.depth_buffer.buffer@,
                                self.draw_buffer.buffer@, wi, hi);
                        }
                        if let Some(p3) = opt3 {
                            let area2 = Self::edge_function(p0, p2, p3);
                            proof {
                                assert(co.3 is Some);
                                assert(p3 == to_screen_spec(co.3->Some_0, wi, hi));
                            }
                            if area2 > 0 {
                                let white = Vec4::new(ONE, ONE, ONE, DIRECTION_MARK);
                                let ghost t2 = TriangleAttrs {
                                    a: p0,
                                    b: p2,
                                    c: p3,
                                    na: n0,
                                    nb: n2,
                                    nc: white,
                                    color,
                                };
                                let ghost d_mid = self.depth_buffer.buffer@;
                                let ghost c_mid = self.draw_buffer.buffer@;
                                proof {
                                    assert(t2 == tri_attrs_second(s, colors@, oi, ki, wi, hi));
                                }
                                self.fill_triangle(p0, p2, p3, n0, n2, white, color);
                                proof {
                                    lemma_fill_depth_monotone(t2, d_mid, c_mid,
                                        self.depth_buffer.buffer@, self.draw_buffer.buffer@, wi,
                                        hi);
                                    lemma_fill_functional(t2, d_mid, c_mid,
                                        self.depth_buffer.buffer@, self.draw_buffer.buffer@, wi,
                                        hi);
                                    assert(self.depth_buffer.buffer@ == scene_tri_step(s, colors@,
                                        oi, ki, cur_d, cur_c, wi, hi).0
                                        && self.draw_buffer.buffer@ == scene_tri_step(s, colors@,
                                        oi, ki, cur_d, cur_c, wi, hi).1);
                                }
                            } else {
                                proof {
                                    assert(self.depth_buffer.buffer@ == scene_tri_step(s, colors@,
                                        oi, ki, cur_d, cur_c, wi, hi).0
                                        && self.draw_buffer.buffer@ == scene_tri_step(s, colors@,
                                        oi, ki, cur_d, cur_c, wi, hi).1);
                                }
                            }
                        } else {
                            proof {
                                assert(co.3 is None);
                                assert(self.depth_buffer.buffer@ == scene_tri_step(s, colors@, oi,
                                    ki, cur_d, cur_c, wi, hi).0
                                    && self.draw_buffer.buffer@ == scene_tri_step(s, colors@, oi,
                                    ki, cur_d, cur_c, wi, hi).1);
                            }
                        }
                    } else {
                        proof {
                            assert(self.depth_buffer.buffer@ == scene_tri_step(s, colors@, oi, ki,
                                cur_d, cur_c, wi, hi).0
                                && self.draw_buffer.buffer@ == scene_tri_step(s, colors@, oi, ki,
                                cur_d, cur_c, wi, hi).1);
                        }
                    }
                } else {
                    proof {
                        assert(!(co.0 is Some && co.1 is Some && co.2 is Some));
                        assert(self.depth_buffer.buffer@ == scene_tri_step(s, colors@, oi, ki,
                            cur_d, cur_c, wi, hi).0
                            && self.draw_buffer.buffer@ == scene_tri_step(s, colors@, oi, ki,
                            cur_d, cur_c, wi, hi).1);
                    }
                }
                proof {
                    assert(render_tris_upto(s, colors@, oi, ki + 1, obj_d, obj_c, wi, hi)
                        == scene_tri_step(s, colors@, oi, ki, cur_d, cur_c, wi, hi));
                }
                k = k + 1;
            }
            o = o + 1;
        }
    }
}

/// Interpolating between bounded vertices with a bounded parameter stays
/// within `i64`.
proof fn lemma_lerp_fits(a: Vec4, b: Vec4, t: int)
    requires
        vec_bounded(a),
        vec_bounded(b),
        bounded(t),
    ensures
        i64::MIN <= fmul((b.x as int) - (a.x as int), t) <= i64::MAX,
        i64::MIN <= fmul((b.y as int) - (a.y as int), t) <= i64::MAX,
        i64::MIN <= fmul((b.z as int) - (a.z as int), t) <= i64::MAX,
        i64::MIN <= fmul((b.w as int) - (a.w as int), t) <= i64::MAX,
        i64::MIN <= (a.x as int) + fmul((b.x as int) - (a.x as int), t) <= i64::MAX,
        i64::MIN <= (a.y as int) + fmul((b.y as int) - (a.y as int), t) <= i64::MAX,
        i64::MIN <= (a.z as int) + fmul((b.z as int) - (a.z as int), t) <= i64::MAX,
        i64::MIN <= (a.w as int) + fmul((b.w as int) - (a.w as int), t) <= i64::MAX,
{
    lemma_lerp_fit_one((b.x as int) - (a.x as int), t);
    lemma_lerp_fit_one((b.y as int) - (a.y as int), t);
    lemma_lerp_fit_one((b.z as int) - (a.z as int), t);
    lemma_lerp_fit_one((b.w as int) - (a.w as int), t);
}

proof fn lemma_lerp_fit_one(d: int, t: int)
    requires
        -2 * COORD_LIMIT <= d <= 2 * COORD_LIMIT,
        bounded(t),
    ensures
        -0x4000_0000_0000_0000 <= fmul(d, t) <= 0x4000_0000_0000_0000,
{
    crate::fixed::lemma_mul_bound(d, t, 2 * COORD_LIMIT as int, COORD_LIMIT as int);
    crate::fixed::lemma_tdiv_bound(d * t, 65536, 2 * (COORD_LIMIT as int) * (COORD_LIMIT as int));
}

/// The perspective divide of a bounded vertex stays within `i64`.
proof fn lemma_ndc_fits(v: Vec4)
    requires
        vec_bounded(v),
        v.w != 0,
    ensures
        i64::MIN <= fdiv(v.x as int, v.w as int) <= i64::MAX,
        i64::MIN <= fdiv(v.y as int, v.w as int) <= i64::MAX,
        i64::MIN <= fdiv(v.z as int, v.w as int) <= i64::MAX,
        i64::MIN <= fdiv(v.w as int, v.w as int) <= i64::MAX,
{
    crate::fixed::lemma_tdiv_magnitude((v.x as int) * 65536, v.w as int);
    crate::fixed::lemma_tdiv_magnitude((v.y as int) * 65536, v.w as int);
    crate::fixed::lemma_tdiv_magnitude((v.z as int) * 65536, v.w as int);
    crate::fixed::lemma_tdiv_magnitude((v.w as int) * 65536, v.w as int);
}

} // verus!
