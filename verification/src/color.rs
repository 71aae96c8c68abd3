//! RGBA colors and their packing into `0x00RRGGBB` pixel values.

use crate::fixed::{lemma_mul_bound, mul_wide, tdiv, ONE};
use vstd::prelude::*;

verus! {

/// A mixing weight clamped to the unit interval `[0, ONE]`.
pub open spec fn clamp_unit(t: int) -> int {
    if t < 0 {
        0
    } else if t > 65536 {
        65536
    } else {
        t
    }
}

/// One channel of a linear mix: `c1 * (1 - t) + c2 * t` with the
/// fixed-point weight `t` clamped to the unit interval, rounded toward
/// zero.
pub open spec fn mix_channel(c1: int, c2: int, t: int) -> int {
    tdiv(c1 * (65536 - clamp_unit(t)) + c2 * clamp_unit(t), 65536)
}

/// An RGBA color with 8-bit channels. The alpha channel is carried along
/// but dropped when the color is packed for a frame buffer.
#[derive(Clone, Copy, Debug)]
pub struct Color {
    pub r: u8,
    pub g: u8,
    pub b: u8,
    pub a: u8,
}

impl Color {
    pub fn new(r: u8, g: u8, b: u8, a: u8) -> (c: Self)
        ensures
            c == (Color { r, g, b, a }),
    {
        Self { r, g, b, a }
    }

    pub fn r(&self) -> (v: u8)
        ensures
            v == self.r,
    {
        self.r
    }

    pub fn g(&self) -> (v: u8)
        ensures
            v == self.g,
    {
        self.g
    }

    pub fn b(&self) -> (v: u8)
        ensures
            v == self.b,
    {
        self.b
    }

    pub fn a(&self) -> (v: u8)
        ensures
            v == self.a,
    {
        self.a
    }

    /// Mixes `color1` toward `color2` by the fixed-point weight `t`,
    /// clamped to the unit interval; the alpha channel of `color1` is
    /// kept.
    pub fn mix(color1: Color, color2: Color, t: i64) -> (c: Color)
        ensures
            c.r == mix_channel(color1.r as int, color2.r as int, t as int),
            c.g == mix_channel(color1.g as int, color2.g as int, t as int),
            c.b == mix_channel(color1.b as int, color2.b as int, t as int),
            c.a == color1.a,
    {
        let t = if t < 0 {
            0
        } else if t > ONE {
            ONE
        } else {
            t
        };
        let r = mix_one(color1.r, color2.r, t);
        let g = mix_one(color1.g, color2.g, t);
        let b = mix_one(color1.b, color2.b, t);
        Color::new(r, g, b, color1.a)
    }

    /// The packed `0x00RRGGBB` form of a color: the red channel in bits
    /// 16..24, green in bits 8..16, blue in bits 0..8, top byte zero.
    pub open spec fn packed(self) -> int {
        (self.r as int) * 0x10000 + (self.g as int) * 0x100 + (self.b as int)
    }

    /// Packs the color as `0x00RRGGBB`; the alpha channel is dropped.
    pub fn format_as_u32(&self) -> (v: u32)
        ensures
            v == self.packed(),
    {
        let v = 0 | ((self.r as u32) << 16) | ((self.g as u32) << 8) | (self.b as u32);
        proof {
            let r = self.r;
            let g = self.g;
            let b = self.b;
            assert(0 | ((r as u32) << 16) | ((g as u32) << 8) | (b as u32) == (r as u32) * 0x10000
                + (g as u32) * 0x100 + (b as u32)) by (bit_vector);
        }
        v
    }
}

/// One channel of the mix, for a weight already clamped to the unit
/// interval; the result stays a byte.
fn mix_one(c1: u8, c2: u8, t: i64) -> (r: u8)
    requires
        0 <= t <= 65536,
    ensures
        r == tdiv((c1 as int) * (65536 - t) + (c2 as int) * (t as int), 65536),
{
    let p1 = mul_wide(c1 as i64, ONE - t);
    let p2 = mul_wide(c2 as i64, t);
    proof {
        lemma_mul_bound(c1 as int, 65536 - t, 255, 65536);
        lemma_mul_bound(c2 as int, t as int, 255, 65536);
        assert(0 <= p1) by (nonlinear_arith)
            requires
                p1 == (c1 as int) * (65536 - t),
                0 <= c1 as int,
                0 <= 65536 - t,
        {}
        assert(0 <= p2) by (nonlinear_arith)
            requires
                p2 == (c2 as int) * (t as int),
                0 <= c2 as int,
                0 <= t,
        {}
        crate::fixed::lemma_tdiv_bound((p1 + p2) as int, 65536, 2int * 255 * 65536);
    }
    let q = crate::fixed::div_round_to_zero(p1 + p2, ONE as i128);
    proof {
        assert(q <= 255) by {
            assert(p1 <= 255 * (65536 - t)) by (nonlinear_arith)
                requires
                    p1 == (c1 as int) * (65536 - t),
                    c1 as int <= 255,
                    0 <= 65536 - t,
            {}
            assert(p2 <= 255 * t) by (nonlinear_arith)
                requires
                    p2 == (c2 as int) * (t as int),
                    c2 as int <= 255,
                    0 <= t,
            {}
            crate::fixed::lemma_tdiv_bound((p1 + p2) as int, 65536, 255int * 65536);
        }
        crate::fixed::lemma_tdiv_magnitude((p1 + p2) as int, 65536);
    }
    q as u8
}

} // verus!
