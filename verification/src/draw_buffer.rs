//! The color buffer: a dense 2D array of packed `0x00RRGGBB` pixels,
//! addressed by `(row, col)` with row 0 stored in the last line (a
//! vertically flipped row convention).

use crate::color::Color;
use vstd::prelude::*;

verus! {

/// The storage index of pixel `(x, y)` (row `x` from the bottom, column
/// `y`) in a buffer of the given height and width.
pub open spec fn flipped_index(height: int, width: int, x: int, y: int) -> int {
    (height - x - 1) * width + y
}

/// A pixel's storage index lies inside the buffer.
pub proof fn lemma_flipped_index_in_range(height: int, width: int, x: int, y: int)
    by (nonlinear_arith)
    requires
        0 <= x < height,
        0 <= y < width,
    ensures
        0 <= flipped_index(height, width, x, y) < width * height,
{
}

/// Distinct pixels have distinct storage indices.
pub proof fn lemma_flipped_index_injective(
    height: int,
    width: int,
    x1: int,
    y1: int,
    x2: int,
    y2: int,
)
    requires
        0 <= x1 < height,
        0 <= y1 < width,
        0 <= x2 < height,
        0 <= y2 < width,
        !(x1 == x2 && y1 == y2),
    ensures
        flipped_index(height, width, x1, y1) != flipped_index(height, width, x2, y2),
{
    let i1 = flipped_index(height, width, x1, y1);
    let i2 = flipped_index(height, width, x2, y2);
    if i1 == i2 {
        vstd::arithmetic::div_mod::lemma_fundamental_div_mod_converse(i1, width, height - x1 - 1,
            y1);
        vstd::arithmetic::div_mod::lemma_fundamental_div_mod_converse(i2, width, height - x2 - 1,
            y2);
    }
}

/// Builds a vector of `n` copies of `value`.
pub fn filled_u32(value: u32, n: usize) -> (v: Vec<u32>)
    ensures
        v@.len() == n,
        forall|i: int| 0 <= i < n ==> v@[i] == value,
{
    let mut v: Vec<u32> = Vec::new();
    let mut k: usize = 0;
    while k < n
        invariant
            k <= n,
            v@.len() == k,
            forall|i: int| 0 <= i < k ==> v@[i] == value,
        decreases n - k,
    {
        v.push(value);
        k = k + 1;
    }
    v
}

/// The color buffer; `width * height` packed pixels.
pub struct DrawBuffer {
    pub buffer: Vec<u32>,
    pub buffer_width: usize,
    pub buffer_height: usize,
}

impl DrawBuffer {
    /// Whether the storage length matches the reported dimensions.
    pub open spec fn wf(self) -> bool {
        self.buffer@.len() == self.buffer_width * self.buffer_height
    }

    pub fn new(buffer: Vec<u32>, buffer_width: usize, buffer_height: usize) -> (b: Self)
        requires
            buffer@.len() == buffer_width * buffer_height,
        ensures
            b.wf(),
            b.buffer_width == buffer_width,
            b.buffer_height == buffer_height,
            b.buffer@ == buffer@,
    {
        Self { buffer, buffer_width, buffer_height }
    }

    pub fn buffer_width(&self) -> (w: usize)
        ensures
            w == self.buffer_width,
    {
        self.buffer_width
    }

    pub fn buffer_height(&self) -> (h: usize)
        ensures
            h == self.buffer_height,
    {
        self.buffer_height
    }

    pub fn buffer(&self) -> (b: &Vec<u32>)
        ensures
            b@ == self.buffer@,
    {
        &self.buffer
    }

    /// Sets every pixel to the packed form of `clear_color`; dimensions
    /// are unchanged.
    pub fn clear(&mut self, clear_color: Color)
        requires
            old(self).wf(),
        ensures
            final(self).wf(),
            final(self).buffer_width == old(self).buffer_width,
            final(self).buffer_height == old(self).buffer_height,
            final(self).buffer@.len() == old(self).buffer@.len(),
            forall|i: int|
                0 <= i < final(self).buffer@.len() ==> final(self).buffer@[i]
                    == clear_color.packed(),
    {
        let packed = clear_color.format_as_u32();
        let n = self.buffer.len();
        self.buffer = filled_u32(packed, n);
    }

    /// Reallocates for the new dimensions and resets every pixel to the
    /// black sentinel `0x000000`.
    pub fn resize(&mut self, buffer_width: usize, buffer_height: usize)
        requires
            buffer_width * buffer_height <= usize::MAX,
        ensures
            final(self).wf(),
            final(self).buffer_width == buffer_width,
            final(self).buffer_height == buffer_height,
            forall|i: int| 0 <= i < final(self).buffer@.len() ==> final(self).buffer@[i] == 0u32,
    {
        self.buffer_width = buffer_width;
        self.buffer_height = buffer_height;
        self.buffer = filled_u32(0, buffer_width * buffer_height);
    }

    /// The resize-or-clear protocol: on a dimension change, reallocate
    /// and reset to the sentinel; otherwise clear in place to
    /// `clear_color`.
    pub fn handle_clear(&mut self, new_width: usize, new_height: usize, clear_color: Color)
        requires
            old(self).wf(),
            new_width * new_height <= usize::MAX,
        ensures
            final(self).wf(),
            final(self).buffer_width == new_width,
            final(self).buffer_height == new_height,
            (old(self).buffer_width != new_width || old(self).buffer_height != new_height)
                ==> forall|i: int|
                0 <= i < final(self).buffer@.len() ==> final(self).buffer@[i] == 0u32,
            (old(self).buffer_width == new_width && old(self).buffer_height == new_height)
                ==> forall|i: int|
                0 <= i < final(self).buffer@.len() ==> final(self).buffer@[i]
                    == clear_color.packed(),
    {
        if self.buffer_width != new_width || self.buffer_height != new_height {
            self.resize(new_width, new_height);
        } else {
            self.clear(clear_color);
        }
    }

    /// The pixel at row `x` (from the bottom), column `y`.
    pub fn get(&self, x: usize, y: usize) -> (c: u32)
        requires
            self.wf(),
            x < self.buffer_height,
            y < self.buffer_width,
        ensures
            c == self.buffer@[flipped_index(self.buffer_height as int, self.buffer_width as int,
                x as int, y as int)],
    {
        proof {
            lemma_flipped_index_in_range(self.buffer_height as int, self.buffer_width as int,
                x as int, y as int);
        }
        // The storage length, a usize, bounds the index computation.
        let n = self.buffer.len();
        self.buffer[(self.buffer_height - x - 1) * self.buffer_width + y]
    }

    /// Writes the packed form of `color` at row `x` (from the bottom),
    /// column `y`; every other pixel is unchanged.
    pub fn set(&mut self, x: usize, y: usize, color: Color)
        requires
            old(self).wf(),
            x < old(self).buffer_height,
            y < old(self).buffer_width,
        ensures
            final(self).wf(),
            final(self).buffer_width == old(self).buffer_width,
            final(self).buffer_height == old(self).buffer_height,
            final(self).buffer@ == old(self).buffer@.update(
                flipped_index(old(self).buffer_height as int, old(self).buffer_width as int,
                    x as int, y as int),
                color.packed() as u32,
            ),
    {
        proof {
            lemma_flipped_index_in_range(self.buffer_height as int, self.buffer_width as int,
                x as int, y as int);
        }
        // The storage length, a usize, bounds the index computation.
        let n = self.buffer.len();
        let idx = (self.buffer_height - x - 1) * self.buffer_width + y;
        let packed = color.format_as_u32();
        self.buffer[idx] = packed;
    }
}

} // verus!
