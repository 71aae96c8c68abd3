//! The depth buffer: one fixed-point depth per pixel, addressed with the
//! same vertically flipped row convention as the color buffer. Entries
//! start at the far-plane sentinel `ONE` (depth 1.0), since compared
//! depths are post-viewport values in `[0, 1]`.

use crate::draw_buffer::{flipped_index, lemma_flipped_index_in_range};
use crate::fixed::ONE;
use vstd::prelude::*;

verus! {

/// Builds a vector of `n` copies of `value`.
fn filled_i64(value: i64, n: usize) -> (v: Vec<i64>)
    ensures
        v@.len() == n,
        forall|i: int| 0 <= i < n ==> v@[i] == value,
{
    let mut v: Vec<i64> = Vec::new();
    let mut k: usize = 0;
    while k < n
        invariant
            k <= n,
            v@.len() == k,
            forall|i: int| 0 <= i < k ==> v@[i] == value,
        decreases n - k,
    {
        v.push(value);
        k = k + 1;
    }
    v
}

/// The depth buffer; `width * height` fixed-point depths.
pub struct DepthBuffer {
    pub buffer: Vec<i64>,
    pub buffer_width: usize,
    pub buffer_height: usize,
}

impl DepthBuffer {
    /// Whether the storage length matches the reported dimensions.
    pub open spec fn wf(self) -> bool {
        self.buffer@.len() == self.buffer_width * self.buffer_height
    }

    pub fn new(buffer: Vec<i64>, buffer_width: usize, buffer_height: usize) -> (b: Self)
        requires
            buffer@.len() == buffer_width * buffer_height,
        ensures
            b.wf(),
            b.buffer_width == buffer_width,
            b.buffer_height == buffer_height,
            b.buffer@ == buffer@,
    {
        Self { buffer, buffer_width, buffer_height }
    }

    pub fn buffer_width(&self) -> (w: usize)
        ensures
            w == self.buffer_width,
    {
        self.buffer_width
    }

    pub fn buffer_height(&self) -> (h: usize)
        ensures
            h == self.buffer_height,
    {
        self.buffer_height
    }

    pub fn buffer(&self) -> (b: &Vec<i64>)
        ensures
            b@ == self.buffer@,
    {
        &self.buffer
    }

    /// Resets every entry to the far-plane sentinel; dimensions are
    /// unchanged.
    fn clear(&mut self)
        requires
            old(self).wf(),
        ensures
            final(self).wf(),
            final(self).buffer_width == old(self).buffer_width,
            final(self).buffer_height == old(self).buffer_height,
            forall|i: int| 0 <= i < final(self).buffer@.len() ==> final(self).buffer@[i] == ONE,
    {
        let n = self.buffer.len();
        self.buffer = filled_i64(ONE, n);
    }

    /// The resize-or-clear protocol: on a dimension change, reallocate
    /// and reset to the far-plane sentinel; otherwise clear in place.
    pub fn handle_clear(&mut self, new_width: usize, new_height: usize)
        requires
            old(self).wf(),
            new_width * new_height <= usize::MAX,
        ensures
            final(self).wf(),
            final(self).buffer_width == new_width,
            final(self).buffer_height == new_height,
            forall|i: int| 0 <= i < final(self).buffer@.len() ==> final(self).buffer@[i] == ONE,
    {
        if self.buffer_width != new_width || self.buffer_height != new_height {
            self.resize(new_width, new_height);
        } else {
            self.clear();
        }
    }

    /// Reallocates for the new dimensions and resets every entry to the
    /// far-plane sentinel.
    pub fn resize(&mut self, buffer_width: usize, buffer_height: usize)
        requires
            buffer_width * buffer_height <= usize::MAX,
        ensures
            final(self).wf(),
            final(self).buffer_width == buffer_width,
            final(self).buffer_height == buffer_height,
            forall|i: int| 0 <= i < final(self).buffer@.len() ==> final(self).buffer@[i] == ONE,
    {
        self.buffer_width = buffer_width;
        self.buffer_height = buffer_height;
        self.buffer = filled_i64(ONE, buffer_width * buffer_height);
    }

    /// Writes a depth at row `x` (from the bottom), column `y`; every
    /// other entry is unchanged.
    pub fn set(&mut self, x: usize, y: usize, depth: i64)
        requires
            old(self).wf(),
            x < old(self).buffer_height,
            y < old(self).buffer_width,
        ensures
            final(self).wf(),
            final(self).buffer_width == old(self).buffer_width,
            final(self).buffer_height == old(self).buffer_height,
            final(self).buffer@ == old(self).buffer@.update(
                flipped_index(old(self).buffer_height as int, old(self).buffer_width as int,
                    x as int, y as int),
                depth,
            ),
    {
        proof {
            lemma_flipped_index_in_range(self.buffer_height as int, self.buffer_width as int,
                x as int, y as int);
        }
        // The storage length, a usize, bounds the index computation.
        let n = self.buffer.len();
        let idx = (self.buffer_height - x - 1) * self.buffer_width + y;
        self.buffer[idx] = depth;
    }

    /// The depth at row `x` (from the bottom), column `y`.
    pub fn get(&self, x: usize, y: usize) -> (d: i64)
        requires
            self.wf(),
            x < self.buffer_height,
            y < self.buffer_width,
        ensures
            d == self.buffer@[flipped_index(self.buffer_height as int, self.buffer_width as int,
                x as int, y as int)],
    {
        proof {
            lemma_flipped_index_in_range(self.buffer_height as int, self.buffer_width as int,
                x as int, y as int);
        }
        // The storage length, a usize, bounds the index computation.
        let n = self.buffer.len();
        self.buffer[(self.buffer_height - x - 1) * self.buffer_width + y]
    }
}

} // verus!
