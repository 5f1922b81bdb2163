//! A single-channel (grayscale) texture, sampled with clamping.
//!
//! The image decoding that produces the samples is outside the library:
//! a texture here is the decoded result, one byte per pixel, row-major.

use vstd::prelude::*;

verus! {

use crate::framebuffer::lemma_row_major_index;

/// A grayscale image: `width * height` luminance samples, row-major.
pub struct Texture {
    pub width: usize,
    pub height: usize,
    pub data: Vec<u8>,
}

impl Texture {
    /// The storage matches the dimensions, and the extents are
    /// positive and small enough for index arithmetic.
    pub open spec fn wf(self) -> bool {
        &&& self.data.len() == self.width * self.height
        &&& 1 <= self.width <= 0x1_0000
        &&& 1 <= self.height <= 0x1_0000
    }

    /// The sample at `(x, y)`, with both coordinates clamped to the
    /// texture's own bounds.
    pub open spec fn texel(self, x: int, y: int) -> u8 {
        let cx = if x < self.width - 1 {
            x
        } else {
            self.width - 1
        };
        let cy = if y < self.height - 1 {
            y
        } else {
            self.height - 1
        };
        self.data@[cy * self.width + cx]
    }

    pub fn new(width: usize, height: usize, data: Vec<u8>) -> (t: Texture)
        requires
            data@.len() == width * height,
            1 <= width <= 0x1_0000,
            1 <= height <= 0x1_0000,
        ensures
            t.wf(),
            t == (Texture { width, height, data }),
    {
        Texture { width, height, data }
    }

    /// Clamped sample lookup.
    pub fn sample(&self, x: usize, y: usize) -> (v: u8)
        requires
            self.wf(),
        ensures
            v == self.texel(x as int, y as int),
    {
        let cx = if x < self.width - 1 {
            x
        } else {
            self.width - 1
        };
        let cy = if y < self.height - 1 {
            y
        } else {
            self.height - 1
        };
        proof {
            lemma_row_major_index(self.width as int, self.height as int, cx as int, cy as int);
        }
        let n = self.data.len();
        assert(cy * self.width + cx < n);
        self.data[cy * self.width + cx]
    }
}

} // verus!
