//! Plain RGBA pixel buffers.

use vstd::prelude::*;

verus! {

/// An RGBA pixel buffer: four bytes per pixel (red, green, blue, alpha),
/// pixels stored row by row from the top-left corner.
///
/// Both the decoded source image and the output page canvas are carried in
/// this form, so that every read and write of a pixel is ordinary, checked
/// vector access.
#[derive(Debug, Clone)]
pub struct Raster {
    pub width: u32,
    pub height: u32,
    pub data: Vec<u8>,
}

impl Raster {
    /// The buffer holds exactly four bytes for each of its pixels.
    pub open spec fn wf(self) -> bool {
        self.data@.len() == 4 * ((self.width as int) * (self.height as int))
    }

    /// Position of channel `c` of the pixel at `(x, y)` in the byte buffer.
    pub open spec fn byte_index(self, x: int, y: int, c: int) -> int {
        4 * (y * (self.width as int) + x) + c
    }

    /// Value of channel `c` of the pixel at `(x, y)`.
    pub open spec fn channel(self, x: int, y: int, c: int) -> u8 {
        self.data@[self.byte_index(x, y, c)]
    }

    /// A raster is a valid home for every in-bounds channel position.
    proof fn lemma_byte_index_in_bounds(self, x: int, y: int, c: int)
        requires
            self.wf(),
            0 <= x < self.width,
            0 <= y < self.height,
            0 <= c < 4,
        ensures
            0 <= self.byte_index(x, y, c) < self.data@.len(),
    {
        let w = self.width as int;
        let h = self.height as int;
        assert(0 <= 4 * (y * w + x) + c < 4 * (w * h)) by (nonlinear_arith)
            requires
                0 <= x < w,
                0 <= y < h,
                0 <= c < 4;
    }

    /// Wraps an already-decoded pixel buffer, rejecting one whose length
    /// does not match its claimed dimensions.
    pub fn from_parts(width: u32, height: u32, data: Vec<u8>) -> (r: Option<Raster>)
        ensures
            r is Some <==> data@.len() == 4 * ((width as int) * (height as int)),
            r is Some ==> (r.unwrap() == (Raster { width, height, data })),
    {
        proof {
            assert((width as u128) * (height as u128) <= 0xFFFF_FFFF * 0xFFFF_FFFFu128)
                by (nonlinear_arith)
                requires
                    width as u128 <= 0xFFFF_FFFFu128,
                    height as u128 <= 0xFFFF_FFFFu128;
        }
        let expect: u128 = 4 * ((width as u128) * (height as u128));
        if data.len() as u128 == expect {
            Some(Raster { width, height, data })
        } else {
            None
        }
    }

    /// A raster of the given size with every channel zero: fully
    /// transparent black, the background of a fresh page canvas.
    pub fn new_zeroed(width: u32, height: u32) -> (r: Raster)
        requires
            4 * ((width as int) * (height as int)) <= usize::MAX,
        ensures
            r.wf(),
            r.width == width,
            r.height == height,
            forall|i: int| 0 <= i < r.data@.len() ==> r.data@[i] == 0u8,
    {
        proof {
            assert((width as u128) * (height as u128) <= 0xFFFF_FFFF * 0xFFFF_FFFFu128)
                by (nonlinear_arith)
                requires
                    width as u128 <= 0xFFFF_FFFFu128,
                    height as u128 <= 0xFFFF_FFFFu128;
        }
        let n128: u128 = 4 * ((width as u128) * (height as u128));
        let n: usize = n128 as usize;
        let data: Vec<u8> = vec![0u8; n];
        Raster { width, height, data }
    }

    /// Value of channel `c` (0 red, 1 green, 2 blue, 3 alpha) of the pixel
    /// at `(x, y)`.
    pub fn get_channel(&self, x: u32, y: u32, c: u32) -> (r: u8)
        requires
            self.wf(),
            x < self.width,
            y < self.height,
            c < 4,
        ensures
            r == self.channel(x as int, y as int, c as int),
    {
        let _len: usize = self.data.len();
        proof {
            self.lemma_byte_index_in_bounds(x as int, y as int, c as int);
        }
        let yw: usize = (y as usize) * (self.width as usize);
        let idx: usize = 4 * (yw + (x as usize)) + (c as usize);
        self.data[idx]
    }
}

} // verus!
