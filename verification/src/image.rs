//! The output raster: a flat, row-major buffer of RGB bytes.

use vstd::prelude::*;
use vstd::pervasive::VecAdditionalExecFns;

verus! {

/// Byte offset of pixel `(x, y)` in a row-major RGB buffer of width `w`.
pub open spec fn spec_pixel_offset(w: int, x: int, y: int) -> int {
    y * w * 3 + x * 3
}

/// A `width` by `height` image, three bytes (R, G, B) per pixel, row-major.
pub struct Image {
    pub width: u32,
    pub height: u32,
    pub data: Vec<u8>,
}

impl Image {
    /// The buffer holds exactly three bytes per pixel.
    pub open spec fn wf(&self) -> bool {
        self.data@.len() == self.width as int * self.height as int * 3
    }

    /// A black image of the given dimensions.
    pub fn new(width: u32, height: u32) -> (r: Image)
        requires
            width as int * height as int * 3 <= usize::MAX as int,
        ensures
            r.width == width,
            r.height == height,
            r.wf(),
            forall|k: int| 0 <= k < r.data@.len() ==> r.data@[k] == 0u8,
    {
        let n: usize = (width as usize) * (height as usize) * 3;
        let mut data: Vec<u8> = Vec::new();
        let mut k: usize = 0;
        while k < n
            invariant
                k <= n,
                data@.len() == k,
                forall|m: int| 0 <= m < k ==> data@[m] == 0u8,
            decreases n - k,
        {
            data.push(0u8);
            k = k + 1;
        }
        Image { width, height, data }
    }

    /// Write the first three bytes of `color` as pixel `(x, y)`; the rest
    /// of the buffer is untouched.
    pub fn set_pixel(&mut self, x: u32, y: u32, color: Vec<u8>)
        requires
            old(self).wf(),
            x < old(self).width,
            y < old(self).height,
            color@.len() >= 3,
        ensures
            final(self).wf(),
            final(self).width == old(self).width,
            final(self).height == old(self).height,
            final(self).data@ == old(self).data@.update(
                spec_pixel_offset(old(self).width as int, x as int, y as int),
                color@[0],
            ).update(
                spec_pixel_offset(old(self).width as int, x as int, y as int) + 1,
                color@[1],
            ).update(
                spec_pixel_offset(old(self).width as int, x as int, y as int) + 2,
                color@[2],
            ),
    {
        let len: usize = self.data.len();
        proof {
            assert((y as int) * (self.width as int) * 3 + (x as int) * 3 + 2 < (self.width as int)
                * (self.height as int) * 3) by (nonlinear_arith)
                requires
                    x as int + 1 <= self.width as int,
                    y as int + 1 <= self.height as int,
                    x as int >= 0,
                    y as int >= 0;
            assert((y as int) * (self.width as int) >= 0) by (nonlinear_arith)
                requires
                    x as int >= 0,
                    y as int >= 0,
                    self.width as int >= 0;
        }
        let offset: usize = (y as usize) * (self.width as usize) * 3 + (x as usize) * 3;
        self.data.set(offset, color[0]);
        self.data.set(offset + 1, color[1]);
        self.data.set(offset + 2, color[2]);
    }
}

} // verus!
