//! The pixel grid the renderer samples from, and per-pixel brightness.

use vstd::prelude::*;

verus! {

/// One pixel: red, green, blue and alpha channels, each 0..=255.
#[derive(Clone, Copy, PartialEq, Eq, Structural, Debug)]
pub struct Pixel {
    pub r: u8,
    pub g: u8,
    pub b: u8,
    pub a: u8,
}

/// A decoded image: `width * height` pixels in row-major order.
#[derive(Debug)]
pub struct PixelGrid {
    pub width: usize,
    pub height: usize,
    pub pixels: Vec<Pixel>,
}

impl PixelGrid {
    /// A grid is well formed when it holds exactly one pixel per coordinate.
    pub open spec fn wf(self) -> bool {
        self.pixels@.len() == self.width * self.height
    }

    /// The pixel at column `x`, row `y`, row-major.
    pub open spec fn pixel_at(self, x: int, y: int) -> Pixel
        recommends
            0 <= x < self.width,
            0 <= y < self.height,
            self.wf(),
    {
        self.pixels@[y * self.width + x]
    }

    /// Builds a grid, rejecting pixel buffers whose length does not
    /// match the claimed dimensions.
    pub fn new(width: usize, height: usize, pixels: Vec<Pixel>) -> (r: Option<PixelGrid>)
        ensures
            match r {
                Some(g) => g.wf() && g.width == width && g.height == height
                    && g.pixels == pixels,
                None => pixels@.len() != width * height,
            },
    {
        let n = pixels.len();
        match width.checked_mul(height) {
            Some(area) => {
                if n == area {
                    Some(PixelGrid { width, height, pixels })
                } else {
                    None
                }
            },
            None => None,
        }
    }
}

/// Brightness of a pixel, 0..=255: the truncating per-channel average
/// `r/3 + g/3 + b/3`, forced to 0 when the pixel is fully transparent.
pub open spec fn brightness_spec(p: Pixel) -> int {
    if p.a == 0 {
        0
    } else {
        p.r / 3 + p.g / 3 + p.b / 3
    }
}

/// Computes the brightness of one pixel.
pub fn brightness(p: Pixel) -> (b: u8)
    ensures
        b == brightness_spec(p),
{
    if p.a == 0 {
        0
    } else {
        p.r / 3 + p.g / 3 + p.b / 3
    }
}

} // verus!
