//! Row-major 8-bit RGB images.
use crate::palette::Pixel;
use vstd::prelude::*;

verus! {

/// An image of `width * height` RGB pixels, stored row by row.
#[derive(Debug)]
pub struct RgbImage {
    pub width: u32,
    pub height: u32,
    pub pixels: Vec<Pixel>,
}

/// The pixels that a buffer of packed `r, g, b` bytes holds, in order.
pub open spec fn pixels_of_bytes(buf: Seq<u8>) -> Seq<Pixel> {
    Seq::new(buf.len() / 3, |i: int| [buf[3 * i], buf[3 * i + 1], buf[3 * i + 2]])
}

proof fn lemma_cells_fit(width: u32, height: u32)
    ensures
        0 <= width * height <= u32::MAX * u32::MAX,
        3 * width * height == 3 * (width * height),
{
    assert(3 * width * height == 3 * (width * height)) by (nonlinear_arith);
    assert(0 <= width * height <= u32::MAX * u32::MAX) by (nonlinear_arith)
        requires
            0 <= width <= u32::MAX,
            0 <= height <= u32::MAX,
    ;
}

impl RgbImage {
    /// One pixel per cell of the grid.
    pub open spec fn wf(&self) -> bool {
        self.pixels@.len() == self.width * self.height
    }

    /// An image over `buf`, three bytes per pixel, row by row; `None` unless `buf` holds
    /// exactly `3 * width * height` bytes.
    pub fn from_raw(width: u32, height: u32, buf: Vec<u8>) -> (r: Option<RgbImage>)
        ensures
            r is Some <==> buf@.len() == 3 * width * height,
            r is Some ==> r->0.wf() && r->0.width == width && r->0.height == height
                && r->0.pixels@ == pixels_of_bytes(buf@),
    {
        proof {
            lemma_cells_fit(width, height);
        }
        let cells: u64 = width as u64 * height as u64;
        if buf.len() as u64 % 3 != 0 || buf.len() as u64 / 3 != cells {
            return None;
        }
        let n: usize = buf.len() / 3;
        proof {
            vstd::arithmetic::div_mod::lemma_fundamental_div_mod(buf@.len() as int, 3);
        }
        let mut pixels: Vec<Pixel> = Vec::with_capacity(n);
        let mut i: usize = 0;
        while i < n
            invariant
                n == buf@.len() / 3,
                3 * n <= buf@.len() <= usize::MAX,
                i <= n,
                pixels@ == pixels_of_bytes(buf@).subrange(0, i as int),
            decreases n - i,
        {
            assert(3 * i + 3 <= 3 * n);
            let base: usize = 3 * i;
            pixels.push([buf[base], buf[base + 1], buf[base + 2]]);
            i = i + 1;
            proof {
                assert(pixels@ =~= pixels_of_bytes(buf@).subrange(0, i as int));
            }
        }
        proof {
            assert(pixels@ =~= pixels_of_bytes(buf@));
        }
        Some(RgbImage { width, height, pixels })
    }

    /// An image over `pixels`, row by row; `None` unless there are exactly
    /// `width * height` of them.
    pub fn from_pixels(width: u32, height: u32, pixels: Vec<Pixel>) -> (r: Option<RgbImage>)
        ensures
            r is Some <==> pixels@.len() == width * height,
            r is Some ==> r->0.wf() && r->0.width == width && r->0.height == height
                && r->0.pixels@ == pixels@,
    {
        proof {
            lemma_cells_fit(width, height);
        }
        let cells: u64 = width as u64 * height as u64;
        if pixels.len() as u64 != cells {
            return None;
        }
        Some(RgbImage { width, height, pixels })
    }

    pub fn width(&self) -> (r: u32)
        ensures
            r == self.width,
    {
        self.width
    }

    pub fn height(&self) -> (r: u32)
        ensures
            r == self.height,
    {
        self.height
    }

    /// The pixel in column `x` of row `y`.
    pub fn get_pixel(&self, x: u32, y: u32) -> (r: Pixel)
        requires
            self.wf(),
            x < self.width,
            y < self.height,
        ensures
            r == self.pixels@[y * self.width + x],
    {
        assert(y * self.width + x < self.width * self.height) by (nonlinear_arith)
            requires
                x < self.width,
                y < self.height,
        ;
        assert(0 <= y * self.width) by (nonlinear_arith);
        assert(self.pixels@.len() == self.pixels.len());
        let i: usize = y as usize * self.width as usize + x as usize;
        self.pixels[i]
    }
}

} // verus!
