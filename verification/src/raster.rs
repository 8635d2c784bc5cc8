//! The order in which the pixels of an image leave the renderer.

use vstd::prelude::*;
use vstd::arithmetic::div_mod::{lemma_fundamental_div_mod, lemma_fundamental_div_mod_converse};

verus! {

/// The size of an image in pixels. Column 0 is the left edge, row 0 the
/// bottom edge.
#[derive(Clone, Copy, Debug, PartialEq, Eq, Structural)]
pub struct Raster {
    pub width: u32,
    pub height: u32,
}

impl Raster {
    /// The number of pixels.
    pub open spec fn len_spec(self) -> nat {
        self.width as nat * self.height as nat
    }

    /// The pixel that is written at place `k`, as column and row: the rows
    /// go from the top of the image down, each from left to right.
    pub open spec fn pixel_spec(self, k: int) -> (u32, u32) {
        ((k % self.width as int) as u32, (self.height - 1 - k / self.width as int) as u32)
    }

    /// The place at which the pixel in column `i` of row `j` is written.
    pub open spec fn place(self, i: int, j: int) -> int {
        (self.height - 1 - j) * self.width + i
    }

    /// The number of pixels.
    pub fn len(&self) -> (n: u64)
        ensures
            n == self.len_spec(),
    {
        proof {
            assert(self.width as nat * self.height as nat <= 0xffff_ffff * 0xffff_ffff)
                by (nonlinear_arith)
                requires
                    self.width <= 0xffff_ffff,
                    self.height <= 0xffff_ffff,
            ;
        }
        (self.width as u64) * (self.height as u64)
    }

    /// The pixel that is written at place `k`, as column and row, or `None`
    /// where the image has no more than `k` pixels.
    pub fn pixel(&self, k: u64) -> (p: Option<(u32, u32)>)
        ensures
            p == if k < self.len_spec() {
                Some(self.pixel_spec(k as int))
            } else {
                None
            },
            p matches Some((i, j)) ==> i < self.width && j < self.height && self.place(
                i as int,
                j as int,
            ) == k,
    {
        if k >= self.len() {
            return None;
        }
        let w: u64 = self.width as u64;
        let h: u64 = self.height as u64;
        assert(w > 0) by (nonlinear_arith)
            requires
                k < w * h,
        ;
        let row: u64 = k / w;
        let i: u64 = k % w;
        proof {
            lemma_fundamental_div_mod(k as int, w as int);
            assert(row < h) by (nonlinear_arith)
                requires
                    k == w * row + i,
                    0 <= i,
                    k < w * h,
                    w > 0,
            ;
            assert((h - 1 - (h - 1 - row)) * w + i == k) by (nonlinear_arith)
                requires
                    k == w * row + i,
            ;
        }
        Some((i as u32, (h - 1 - row) as u32))
    }
}

/// Every pixel of the image is written exactly once: the pixel at the place
/// of a pixel is that pixel, and the place of the pixel at a place is that
/// place.
pub proof fn lemma_each_pixel_once(r: Raster, i: u32, j: u32, k: int)
    ensures
        i < r.width && j < r.height ==> 0 <= r.place(i as int, j as int) < r.len_spec()
            && r.pixel_spec(r.place(i as int, j as int)) == (i, j),
        0 <= k < r.len_spec() ==> r.pixel_spec(k).0 < r.width && r.pixel_spec(k).1 < r.height
            && r.place(r.pixel_spec(k).0 as int, r.pixel_spec(k).1 as int) == k,
{
    let w = r.width as int;
    let h = r.height as int;
    if i < r.width && j < r.height {
        let row = h - 1 - j;
        let p = r.place(i as int, j as int);
        assert(0 <= row * w && row * w + w <= w * h) by (nonlinear_arith)
            requires
                0 <= row < h,
                0 < w,
        ;
        assert(p == w * row + i) by (nonlinear_arith)
            requires
                p == row * w + i,
        ;
        lemma_fundamental_div_mod_converse(p, w, row, i as int);
    }
    if 0 <= k < r.len_spec() {
        assert(w > 0 && h > 0) by (nonlinear_arith)
            requires
                0 <= k < w * h,
                w >= 0,
                h >= 0,
        ;
        let row = k / w;
        let col = k % w;
        lemma_fundamental_div_mod(k, w);
        assert(0 <= row < h) by (nonlinear_arith)
            requires
                k == w * row + col,
                0 <= col < w,
                0 <= k < w * h,
        ;
        assert((h - 1 - (h - 1 - row)) * w + col == k) by (nonlinear_arith)
            requires
                k == w * row + col,
        ;
    }
}

/// The pixels are written row by row from the top, each row from the left:
/// of two places the earlier one holds a pixel of a higher row, or of the
/// same row and farther left.
pub proof fn lemma_top_down_left_right(r: Raster, a: int, b: int)
    requires
        0 <= a < b < r.len_spec(),
    ensures
        r.pixel_spec(a).1 > r.pixel_spec(b).1 || (r.pixel_spec(a).1 == r.pixel_spec(b).1
            && r.pixel_spec(a).0 < r.pixel_spec(b).0),
{
    let w = r.width as int;
    let h = r.height as int;
    assert(w > 0) by (nonlinear_arith)
        requires
            0 < w * h,
            h >= 0,
    ;
    lemma_fundamental_div_mod(a, w);
    lemma_fundamental_div_mod(b, w);
    let (ra, rb) = (a / w, b / w);
    assert(0 <= ra <= rb < h) by (nonlinear_arith)
        requires
            a == w * ra + a % w,
            b == w * rb + b % w,
            0 <= a % w < w,
            0 <= b % w < w,
            0 <= a < b < w * h,
    ;
}

} // verus!
