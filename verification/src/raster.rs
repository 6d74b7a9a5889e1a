//! The mathematical model of a pixel buffer.
//!
//! A [`Raster`] is what every buffer of the library is taken for in contracts:
//! a width, a height and the samples row by row, four to a pixel in the order
//! blue, green, red, alpha.

use vstd::prelude::*;

verus! {

/// A `width` by `height` buffer of four-sample pixels can be indexed by
/// `usize`: the samples of one row can be counted, and so can those of all
/// rows. The first bound matters where there is no row.
pub open spec fn addressable(width: int, height: int) -> bool {
    &&& 4 * width <= usize::MAX
    &&& 4 * width * height <= usize::MAX
}

/// The number of samples in a `width` by `height` buffer.
pub fn sample_count(width: u32, height: u32) -> (count: u128)
    ensures
        count == 4 * width * height,
{
    assert(0 <= width * height <= 0xffff_ffff * 0xffff_ffff) by (nonlinear_arith)
        requires
            0 <= width <= 0xffff_ffff,
            0 <= height <= 0xffff_ffff,
    ;
    assert(4 * width * height == 4 * (width * height)) by (nonlinear_arith);
    let pixels: u128 = (width as u128) * (height as u128);
    4 * pixels
}

/// Whether a `width` by `height` buffer can be indexed on this machine.
pub fn fits(width: u32, height: u32) -> (yes: bool)
    ensures
        yes == addressable(width as int, height as int),
{
    4 * (width as u128) <= usize::MAX as u128 && sample_count(width, height) <= usize::MAX as u128
}

pub struct Raster {
    pub width: nat,
    pub height: nat,
    pub samples: Seq<u8>,
}

impl Raster {
    /// The samples are exactly those of `width * height` pixels.
    pub open spec fn wf(self) -> bool {
        self.samples.len() == 4 * self.width * self.height
    }

    /// `(x, y)` is a pixel of this raster.
    pub open spec fn has(self, x: int, y: int) -> bool {
        0 <= x < self.width && 0 <= y < self.height
    }

    /// Where the samples of pixel `(x, y)` begin.
    pub open spec fn offset(self, x: int, y: int) -> int {
        4 * (y * self.width + x)
    }

    /// The four samples of pixel `(x, y)`.
    pub open spec fn pixel(self, x: int, y: int) -> Seq<u8> {
        self.samples.subrange(self.offset(x, y), self.offset(x, y) + 4)
    }

    /// This raster with the samples of pixel `(x, y)` replaced by `p`.
    pub open spec fn with_pixel(self, x: int, y: int, p: Seq<u8>) -> Raster {
        Raster {
            width: self.width,
            height: self.height,
            samples: Seq::new(
                self.samples.len(),
                |i: int|
                    if self.offset(x, y) <= i < self.offset(x, y) + 4 {
                        p[i - self.offset(x, y)]
                    } else {
                        self.samples[i]
                    },
            ),
        }
    }

    /// The raster of the given size whose samples are all zero.
    pub open spec fn blank(width: nat, height: nat) -> Raster {
        Raster { width, height, samples: Seq::new(4 * width * height, |i: int| 0u8) }
    }

    /// The raster is `width` by `height` and shows `f(x, y)` at every pixel.
    pub open spec fn shows(self, width: int, height: int, f: spec_fn(int, int) -> Seq<u8>) -> bool {
        &&& self.wf()
        &&& self.width == width
        &&& self.height == height
        &&& forall|x: int, y: int| #[trigger] self.has(x, y) ==> self.pixel(x, y) == f(x, y)
    }
}

/// The pixel that a blank raster shows everywhere.
pub open spec fn blank_pixel() -> Seq<u8> {
    seq![0u8, 0u8, 0u8, 0u8]
}

/// The samples of a pixel of the raster lie inside its samples.
pub proof fn lemma_offset_in_bounds(r: Raster, x: int, y: int)
    requires
        r.wf(),
        r.has(x, y),
    ensures
        0 <= r.offset(x, y),
        r.offset(x, y) + 4 <= r.samples.len(),
        r.pixel(x, y).len() == 4,
{
    let w = r.width as int;
    let h = r.height as int;
    assert(0 <= y * w && (y + 1) * w <= h * w) by (nonlinear_arith)
        requires
            0 <= y,
            y + 1 <= h,
            0 <= w,
    ;
    assert((y + 1) * w == y * w + w) by (nonlinear_arith);
    assert(4 * w * h == 4 * (h * w)) by (nonlinear_arith);
}

/// Two different pixels of a raster share no sample.
pub proof fn lemma_offsets_apart(r: Raster, x1: int, y1: int, x2: int, y2: int)
    requires
        r.has(x1, y1),
        r.has(x2, y2),
        x1 != x2 || y1 != y2,
    ensures
        r.offset(x1, y1) + 4 <= r.offset(x2, y2) || r.offset(x2, y2) + 4 <= r.offset(x1, y1),
{
    let w = r.width as int;
    if y1 < y2 {
        assert((y1 + 1) * w <= y2 * w) by (nonlinear_arith)
            requires
                y1 + 1 <= y2,
                0 <= w,
        ;
        assert((y1 + 1) * w == y1 * w + w) by (nonlinear_arith);
    } else if y2 < y1 {
        assert((y2 + 1) * w <= y1 * w) by (nonlinear_arith)
            requires
                y2 + 1 <= y1,
                0 <= w,
        ;
        assert((y2 + 1) * w == y2 * w + w) by (nonlinear_arith);
    }
}

/// Writing a pixel changes that pixel and no other.
pub proof fn lemma_with_pixel(r: Raster, x: int, y: int, p: Seq<u8>, x2: int, y2: int)
    requires
        r.wf(),
        r.has(x, y),
        r.has(x2, y2),
        p.len() == 4,
    ensures
        r.with_pixel(x, y, p).wf(),
        r.with_pixel(x, y, p).pixel(x2, y2) == if x2 == x && y2 == y {
            p
        } else {
            r.pixel(x2, y2)
        },
{
    lemma_offset_in_bounds(r, x, y);
    lemma_offset_in_bounds(r, x2, y2);
    let s = r.with_pixel(x, y, p);
    assert(s.offset(x2, y2) == r.offset(x2, y2));
    if x2 == x && y2 == y {
        assert(s.pixel(x2, y2) =~= p);
    } else {
        lemma_offsets_apart(r, x, y, x2, y2);
        assert(s.pixel(x2, y2) =~= r.pixel(x2, y2));
    }
}

/// Every pixel of a blank raster is four zero samples.
pub proof fn lemma_blank_pixel(width: nat, height: nat, x: int, y: int)
    requires
        Raster::blank(width, height).has(x, y),
    ensures
        Raster::blank(width, height).wf(),
        Raster::blank(width, height).pixel(x, y) == blank_pixel(),
{
    let r = Raster::blank(width, height);
    assert(r.wf());
    lemma_offset_in_bounds(r, x, y);
    assert(r.pixel(x, y) =~= blank_pixel());
}

/// A raster is its pixels: two rasters of one size that agree on every pixel
/// are the same raster.
pub proof fn lemma_pixels_determine(a: Raster, b: Raster)
    requires
        a.wf(),
        b.wf(),
        a.width == b.width,
        a.height == b.height,
        forall|x: int, y: int| #[trigger] a.has(x, y) ==> a.pixel(x, y) == b.pixel(x, y),
    ensures
        a == b,
{
    let w = a.width as int;
    assert forall|i: int| 0 <= i < a.samples.len() implies a.samples[i] == b.samples[i] by {
        let q = i / 4;
        let c = i % 4;
        assert(w > 0) by (nonlinear_arith)
            requires
                0 <= i < 4 * w * a.height,
                w >= 0,
        ;
        let y = q / w;
        let x = q % w;
        vstd::arithmetic::div_mod::lemma_fundamental_div_mod(q, w);
        assert(w * y == y * w) by (nonlinear_arith);
        assert(q < w * a.height) by (nonlinear_arith)
            requires
                4 * q + c == i,
                0 <= c,
                i < 4 * w * a.height,
        ;
        assert(0 <= x < w);
        assert(0 <= y) by (nonlinear_arith)
            requires
                0 <= q,
                w > 0,
                y == q / w,
        ;
        assert(y < a.height) by (nonlinear_arith)
            requires
                w * y + x == q,
                0 <= x,
                q < w * a.height,
                w > 0,
        ;
        assert(a.has(x, y));
        assert(a.offset(x, y) + c == i);
        lemma_offset_in_bounds(a, x, y);
        assert(a.pixel(x, y)[c] == a.samples[i]);
        assert(b.pixel(x, y)[c] == b.samples[i]);
    }
    assert(a.samples =~= b.samples);
}

} // verus!
