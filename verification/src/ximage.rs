//! The placement strategies, and the canvas that they produce.

use crate::blit::{blit_area, blit_pixel, replace, replace_area};
use crate::buffer::{
    bgra_of, covering, fit_size, resized, resized_to_fill, source_of, BgraImage,
};
use crate::error::Error;
use crate::raster::{addressable, blank_pixel, fits, lemma_blank_pixel, Raster};
use crate::rect::{monus, Position, Rect};
use crate::tiling::{spread, spread_pixel, stack, stack_pixel, tile_origin, tile_start};
use image::DynamicImage;
use vstd::prelude::*;

verus! {

/// The number of significant bits in a pixel of a finished canvas.
pub const DEPTH: u32 = 24;

/// How many steps of `b` it takes to cover `a`: `a / b`, rounded up.
pub open spec fn spec_ceil(a: u32, b: u32) -> u32 {
    if a == 0 {
        0
    } else {
        (1 + (a - 1) / (b as int)) as u32
    }
}

/// `a / b` rounded up, and `0` for `a == 0` whatever `b` is.
#[verifier::when_used_as_spec(spec_ceil)]
pub fn ceil(a: u32, b: u32) -> (steps: u32)
    requires
        a == 0 || b > 0,
    ensures
        steps == spec_ceil(a, b),
        a > 0 ==> (steps - 1) * b < a <= steps * b,
{
    if a == 0 {
        0
    } else {
        let q: u32 = (a - 1) / b;
        proof {
            let m = (a - 1) as int;
            let d = b as int;
            vstd::arithmetic::div_mod::lemma_fundamental_div_mod(m, d);
            assert(0 <= m % d < d);
            assert(d * (m / d) == (m / d) * d) by (nonlinear_arith);
            assert((m / d + 1) * d == (m / d) * d + d) by (nonlinear_arith);
            assert(m / d <= m) by (nonlinear_arith)
                requires
                    m >= 0,
                    d >= 1,
                    d * (m / d) + (m % d) == m,
                    0 <= m % d,
            ;
        }
        1 + q
    }
}

/// `extent` scaled by `to / from`, rounded down.
pub fn scale(extent: u32, to: u32, from: u32) -> (scaled: u64)
    requires
        from > 0,
    ensures
        scaled == (extent as int * to as int) / (from as int),
{
    assert(0 <= extent * to <= 0xffff_ffff * 0xffff_ffff) by (nonlinear_arith)
        requires
            0 <= extent <= 0xffff_ffff,
            0 <= to <= 0xffff_ffff,
    ;
    let product: u64 = (extent as u64) * (to as u64);
    product / (from as u64)
}

/// What the centred placement shows at `(x, y)` of a `width` by `height`
/// canvas: the middle of the source, as much of it as the canvas holds, in
/// the middle of the canvas, and blank pixels around it.
pub open spec fn center_pixel(source: Raster, width: int, height: int, x: int, y: int) -> Seq<u8> {
    let w = vstd::math::min(source.width as int, width);
    let h = vstd::math::min(source.height as int, height);
    let left = width / 2 - w / 2;
    let top = height / 2 - h / 2;
    if left <= x < left + w && top <= y < top + h {
        source.pixel(x - left + (source.width - w) / 2, y - top + (source.height - h) / 2)
    } else {
        blank_pixel()
    }
}

/// What a blank `width` by `height` canvas shows at `(x, y)` once `image` has
/// been put on it, whole and from its top left pixel on, at the point that
/// centres it; an image wider or higher than the canvas starts at the edge.
pub open spec fn letterbox_pixel(image: Raster, width: int, height: int, x: int, y: int) -> Seq<u8> {
    let left = monus(width / 2, image.width as int / 2);
    let top = monus(height / 2, image.height as int / 2);
    if left <= x < left + image.width && top <= y < top + image.height {
        image.pixel(x - left, y - top)
    } else {
        blank_pixel()
    }
}

/// The source is repeated rather than centred: it is no larger than the
/// canvas on at least one axis.
pub open spec fn tiles(source: Raster, width: int, height: int) -> bool {
    source.width <= width || source.height <= height
}

/// What the tiled placement shows at `(x, y)` of a `width` by `height`
/// canvas: the source repeated in both directions with the phase of the copy
/// that is centred on the canvas. A first row or column that the copies do
/// not reach (see [`tile_start`]) is blank.
pub open spec fn tile_pixel(source: Raster, width: int, height: int, x: int, y: int) -> Seq<u8> {
    let w = source.width as int;
    let h = source.height as int;
    if x >= tile_start(width, w) && y >= tile_start(height, h) {
        source.pixel((x - tile_origin(width, w)) % w, (y - tile_origin(height, h)) % h)
    } else {
        blank_pixel()
    }
}

/// The image that `DynamicImage::resize` makes of `source` for the bounds
/// `width` by `height`: of the fitting size, with the samples that the
/// scaling gives.
pub open spec fn fitted(source: Raster, width: u32, height: u32) -> Raster {
    let size = fit_size(source.width as int, source.height as int, width as int, height as int);
    Raster {
        width: size.0 as nat,
        height: size.1 as nat,
        samples: resized(source.width as u32, source.height as u32, source.samples, width, height),
    }
}

/// The image that `DynamicImage::resize_to_fill` makes of `source` for the
/// size `width` by `height`: of that size, with the samples that the scaling
/// and the cut give.
pub open spec fn covered(source: Raster, width: u32, height: u32) -> Raster {
    Raster {
        width: width as nat,
        height: height as nat,
        samples: resized_to_fill(
            source.width as u32,
            source.height as u32,
            source.samples,
            width,
            height,
        ),
    }
}

/// What the fitting placement shows at `(x, y)` of a `width` by `height`
/// canvas: the source scaled to fit, in the middle of the canvas, and blank
/// pixels around it; of a source without pixels, blank pixels only.
pub open spec fn fill_pixel(source: Raster, width: u32, height: u32, x: int, y: int) -> Seq<u8> {
    if source.width == 0 || source.height == 0 {
        blank_pixel()
    } else {
        letterbox_pixel(fitted(source, width, height), width as int, height as int, x, y)
    }
}

/// A finished canvas: the frame of one display, ready to be handed over.
pub struct Image {
    width: u32,
    height: u32,
    depth: u32,
    pub data: Vec<u8>,
}

impl View for Image {
    type V = Raster;

    closed spec fn view(&self) -> Raster {
        Raster { width: self.width as nat, height: self.height as nat, samples: self.data@ }
    }
}

impl Image {
    /// The colour depth that the canvas declares.
    pub closed spec fn spec_depth(&self) -> u32 {
        self.depth
    }

    /// The canvas of an image: its size, its samples and a depth of 24 bits.
    pub fn create(image: BgraImage) -> (canvas: Self)
        ensures
            canvas@ == image@,
            canvas.spec_depth() == DEPTH,
    {
        let (width, height) = image.dimensions();
        let depth = DEPTH;

        Image { width, height, depth, data: image.into_raw() }
    }

    /// Width and height as the display protocol takes them, in sixteen bits:
    /// each is the extent modulo 65536, and so the extent itself where that
    /// is below 65536.
    pub fn size(&self) -> (size: (u16, u16))
        ensures
            size.0 == self@.width % 0x1_0000,
            size.1 == self@.height % 0x1_0000,
            self@.width <= 0xffff ==> size.0 == self@.width,
            self@.height <= 0xffff ==> size.1 == self@.height,
    {
        let width = self.width;
        let height = self.height;
        assert(width as u16 == width % 0x1_0000) by (bit_vector);
        assert(height as u16 == height % 0x1_0000) by (bit_vector);
        (width as u16, height as u16)
    }

    /// The width in pixels.
    pub fn width(&self) -> (width: u32)
        ensures
            width == self@.width,
    {
        self.width
    }

    /// The height in pixels.
    pub fn height(&self) -> (height: u32)
        ensures
            height == self@.height,
    {
        self.height
    }

    /// The samples of the canvas, row by row: what the field `data` holds.
    pub fn buffer(&self) -> (data: &Vec<u8>)
        ensures
            data@ == self@.samples,
    {
        &self.data
    }

    /// The declared colour depth in bits.
    pub fn depth(&self) -> (depth: u32)
        ensures
            depth == self.spec_depth(),
    {
        self.depth
    }
}

/// The placement strategy of one composition.
#[derive(Debug, Clone, Copy, PartialEq, Eq, Structural)]
pub enum ImageMode {
    /// Scale the source until it covers the canvas, and cut off what juts out.
    Max,
    /// Scale the source until it fits into the canvas, and leave the rest blank.
    Fill,
    /// Put the source, unscaled, in the middle of the canvas.
    Center,
    /// Repeat the source, unscaled, outwards from the middle of the canvas.
    Tile,
}

impl ImageMode {
    /// The source, unscaled, in the middle of a blank canvas of the given
    /// size. Of a source larger than the canvas the middle part is shown.
    pub fn center(image: &BgraImage, width: u32, height: u32) -> (canvas: BgraImage)
        requires
            addressable(width as int, height as int),
        ensures
            canvas@.shows(
                width as int,
                height as int,
                |x: int, y: int| center_pixel(image@, width as int, height as int, x, y),
            ),
    {
        let screen = Rect::new(0, 0, width, height);
        let (image_width, image_height) = image.dimensions();
        let dim = screen.clamp(Rect::new(0, 0, image_width, image_height));
        let mut canvas = BgraImage::blank(width, height);
        let center = screen.relative(Position::Center, dim.width, dim.height);
        let crop = Rect::new(
            (image_width - dim.width) / 2,
            (image_height - dim.height) / 2,
            dim.width,
            dim.height,
        );
        let ghost empty = canvas@;
        replace_area(&mut canvas, image, center.x, center.y, crop);
        proof {
            let part = blit_area((width, height), (image_width, image_height), center.x, center.y, crop);
            assert(part == crop);
            assert forall|x: int, y: int| #[trigger] canvas@.has(x, y) implies canvas@.pixel(x, y)
                == center_pixel(image@, width as int, height as int, x, y) by {
                lemma_blank_pixel(width as nat, height as nat, x, y);
                assert(canvas@.pixel(x, y) == blit_pixel(
                    empty,
                    image@,
                    center.x,
                    center.y,
                    part,
                    x,
                    y,
                ));
            }
        }
        canvas
    }

    /// The image, whole, on a blank canvas of the given size, at the point
    /// that centres it. What does not fit is cut off on the right and below.
    pub fn letterbox(image: &BgraImage, width: u32, height: u32) -> (canvas: BgraImage)
        requires
            addressable(width as int, height as int),
        ensures
            canvas@.shows(
                width as int,
                height as int,
                |x: int, y: int| letterbox_pixel(image@, width as int, height as int, x, y),
            ),
    {
        let screen = Rect::new(0, 0, width, height);
        let (image_width, image_height) = image.dimensions();
        let mut canvas = BgraImage::blank(width, height);
        let center = screen.relative(Position::Center, image_width, image_height);
        replace(&mut canvas, image, center.x, center.y);
        proof {
            assert forall|x: int, y: int| #[trigger] canvas@.has(x, y) implies canvas@.pixel(x, y)
                == letterbox_pixel(image@, width as int, height as int, x, y) by {
                lemma_blank_pixel(width as nat, height as nat, x, y);
            }
        }
        canvas
    }

    /// The source repeated over a canvas of the given size, in step with the
    /// copy that is centred on it. A source that is larger than the canvas on
    /// both axes cannot be repeated and is centred instead.
    pub fn tile(image: &BgraImage, width: u32, height: u32) -> (canvas: BgraImage)
        requires
            image@.width > 0,
            image@.height > 0,
            addressable(width as int, height as int),
            tiles(image@, width as int, height as int) ==> addressable(
                image@.width as int,
                height as int,
            ),
        ensures
            canvas@.shows(
                width as int,
                height as int,
                |x: int, y: int|
                    if tiles(image@, width as int, height as int) {
                        tile_pixel(image@, width as int, height as int, x, y)
                    } else {
                        center_pixel(image@, width as int, height as int, x, y)
                    },
            ),
    {
        let screen = Rect::new(0, 0, width, height);
        let (image_width, image_height) = image.dimensions();
        let dim = Rect::new(0, 0, image_width, image_height);

        if !screen.contains_width(&dim) && !screen.contains_height(&dim) {
            return Self::center(image, width, height);
        }
        let column = stack(image, height);
        let canvas = spread(&column, width);
        proof {
            let w = image_width as int;
            assert forall|x: int, y: int| #[trigger] canvas@.has(x, y) implies canvas@.pixel(x, y)
                == tile_pixel(image@, width as int, height as int, x, y) by {
                assert(canvas@.pixel(x, y) == spread_pixel(column@, width as int, x, y));
                if x >= tile_start(width as int, w) {
                    let cx = (x - tile_origin(width as int, w)) % w;
                    assert(0 <= cx < w) by (nonlinear_arith)
                        requires
                            w > 0,
                            cx == (x - tile_origin(width as int, w)) % w,
                    ;
                    assert(column@.has(cx, y));
                    assert(column@.pixel(cx, y) == stack_pixel(image@, height as int, cx, y));
                }
            }
        }
        canvas
    }

    /// The source scaled, with its aspect ratio kept, to the largest size
    /// that fits the canvas, and put in the middle of it. A source that has
    /// an extent on one axis only has no pixel to scale and leaves the canvas
    /// blank.
    pub fn fill(image: &BgraImage, width: u32, height: u32) -> (canvas: BgraImage)
        requires
            image@.width > 0 || image@.height > 0,
            addressable(width as int, height as int),
            image@.width > 0 && image@.height > 0 ==> addressable(
                image@.width as int,
                fit_size(
                    image@.width as int,
                    image@.height as int,
                    width as int,
                    height as int,
                ).1,
            ),
        ensures
            canvas@.shows(
                width as int,
                height as int,
                |x: int, y: int| fill_pixel(image@, width, height, x, y),
            ),
    {
        let (image_width, image_height) = image.dimensions();
        if image_width == 0 || image_height == 0 {
            return Self::center(image, width, height);
        }
        let scaled = image.resize(width, height);
        assert(scaled@ == fitted(image@, width, height));
        Self::letterbox(&scaled, width, height)
    }

    /// The source scaled, with its aspect ratio kept, until it covers the
    /// canvas, and cut down to the canvas about its middle.
    pub fn max(image: &BgraImage, width: u32, height: u32) -> (canvas: BgraImage)
        requires
            image@.width > 0,
            image@.height > 0,
            width > 0,
            height > 0,
            covering(image@.width as int, image@.height as int, width as int, height as int),
        ensures
            canvas@ == covered(image@, width, height),
            canvas@.wf(),
    {
        image.resize_to_fill(width, height)
    }

    /// This placement cannot work on a source of the given size. Covering
    /// and repeating need a source with pixels. Fitting needs a source with an
    /// extent on at least one axis. Centring takes any source.
    pub open spec fn rejects(self, source_width: int, source_height: int) -> bool {
        match self {
            ImageMode::Max | ImageMode::Tile => source_width == 0 || source_height == 0,
            ImageMode::Fill => source_width == 0 && source_height == 0,
            ImageMode::Center => false,
        }
    }

    /// Why this placement produces no canvas of the given size from the
    /// given source, if it does not.
    pub open spec fn refusal(self, source: Raster, width: u32, height: u32) -> Option<Error> {
        if width == 0 || height == 0 {
            Some(Error::DegenerateTarget)
        } else if self.rejects(source.width as int, source.height as int) {
            Some(Error::UnsupportedFormat)
        } else {
            None
        }
    }

    /// The buffers that this placement allocates for a canvas of the given
    /// size, from a source of the given size, can all be indexed.
    pub open spec fn spec_workable(
        &self,
        source_width: u32,
        source_height: u32,
        width: u32,
        height: u32,
    ) -> bool {
        let sw = source_width as int;
        let sh = source_height as int;
        let w = width as int;
        let h = height as int;
        (w > 0 && h > 0) ==> {
            &&& addressable(sw, sh)
            &&& !self.rejects(sw, sh) ==> {
                &&& addressable(w, h)
                &&& match *self {
                    ImageMode::Max => covering(sw, sh, w, h),
                    ImageMode::Fill => sw > 0 && sh > 0 ==> addressable(
                        sw,
                        fit_size(sw, sh, w, h).1,
                    ),
                    ImageMode::Center => true,
                    ImageMode::Tile => (sw <= w || sh <= h) ==> addressable(sw, h),
                }
            }
        }
    }

    /// What the canvas of this placement shows at each pixel.
    pub open spec fn composed(self, source: Raster, width: u32, height: u32) -> spec_fn(
        int,
        int,
    ) -> Seq<u8> {
        let w = width as int;
        let h = height as int;
        match self {
            ImageMode::Max => |x: int, y: int| covered(source, width, height).pixel(x, y),
            ImageMode::Fill => |x: int, y: int| fill_pixel(source, width, height, x, y),
            ImageMode::Center => |x: int, y: int| center_pixel(source, w, h, x, y),
            ImageMode::Tile => |x: int, y: int|
                if tiles(source, w, h) {
                    tile_pixel(source, w, h, x, y)
                } else {
                    center_pixel(source, w, h, x, y)
                },
        }
    }

    /// `result` is what this placement owes for the given source and size:
    /// the refusal where there is one, and else a canvas of exactly that
    /// size, with a depth of 24 bits, that shows the composition.
    pub open spec fn yields(
        self,
        source: Raster,
        width: u32,
        height: u32,
        result: Result<Image, Error>,
    ) -> bool {
        match result {
            Ok(canvas) => {
                &&& self.refusal(source, width, height) is None
                &&& canvas@.width == width
                &&& canvas@.height == height
                &&& canvas.spec_depth() == DEPTH
                &&& canvas@.shows(width as int, height as int, self.composed(source, width, height))
            },
            Err(e) => self.refusal(source, width, height) == Some(e),
        }
    }

    /// Whether [`ImageMode::apply`] may be called for a source and a canvas
    /// of the given sizes: whether every buffer it would allocate can be
    /// indexed on this machine.
    #[verifier::when_used_as_spec(spec_workable)]
    pub fn workable(&self, source_width: u32, source_height: u32, width: u32, height: u32) -> (yes:
        bool)
        ensures
            yes == self.spec_workable(source_width, source_height, width, height),
    {
        if width == 0 || height == 0 {
            return true;
        }
        if !fits(source_width, source_height) {
            return false;
        }
        let empty = source_width == 0 || source_height == 0;
        match self {
            ImageMode::Center => fits(width, height),
            ImageMode::Tile => {
                if empty {
                    true
                } else if source_width <= width || source_height <= height {
                    fits(width, height) && fits(source_width, height)
                } else {
                    fits(width, height)
                }
            },
            ImageMode::Fill => {
                if source_width == 0 && source_height == 0 {
                    true
                } else if empty {
                    fits(width, height)
                } else {
                    let across: u64 = scale(source_height, width, source_width);
                    let fit_height: u64 = if across < height as u64 {
                        across
                    } else {
                        height as u64
                    };
                    fits(width, height) && fits(source_width, fit_height as u32)
                }
            },
            ImageMode::Max => {
                if empty {
                    true
                } else {
                    let across: u64 = scale(source_width, height, source_height);
                    let down: u64 = scale(source_height, width, source_width);
                    let cover_width: u64 = if across > width as u64 {
                        across
                    } else {
                        width as u64
                    };
                    let cover_height: u64 = if down > height as u64 {
                        down
                    } else {
                        height as u64
                    };
                    if cover_width > u32::MAX as u64 || cover_height > u32::MAX as u64 {
                        false
                    } else {
                        fits(width, height) && fits(source_width, cover_height as u32) && fits(
                            cover_width as u32,
                            cover_height as u32,
                        )
                    }
                }
            },
        }
    }

    /// Places the image on a canvas of the given size.
    ///
    /// The image is first brought into the BGRA format. A target without
    /// pixels is refused, and so is a source on which the placement cannot
    /// work (see [`ImageMode::rejects`]). Otherwise the canvas has exactly
    /// the size asked for, a depth of 24 bits, and shows what
    /// [`ImageMode::composed`] says.
    pub fn apply(&self, image: &DynamicImage, width: u32, height: u32) -> (result: Result<
        Image,
        Error,
    >)
        requires
            self.spec_workable(bgra_of(*image).0, bgra_of(*image).1, width, height),
        ensures
            self.yields(source_of(*image), width, height, result),
    {
        if width == 0 || height == 0 {
            return Err(Error::DegenerateTarget);
        }
        let bgra = BgraImage::to_bgra(image);
        let (source_width, source_height) = bgra.dimensions();
        assert(bgra@ == source_of(*image));
        let empty = source_width == 0 || source_height == 0;

        let canvas = match self {
            ImageMode::Max => {
                if empty {
                    return Err(Error::UnsupportedFormat);
                }
                Self::max(&bgra, width, height)
            },
            ImageMode::Fill => {
                if source_width == 0 && source_height == 0 {
                    return Err(Error::UnsupportedFormat);
                }
                Self::fill(&bgra, width, height)
            },
            ImageMode::Tile => {
                if empty {
                    return Err(Error::UnsupportedFormat);
                }
                Self::tile(&bgra, width, height)
            },
            ImageMode::Center => Self::center(&bgra, width, height),
        };
        proof {
            let f = self.composed(source_of(*image), width, height);
            assert forall|x: int, y: int| #[trigger] canvas@.has(x, y) implies canvas@.pixel(x, y)
                == f(x, y) by {}
        }
        Ok(Image::create(canvas))
    }

    /// [`ImageMode::apply`] for any image and any size: `None` where a
    /// buffer that the placement needs could not be indexed on this machine,
    /// and else what `apply` gives.
    ///
    /// On a machine that counts to 2^50, a source that the placement does not
    /// reject and a canvas with pixels, both with extents that the display
    /// protocol can express, always give a canvas, and it has exactly the
    /// size asked for.
    pub fn try_apply(&self, image: &DynamicImage, width: u32, height: u32) -> (result: Option<
        Result<Image, Error>,
    >)
        ensures
            result is None <==> !self.spec_workable(
                bgra_of(*image).0,
                bgra_of(*image).1,
                width,
                height,
            ),
            result matches Some(outcome) ==> self.yields(source_of(*image), width, height, outcome),
            ({
                &&& usize::MAX >= 0x4_0000_0000_0000
                &&& bgra_of(*image).0 <= PROTOCOL_EXTENT
                &&& bgra_of(*image).1 <= PROTOCOL_EXTENT
                &&& 0 < width <= PROTOCOL_EXTENT
                &&& 0 < height <= PROTOCOL_EXTENT
                &&& !self.rejects(bgra_of(*image).0 as int, bgra_of(*image).1 as int)
            }) ==> (match result {
                Some(Ok(canvas)) => {
                    &&& canvas@.width == width
                    &&& canvas@.height == height
                    &&& canvas@.samples.len() == 4 * width * height
                },
                _ => false,
            }),
    {
        let (source_width, source_height) = BgraImage::dimensions_of(image);
        proof {
            if usize::MAX >= 0x4_0000_0000_0000 && source_width <= PROTOCOL_EXTENT && source_height
                <= PROTOCOL_EXTENT && width <= PROTOCOL_EXTENT && height <= PROTOCOL_EXTENT {
                lemma_protocol_sizes_are_workable(
                    *self,
                    source_width,
                    source_height,
                    width,
                    height,
                );
            }
        }
        if self.workable(source_width, source_height, width, height) {
            Some(self.apply(image, width, height))
        } else {
            None
        }
    }
}

/// A source that is no larger than the canvas is shown whole and unchanged,
/// at the offset that centres it, with blank pixels around it.
pub proof fn lemma_center_shows_a_small_source_whole(
    source: Raster,
    width: int,
    height: int,
    x: int,
    y: int,
)
    requires
        source.width <= width,
        source.height <= height,
    ensures
        center_pixel(source, width, height, x, y) == (if width / 2 - source.width / 2 <= x < width
            / 2 - source.width / 2 + source.width && height / 2 - source.height / 2 <= y < height
            / 2 - source.height / 2 + source.height {
            source.pixel(x - (width / 2 - source.width / 2), y - (height / 2 - source.height / 2))
        } else {
            blank_pixel()
        }),
{
}

/// Of a source that is larger than the canvas on both axes the canvas shows
/// the middle part, and no blank pixel.
pub proof fn lemma_center_crops_a_large_source(
    source: Raster,
    width: int,
    height: int,
    x: int,
    y: int,
)
    requires
        0 <= x < width <= source.width,
        0 <= y < height <= source.height,
    ensures
        center_pixel(source, width, height, x, y) == source.pixel(
            x + (source.width - width) / 2,
            y + (source.height - height) / 2,
        ),
        source.has(x + (source.width - width) / 2, y + (source.height - height) / 2),
{
}

/// On an axis on which the source is larger than the canvas, the canvas
/// shows the middle part of the source from edge to edge.
pub proof fn lemma_center_crops_a_wide_source(
    source: Raster,
    width: int,
    height: int,
    x: int,
    y: int,
)
    requires
        0 <= x < width <= source.width,
        source.height <= height,
        height / 2 - source.height / 2 <= y < height / 2 - source.height / 2 + source.height,
    ensures
        center_pixel(source, width, height, x, y) == source.pixel(
            x + (source.width - width) / 2,
            y - (height / 2 - source.height / 2),
        ),
{
}

/// The copy in the middle of a tiled canvas is the source itself, at the
/// offset that centres it.
pub proof fn lemma_tile_shows_the_centred_copy(
    source: Raster,
    width: int,
    height: int,
    x: int,
    y: int,
)
    requires
        0 < source.width <= width,
        0 < source.height <= height,
        tile_origin(width, source.width as int) <= x < tile_origin(width, source.width as int)
            + source.width,
        tile_origin(height, source.height as int) <= y < tile_origin(height, source.height as int)
            + source.height,
    ensures
        tile_pixel(source, width, height, x, y) == source.pixel(
            x - tile_origin(width, source.width as int),
            y - tile_origin(height, source.height as int),
        ),
{
    let w = source.width as int;
    let h = source.height as int;
    crate::tiling::lemma_tile_reach(width, w);
    crate::tiling::lemma_tile_reach(height, h);
    crate::tiling::lemma_wrap(x - tile_origin(width, w), w, 0, 0);
    crate::tiling::lemma_wrap(y - tile_origin(height, h), h, 0, 0);
}

/// A tiled canvas repeats itself after one width and after one height of
/// the source, wherever the copies reach.
pub proof fn lemma_tile_is_periodic(source: Raster, width: int, height: int, x: int, y: int)
    requires
        source.width > 0,
        source.height > 0,
        0 <= width,
        0 <= height,
        x >= tile_start(width, source.width as int),
        y >= tile_start(height, source.height as int),
    ensures
        tile_pixel(source, width, height, x + source.width, y) == tile_pixel(
            source,
            width,
            height,
            x,
            y,
        ),
        tile_pixel(source, width, height, x, y + source.height) == tile_pixel(
            source,
            width,
            height,
            x,
            y,
        ),
{
    let w = source.width as int;
    let h = source.height as int;
    crate::tiling::lemma_tile_reach(width, w);
    crate::tiling::lemma_tile_reach(height, h);
    let dx = x - tile_origin(width, w);
    let dy = y - tile_origin(height, h);
    vstd::arithmetic::div_mod::lemma_mod_add_multiples_vanish(dx, w);
    vstd::arithmetic::div_mod::lemma_mod_add_multiples_vanish(dy, h);
    assert(x + w - tile_origin(width, w) == w + dx);
    assert(y + h - tile_origin(height, h) == h + dy);
}

/// The largest extent that the display protocol can ask for.
pub const PROTOCOL_EXTENT: u32 = 0xffff;

/// Whatever a placement does not refuse, it puts on a canvas of exactly the
/// size asked for, with four samples for each pixel and a depth of 24 bits.
pub proof fn lemma_canvas_has_the_size_asked_for(
    mode: ImageMode,
    source: Raster,
    width: u32,
    height: u32,
    result: Result<Image, Error>,
)
    requires
        mode.yields(source, width, height, result),
        width > 0,
        height > 0,
        !mode.rejects(source.width as int, source.height as int),
    ensures
        result matches Ok(canvas) && canvas@.width == width && canvas@.height == height
            && canvas@.samples.len() == 4 * width * height && canvas.spec_depth() == DEPTH,
{
}

/// On a machine that counts to 2^34 a canvas whose extents the display
/// protocol can express can be indexed.
pub proof fn lemma_protocol_canvas_is_addressable(width: u32, height: u32)
    requires
        usize::MAX >= 0x4_0000_0000,
        width <= PROTOCOL_EXTENT,
        height <= PROTOCOL_EXTENT,
    ensures
        addressable(width as int, height as int),
{
    assert(0 <= width * height <= 0xffff * 0xffff) by (nonlinear_arith)
        requires
            0 <= width <= 0xffff,
            0 <= height <= 0xffff,
    ;
    assert(4 * width * height == 4 * (width * height)) by (nonlinear_arith);
}

/// `x * to / from` lies between the bounds that the division leaves.
proof fn lemma_scaled(x: int, to: int, from: int)
    requires
        0 <= x,
        0 <= to,
        0 < from,
    ensures
        0 <= x * to / from <= x * to,
        (x * to / from) * from <= x * to < (x * to / from + 1) * from,
{
    let p = x * to;
    assert(0 <= p) by (nonlinear_arith)
        requires
            p == x * to,
            0 <= x,
            0 <= to,
    ;
    vstd::arithmetic::div_mod::lemma_fundamental_div_mod(p, from);
    let q = p / from;
    assert(0 <= p % from < from);
    assert(from * q == q * from) by (nonlinear_arith);
    assert((q + 1) * from == q * from + from) by (nonlinear_arith);
    assert(0 <= q <= p) by (nonlinear_arith)
        requires
            q * from + (p % from) == p,
            0 <= p % from < from,
            0 < from,
            0 <= p,
    ;
}

/// On a machine that counts to 2^50 every placement may be applied to a
/// source and a canvas whose extents the display protocol can express: no
/// buffer that it needs is too large.
pub proof fn lemma_protocol_sizes_are_workable(
    mode: ImageMode,
    source_width: u32,
    source_height: u32,
    width: u32,
    height: u32,
)
    requires
        usize::MAX >= 0x4_0000_0000_0000,
        source_width <= PROTOCOL_EXTENT,
        source_height <= PROTOCOL_EXTENT,
        width <= PROTOCOL_EXTENT,
        height <= PROTOCOL_EXTENT,
    ensures
        mode.spec_workable(source_width, source_height, width, height),
{
    let sw = source_width as int;
    let sh = source_height as int;
    let w = width as int;
    let h = height as int;
    assert(0 <= sw * sh <= 0xffff * 0xffff && 0 <= w * h <= 0xffff * 0xffff && 0 <= sw * h
        <= 0xffff * 0xffff) by (nonlinear_arith)
        requires
            0 <= sw <= 0xffff,
            0 <= sh <= 0xffff,
            0 <= w <= 0xffff,
            0 <= h <= 0xffff,
    ;
    assert(4 * sw * sh == 4 * (sw * sh) && 4 * w * h == 4 * (w * h) && 4 * sw * h == 4 * (sw * h))
        by (nonlinear_arith);
    if w > 0 && h > 0 && sw > 0 && sh > 0 {
        lemma_scaled(sw, h, sh);
        lemma_scaled(sh, w, sw);
        let across = sw * h / sh;
        let down = sh * w / sw;
        let fit = fit_size(sw, sh, w, h);
        assert(0 <= fit.1 <= h);
        assert(0 <= sw * fit.1 <= 0xffff * 0xffff) by (nonlinear_arith)
            requires
                0 <= sw <= 0xffff,
                0 <= fit.1 <= 0xffff,
        ;
        assert(4 * sw * fit.1 == 4 * (sw * fit.1)) by (nonlinear_arith);

        let cover = crate::buffer::cover_size(sw, sh, w, h);
        assert(sh * w <= 0xffff * 0xffff) by (nonlinear_arith)
            requires
                0 <= sh <= 0xffff,
                0 <= w <= 0xffff,
        ;
        assert(cover.0 == w || cover.1 == h) by {
            if across > w && down > h {
                assert((w + 1) * sh <= across * sh) by (nonlinear_arith)
                    requires
                        w + 1 <= across,
                        0 <= sh,
                ;
                assert((h + 1) * sw <= down * sw) by (nonlinear_arith)
                    requires
                        h + 1 <= down,
                        0 <= sw,
                ;
                assert((w + 1) * sh == w * sh + sh && (h + 1) * sw == h * sw + sw && w * sh == sh
                    * w && h * sw == sw * h) by (nonlinear_arith);
            }
        }
        assert(0 <= cover.0 <= 0xffff * 0xffff && 0 <= cover.1 <= 0xffff * 0xffff);
        assert(0 <= cover.0 * cover.1 <= 0xffff * 0xffff * 0xffff) by (nonlinear_arith)
            requires
                0 <= cover.0 <= 0xffff * 0xffff,
                0 <= cover.1 <= 0xffff * 0xffff,
                cover.0 <= 0xffff || cover.1 <= 0xffff,
        ;
        assert(0 <= sw * cover.1 <= 0xffff * 0xffff * 0xffff) by (nonlinear_arith)
            requires
                0 <= sw <= 0xffff,
                0 <= cover.1 <= 0xffff * 0xffff,
        ;
        assert(4 * cover.0 * cover.1 == 4 * (cover.0 * cover.1) && 4 * sw * cover.1 == 4 * (sw
            * cover.1)) by (nonlinear_arith);
    }
}

} // verus!
