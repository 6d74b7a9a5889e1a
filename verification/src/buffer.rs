//! The pixel buffer that compositing reads and fills.
//!
//! [`BgraImage`] holds an `image::ImageBuffer` of BGRA pixels. The verifier
//! does not look inside it; what it knows of a buffer is its [`Raster`],
//! and what it knows of each operation of the `image` crate is the contract
//! of the private function below that makes the call. Those contracts are
//! taken on trust; everything built on them is proved.

use crate::error::Error;
use crate::raster::{addressable, fits, sample_count, Raster};
use image::{Bgra, DynamicImage, FilterType, GenericImageView, ImageBuffer};
use vstd::prelude::*;

verus! {

/// `image::DynamicImage`, a decoded image in one of several pixel formats.
/// Nothing is known of its inside.
#[verifier::external_type_specification]
#[verifier::external_body]
pub struct ExDynamicImage(DynamicImage);

/// An image of four-byte pixels: blue, green, red, alpha. It holds an
/// `image::ImageBuffer`, into which the verifier does not look.
#[verifier::external_body]
pub struct BgraImage {
    inner: ImageBuffer<Bgra<u8>, Vec<u8>>,
}

/// Width and height of a buffer, as `ImageBuffer::dimensions` gives them.
pub uninterp spec fn size_of(image: BgraImage) -> (u32, u32);

/// The samples that a buffer holds, in the order of `ImageBuffer::into_raw`.
pub uninterp spec fn samples_of(image: BgraImage) -> Seq<u8>;

/// Width, height and samples of what `DynamicImage::to_bgra` makes of an image.
pub uninterp spec fn bgra_of(image: DynamicImage) -> (u32, u32, Seq<u8>);

/// The samples of what `DynamicImage::resize` with the nearest filter makes
/// of a BGRA image of the given size and samples, for the given bounds.
pub uninterp spec fn resized(
    width: u32,
    height: u32,
    samples: Seq<u8>,
    nwidth: u32,
    nheight: u32,
) -> Seq<u8>;

/// The samples of what `DynamicImage::resize_to_fill` with the nearest filter
/// makes of a BGRA image of the given size and samples, for the given size.
pub uninterp spec fn resized_to_fill(
    width: u32,
    height: u32,
    samples: Seq<u8>,
    nwidth: u32,
    nheight: u32,
) -> Seq<u8>;

/// The largest size of the aspect ratio `width : height` that fits into
/// `nwidth` by `nheight`, each extent rounded down.
pub open spec fn fit_size(width: int, height: int, nwidth: int, nheight: int) -> (int, int) {
    (
        vstd::math::min(nwidth, width * nheight / height),
        vstd::math::min(nheight, height * nwidth / width),
    )
}

/// The size of the aspect ratio `width : height` that covers `nwidth` by
/// `nheight` and matches it on one axis, the other extent rounded down.
pub open spec fn cover_size(width: int, height: int, nwidth: int, nheight: int) -> (int, int) {
    (
        vstd::math::max(nwidth, width * nheight / height),
        vstd::math::max(nheight, height * nwidth / width),
    )
}

/// The raster that a triple of width, height and samples stands for.
pub open spec fn raster_of(parts: (u32, u32, Seq<u8>)) -> Raster {
    Raster { width: parts.0 as nat, height: parts.1 as nat, samples: parts.2 }
}

/// The BGRA form of a decoded image.
pub open spec fn source_of(image: DynamicImage) -> Raster {
    raster_of(bgra_of(image))
}

impl View for BgraImage {
    type V = Raster;

    open spec fn view(&self) -> Raster {
        Raster {
            width: size_of(*self).0 as nat,
            height: size_of(*self).1 as nat,
            samples: samples_of(*self),
        }
    }
}

impl BgraImage {
    /// `ImageBuffer::new`: a buffer of the given size with every sample zero.
    /// It counts the samples of a row first and those of all rows then, and
    /// panics where either number overflows `usize`.
    #[verifier::external_body]
    pub(crate) fn blank(width: u32, height: u32) -> (image: BgraImage)
        requires
            addressable(width as int, height as int),
        ensures
            size_of(image) == (width, height),
            samples_of(image) == Raster::blank(width as nat, height as nat).samples,
    {
        BgraImage { inner: ImageBuffer::new(width, height) }
    }

    /// `ImageBuffer::from_raw`: the buffer of the given size over `data`. It
    /// is `None` where the samples of a row or of all rows cannot be counted
    /// in `usize`, or `data` is shorter than four samples for each pixel; the
    /// precondition leaves all of that out.
    #[verifier::external_body]
    fn raw(width: u32, height: u32, data: Vec<u8>) -> (image: Option<BgraImage>)
        requires
            addressable(width as int, height as int),
            data.len() == 4 * width * height,
        ensures
            match image {
                Some(buffer) => size_of(buffer) == (width, height) && samples_of(buffer) == data@,
                None => false,
            },
    {
        match ImageBuffer::from_raw(width, height, data) {
            Some(inner) => Some(BgraImage { inner }),
            None => None,
        }
    }

    /// `ImageBuffer::dimensions`. Every buffer of this type was made by one
    /// of the functions of this file, each of which gives it exactly four
    /// samples for each pixel, by way of `ImageBuffer::new` or
    /// `ImageBuffer::from_raw`, which make no buffer unless the samples of a
    /// row and of all rows can be counted in `usize`.
    #[verifier::external_body]
    fn size(&self) -> (size: (u32, u32))
        ensures
            size == size_of(*self),
            samples_of(*self).len() == 4 * size.0 * size.1,
            addressable(size.0 as int, size.1 as int),
    {
        self.inner.dimensions()
    }

    /// `ImageBuffer::get_pixel`: the four samples at `4 * (y * width + x)`.
    /// It panics outside the image.
    #[verifier::external_body]
    pub(crate) fn get_pixel(&self, x: u32, y: u32) -> (pixel: [u8; 4])
        requires
            x < size_of(*self).0,
            y < size_of(*self).1,
        ensures
            pixel@ == samples_of(*self).subrange(
                4 * (y * size_of(*self).0 + x),
                4 * (y * size_of(*self).0 + x) + 4,
            ),
    {
        self.inner.get_pixel(x, y).0
    }

    /// `ImageBuffer::put_pixel`: overwrites the four samples at
    /// `4 * (y * width + x)` and nothing else. It panics outside the image.
    #[verifier::external_body]
    pub(crate) fn put_pixel(&mut self, x: u32, y: u32, pixel: [u8; 4])
        requires
            x < size_of(*old(self)).0,
            y < size_of(*old(self)).1,
        ensures
            size_of(*final(self)) == size_of(*old(self)),
            samples_of(*final(self)) == old(self)@.with_pixel(x as int, y as int, pixel@).samples,
    {
        self.inner.put_pixel(x, y, Bgra(pixel))
    }

    /// `ImageBuffer::into_raw`: the samples, row by row.
    #[verifier::external_body]
    fn raw_samples(self) -> (data: Vec<u8>)
        ensures
            data@ == samples_of(self),
    {
        self.inner.into_raw()
    }

    /// `GenericImageView::dimensions` of a `DynamicImage`: width and height
    /// of the image, which `to_bgra` keeps.
    #[verifier::external_body]
    pub(crate) fn dimensions_of(image: &DynamicImage) -> (size: (u32, u32))
        ensures
            size.0 == bgra_of(*image).0,
            size.1 == bgra_of(*image).1,
    {
        image.dimensions()
    }

    /// `DynamicImage::to_bgra`: a copy of the image as BGRA, of the same
    /// size, in a buffer of exactly four samples for each pixel, which it
    /// gets from `ImageBuffer::new`. It panics where the samples of a row or
    /// of all rows of the copy overflow `usize`.
    #[verifier::external_body]
    pub(crate) fn to_bgra(image: &DynamicImage) -> (bgra: BgraImage)
        requires
            addressable(bgra_of(*image).0 as int, bgra_of(*image).1 as int),
        ensures
            (size_of(bgra).0, size_of(bgra).1, samples_of(bgra)) == bgra_of(*image),
            samples_of(bgra).len() == 4 * size_of(bgra).0 * size_of(bgra).1,
    {
        BgraImage { inner: image.to_bgra() }
    }

    /// `DynamicImage::resize` with `FilterType::Nearest`, on a copy of the
    /// buffer: the image scaled, with its aspect ratio kept, to the largest
    /// size that fits into `nwidth` by `nheight`. It divides by the width or
    /// the height of the image, and panics where the samples of a row or of
    /// all rows overflow `usize`, in the result or in the image scaled in
    /// height alone.
    #[verifier::external_body]
    pub(crate) fn resize(&self, nwidth: u32, nheight: u32) -> (scaled: BgraImage)
        requires
            size_of(*self).0 > 0,
            size_of(*self).1 > 0,
            addressable(
                size_of(*self).0 as int,
                fit_size(
                    size_of(*self).0 as int,
                    size_of(*self).1 as int,
                    nwidth as int,
                    nheight as int,
                ).1,
            ),
            addressable(nwidth as int, nheight as int),
        ensures
            (size_of(scaled).0 as int, size_of(scaled).1 as int) == fit_size(
                size_of(*self).0 as int,
                size_of(*self).1 as int,
                nwidth as int,
                nheight as int,
            ),
            samples_of(scaled) == resized(
                size_of(*self).0,
                size_of(*self).1,
                samples_of(*self),
                nwidth,
                nheight,
            ),
            samples_of(scaled).len() == 4 * size_of(scaled).0 * size_of(scaled).1,
    {
        let image = DynamicImage::ImageBgra8(self.inner.clone());
        BgraImage { inner: image.resize(nwidth, nheight, FilterType::Nearest).to_bgra() }
    }

    /// `DynamicImage::resize_to_fill` with `FilterType::Nearest`, on a copy
    /// of the buffer: the image scaled, with its aspect ratio kept, to the
    /// size that covers `nwidth` by `nheight`, then cut down to that size
    /// about its middle. It divides by the width or the height of the image,
    /// gives a smaller result where the covering size exceeds `u32`, and
    /// panics where the samples of the scaled image, or of the image scaled
    /// in height alone, overflow `usize`.
    #[verifier::external_body]
    pub(crate) fn resize_to_fill(&self, nwidth: u32, nheight: u32) -> (scaled: BgraImage)
        requires
            size_of(*self).0 > 0,
            size_of(*self).1 > 0,
            nwidth > 0,
            nheight > 0,
            covering(
                size_of(*self).0 as int,
                size_of(*self).1 as int,
                nwidth as int,
                nheight as int,
            ),
        ensures
            size_of(scaled) == (nwidth, nheight),
            samples_of(scaled) == resized_to_fill(
                size_of(*self).0,
                size_of(*self).1,
                samples_of(*self),
                nwidth,
                nheight,
            ),
            samples_of(scaled).len() == 4 * nwidth * nheight,
    {
        let image = DynamicImage::ImageBgra8(self.inner.clone());
        BgraImage { inner: image.resize_to_fill(nwidth, nheight, FilterType::Nearest).to_bgra() }
    }

    /// A buffer of the given size over `data`, which must hold exactly four
    /// samples for each pixel, row by row. A size whose rows cannot be indexed
    /// on this machine is refused like a wrong number of samples.
    pub fn from_raw(width: u32, height: u32, data: Vec<u8>) -> (result: Result<BgraImage, Error>)
        ensures
            match result {
                Ok(image) => {
                    &&& data.len() == 4 * width * height
                    &&& addressable(width as int, height as int)
                    &&& image@ == (Raster {
                        width: width as nat,
                        height: height as nat,
                        samples: data@,
                    })
                },
                Err(e) => {
                    &&& e == Error::UnsupportedFormat
                    &&& data.len() != 4 * width * height || 4 * width > usize::MAX
                },
            },
    {
        if data.len() as u128 != sample_count(width, height) || !fits(width, height) {
            return Err(Error::UnsupportedFormat);
        }
        match BgraImage::raw(width, height, data) {
            Some(image) => Ok(image),
            None => Err(Error::UnsupportedFormat),
        }
    }

    /// Width and height, in pixels.
    pub fn dimensions(&self) -> (size: (u32, u32))
        ensures
            size.0 == self@.width,
            size.1 == self@.height,
            self@.wf(),
            addressable(size.0 as int, size.1 as int),
    {
        self.size()
    }

    /// The pixel at `(x, y)`, or `None` outside the image.
    pub fn pixel(&self, x: u32, y: u32) -> (pixel: Option<[u8; 4]>)
        ensures
            match pixel {
                Some(p) => self@.has(x as int, y as int) && p@ == self@.pixel(x as int, y as int),
                None => !self@.has(x as int, y as int),
            },
    {
        let (width, height) = self.size();
        if x < width && y < height {
            Some(self.get_pixel(x, y))
        } else {
            None
        }
    }

    /// The samples, row by row.
    pub fn into_raw(self) -> (data: Vec<u8>)
        ensures
            data@ == self@.samples,
    {
        self.raw_samples()
    }
}

/// Scaling a `width` by `height` image to cover `nwidth` by `nheight` stays
/// within what `u32` and `usize` hold, also while only the height is scaled.
pub open spec fn covering(width: int, height: int, nwidth: int, nheight: int) -> bool {
    let cover = cover_size(width, height, nwidth, nheight);
    &&& cover.0 <= u32::MAX
    &&& cover.1 <= u32::MAX
    &&& addressable(width, cover.1)
    &&& addressable(cover.0, cover.1)
}

} // verus!
