//! Walking the pixels of an image in runs that can be cut in two, so that
//! the halves can be handed to different workers.

use crate::buffer::BgraImage;
use crate::raster::Raster;
use vstd::prelude::*;

verus! {

/// A run of at most this many pixels is not cut any further.
pub const BLOCKSIZE: usize = 128;

/// Images whose pixels can be walked in runs.
pub trait SplitPixels {
    /// The run of all pixels of the image, from its top left pixel on.
    fn split_pixels(&self) -> SplitPixelsIterator<'_>;
}

/// A run of pixels of an image, row by row: where it stands, how many pixels
/// it is meant to hand out, and the size of the image.
pub struct SplitPixelsIterator<'a> {
    image: &'a BgraImage,
    length: usize,
    x: u32,
    y: u32,
    width: u32,
    height: u32,
}

/// What a run is in contracts.
pub struct Run {
    /// The image that the run walks.
    pub image: Raster,
    /// The number of pixels that the run is meant to hand out.
    pub length: usize,
    /// The column at which the run stands.
    pub x: u32,
    /// The row at which the run stands.
    pub y: u32,
    /// The width of the image.
    pub width: u32,
    /// The height of the image.
    pub height: u32,
}

impl Run {
    /// The run is one of its image, and no longer than the image.
    pub open spec fn wf(self) -> bool {
        &&& self.image.wf()
        &&& self.image.width == self.width
        &&& self.image.height == self.height
        &&& self.length <= self.width * self.height
    }

    /// Where the next pixel is taken from: a run that stands behind the end
    /// of a row moves to the beginning of the next row first.
    pub open spec fn position(self) -> (int, int) {
        if self.x >= self.width {
            (0, self.y + 1)
        } else {
            (self.x as int, self.y as int)
        }
    }

    /// There is a pixel at the position of the run.
    pub open spec fn has_next(self) -> bool {
        self.position().1 < self.height
    }

    /// The number of pixels at which a run of this length is cut.
    pub open spec fn bound(self) -> u32 {
        (self.length / 2) as u32
    }

    /// The first part of the run after a cut: it stands where the run stood.
    pub open spec fn head(self) -> Run {
        Run { length: self.bound() as usize, ..self }
    }

    /// The second part of the run after a cut: it stands `bound` pixels
    /// further on, counted in whole rows and a rest of columns.
    pub open spec fn tail(self) -> Run {
        Run {
            length: (self.length - self.bound()) as usize,
            x: (self.x + self.bound() % self.width) as u32,
            y: (self.y + self.bound() / self.width) as u32,
            ..self
        }
    }

    /// Nothing wraps round when the run is cut.
    pub open spec fn can_split(self) -> bool {
        self.length > BLOCKSIZE ==> {
            &&& self.bound() == self.length / 2
            &&& self.x + self.bound() % self.width <= u32::MAX
            &&& self.y + self.bound() / self.width <= u32::MAX
        }
    }

    /// Nothing wraps round when the next pixel is taken.
    pub open spec fn can_step(self) -> bool {
        &&& self.position().1 <= u32::MAX
        &&& self.has_next() ==> self.length > 0
    }
}

impl<'a> View for SplitPixelsIterator<'a> {
    type V = Run;

    closed spec fn view(&self) -> Run {
        Run {
            image: self.image@,
            length: self.length,
            x: self.x,
            y: self.y,
            width: self.width,
            height: self.height,
        }
    }
}

impl SplitPixels for BgraImage {
    fn split_pixels(&self) -> (run: SplitPixelsIterator<'_>)
        ensures
            run@ == (Run {
                image: self@,
                length: (self@.width * self@.height) as usize,
                x: 0,
                y: 0,
                width: self@.width as u32,
                height: self@.height as u32,
            }),
            run@.wf(),
    {
        let (width, height) = self.dimensions();
        assert(width * height <= 4 * width * height) by (nonlinear_arith)
            requires
                width >= 0,
                height >= 0,
        ;
        assert(0 <= width * height) by (nonlinear_arith)
            requires
                width >= 0,
                height >= 0,
        ;
        SplitPixelsIterator {
            image: self,
            length: width as usize * height as usize,
            x: 0,
            y: 0,
            width,
            height,
        }
    }
}

impl<'a> SplitPixelsIterator<'a> {
    /// Cuts the run in two. A run of at most [`BLOCKSIZE`] pixels stays whole.
    /// Of a longer one the first part keeps half the length, rounded down,
    /// and the second part takes the rest.
    pub fn split(self) -> (parts: (SplitPixelsIterator<'a>, Option<SplitPixelsIterator<'a>>))
        requires
            self@.wf(),
            self@.can_split(),
        ensures
            self@.length <= BLOCKSIZE ==> parts.0@ == self@ && parts.1 is None,
            self@.length > BLOCKSIZE ==> parts.0@ == self@.head(),
            self@.length > BLOCKSIZE ==> (match parts.1 {
                Some(rest) => rest@ == self@.tail() && rest@.wf() && parts.0@.length + rest@.length
                    == self@.length,
                None => false,
            }),
            parts.0@.wf(),
    {
        let mut run = self;
        if run.length <= BLOCKSIZE {
            (run, None)
        } else {
            assert(run.width > 0) by (nonlinear_arith)
                requires
                    run.length > 0,
                    run.length <= run.width * run.height,
            ;
            let bound = (run.length / 2) as u32;

            let length = run.length - bound as usize;
            let x = run.x + bound % run.width;
            let y = run.y + bound / run.width;
            let width = run.width;
            let height = run.height;

            let split = SplitPixelsIterator { image: run.image, length, x, y, width, height };

            run.length = bound as usize;

            (run, Some(split))
        }
    }

    /// The number of pixels that the run is still meant to hand out.
    pub fn len(&self) -> (length: usize)
        ensures
            length == self@.length,
    {
        self.length
    }

    /// The column and the row at which the run stands.
    pub fn position(&self) -> (at: (u32, u32))
        ensures
            at == (self@.x, self@.y),
    {
        (self.x, self.y)
    }

    /// The next pixel of the run with its coordinates, or `None` behind the
    /// last row of the image.
    pub fn next(&mut self) -> (item: Option<(u32, u32, [u8; 4])>)
        requires
            old(self)@.wf(),
            old(self)@.can_step(),
        ensures
            final(self)@.wf(),
            match item {
                Some((x, y, pixel)) => {
                    &&& old(self)@.has_next()
                    &&& (x as int, y as int) == old(self)@.position()
                    &&& pixel@ == old(self)@.image.pixel(x as int, y as int)
                    &&& final(self)@ == (Run {
                        x: (x + 1) as u32,
                        y,
                        length: (old(self)@.length - 1) as usize,
                        ..old(self)@
                    })
                },
                None => {
                    &&& !old(self)@.has_next()
                    &&& final(self)@ == (Run {
                        x: old(self)@.position().0 as u32,
                        y: old(self)@.position().1 as u32,
                        ..old(self)@
                    })
                },
            },
    {
        if self.x >= self.width {
            self.x = 0;
            self.y += 1;
        }
        if self.y >= self.height {
            None
        } else {
            assert(self.width > 0) by (nonlinear_arith)
                requires
                    self.length > 0,
                    self.length <= self.width * self.height,
            ;
            let pixel = self.image.get_pixel(self.x, self.y);
            let p = (self.x, self.y, pixel);

            self.x += 1;
            self.length -= 1;

            Some(p)
        }
    }
}

} // verus!
