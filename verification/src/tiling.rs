//! Repeating an image along one axis, outwards from the middle.
//!
//! The middle copy is put where it is centred on the axis. Further copies
//! follow on both sides, each beginning where the one before ends, so that
//! the pattern keeps the phase of the middle copy whatever the length of the
//! axis. As many copies are stamped on either side as it takes to reach the
//! far end of the axis. The near side is at most one pixel longer than the
//! far side, and where that pixel would need one copy more it stays blank.

use crate::blit::{blit_area, blit_pixel, replace, replace_area};
use crate::buffer::BgraImage;
use crate::raster::{addressable, blank_pixel, lemma_blank_pixel, Raster};
use crate::rect::{monus, Position, Rect};
use crate::ximage::ceil;
use vstd::prelude::*;

verus! {

/// Where the middle copy begins on an axis of length `extent`, for copies of
/// length `period`.
pub open spec fn tile_origin(extent: int, period: int) -> int {
    monus(extent / 2, period / 2)
}

/// What is left of the axis behind the middle copy.
pub open spec fn tile_rest(extent: int, period: int) -> int {
    monus(extent, tile_origin(extent, period) + period)
}

/// The number of copies stamped on either side of the middle copy: what it
/// takes to cover the rest of the axis behind it.
pub open spec fn tile_steps(extent: int, period: int) -> int {
    if tile_rest(extent, period) == 0 {
        0
    } else {
        1 + (tile_rest(extent, period) - 1) / period
    }
}

/// The first coordinate that the copies reach. From there to the end of the
/// axis every coordinate is covered.
pub open spec fn tile_start(extent: int, period: int) -> int {
    monus(tile_origin(extent, period), tile_steps(extent, period) * period)
}

/// What a column of the given height shows at `(x, y)`: the image repeated
/// downwards and upwards from its centred copy.
pub open spec fn stack_pixel(image: Raster, height: int, x: int, y: int) -> Seq<u8> {
    if y >= tile_start(height, image.height as int) {
        image.pixel(x, (y - tile_origin(height, image.height as int)) % (image.height as int))
    } else {
        blank_pixel()
    }
}

/// What a canvas of the given width shows at `(x, y)`: the column repeated
/// to the right and to the left of its centred copy.
pub open spec fn spread_pixel(column: Raster, width: int, x: int, y: int) -> Seq<u8> {
    if x >= tile_start(width, column.width as int) {
        column.pixel((x - tile_origin(width, column.width as int)) % (column.width as int), y)
    } else {
        blank_pixel()
    }
}

/// The rows `lo..hi` of a column under construction hold the pattern, the
/// others are blank.
pub open spec fn band_pixel(image: Raster, origin: int, lo: int, hi: int, x: int, y: int) -> Seq<u8> {
    if lo <= y < hi {
        image.pixel(x, (y - origin) % (image.height as int))
    } else {
        blank_pixel()
    }
}

/// The columns `lo..hi` of a canvas under construction hold the pattern, the
/// others are blank.
pub open spec fn strip_pixel(column: Raster, origin: int, lo: int, hi: int, x: int, y: int) -> Seq<u8> {
    if lo <= x < hi {
        column.pixel((x - origin) % (column.width as int), y)
    } else {
        blank_pixel()
    }
}

/// A coordinate that lies `turns` periods away from the first period has the
/// phase that it has after being moved there.
pub proof fn lemma_wrap(offset: int, period: int, turns: int, shift: int)
    requires
        period > 0,
        shift == turns * period,
        0 <= offset + shift < period,
    ensures
        offset % period == offset + shift,
{
    assert(offset == (-turns) * period + (offset + shift)) by (nonlinear_arith)
        requires
            shift == turns * period,
    ;
    vstd::arithmetic::div_mod::lemma_fundamental_div_mod_converse(
        offset,
        period,
        -turns,
        offset + shift,
    );
}

/// The copies on either side of the middle copy reach the end of the axis,
/// and stop short of its beginning by at most one pixel.
pub proof fn lemma_tile_reach(extent: int, period: int)
    requires
        0 <= extent,
        0 < period,
    ensures
        tile_steps(extent, period) >= 0,
        tile_origin(extent, period) + period + tile_steps(extent, period) * period >= extent,
        0 <= tile_start(extent, period) <= 1,
        tile_start(extent, period) <= tile_origin(extent, period),
{
    let origin = tile_origin(extent, period);
    let rest = tile_rest(extent, period);
    let steps = tile_steps(extent, period);
    if rest > 0 {
        let m = rest - 1;
        vstd::arithmetic::div_mod::lemma_fundamental_div_mod(m, period);
        assert(0 <= m % period < period);
        assert(period * (m / period) == (m / period) * period) by (nonlinear_arith);
        assert(steps * period == (m / period) * period + period) by (nonlinear_arith)
            requires
                steps == 1 + m / period,
        ;
        assert(m / period >= 0) by (nonlinear_arith)
            requires
                m >= 0,
                period > 0,
        ;
    } else {
        assert(steps * period == 0) by (nonlinear_arith)
            requires
                steps == 0,
        ;
    }
}

/// The image repeated along a column of the given height, outwards from the
/// copy that is centred in it.
pub fn stack(image: &BgraImage, height: u32) -> (column: BgraImage)
    requires
        image@.height > 0,
        addressable(image@.width as int, height as int),
    ensures
        column@.shows(
            image@.width as int,
            height as int,
            |x: int, y: int| stack_pixel(image@, height as int, x, y),
        ),
{
    let (w, h) = image.dimensions();
    let bounds = Rect::new(0, 0, w, height);
    let center = bounds.relative(Position::Center, w, h);
    let mut column = BgraImage::blank(w, height);
    let ghost source = image@;
    let ghost origin = tile_origin(height as int, h as int);
    replace(&mut column, image, center.x, center.y);

    let mut above = bounds.clamp(center.relative(Position::Top, w, h));
    let mut below = bounds.clamp(center.relative(Position::Bottom, w, h));
    let steps = ceil(height.saturating_sub(center.bottom()), h);
    proof {
        lemma_tile_reach(height as int, h as int);
        assert(steps == tile_steps(height as int, h as int));
        assert forall|x: int, y: int| #[trigger] column@.has(x, y) implies column@.pixel(x, y)
            == band_pixel(
            source,
            origin,
            origin,
            vstd::math::min(height as int, origin + h),
            x,
            y,
        ) by {
            lemma_blank_pixel(w as nat, height as nat, x, y);
            if origin <= y < origin + h {
                lemma_wrap(y - origin, h as int, 0, 0);
            }
        }
    }

    let mut i: u32 = 0;
    let ghost mut done: int = 0;
    while i < steps
        invariant
            i <= steps,
            done == i * h,
            h > 0,
            source == image@,
            source.wf(),
            source.width == w,
            source.height == h,
            origin == tile_origin(height as int, h as int),
            origin + h <= height || steps == 0,
            bounds == (Rect { x: 0, y: 0, width: w, height }),
            above == (Rect {
                x: 0,
                y: monus(origin, done + h) as u32,
                width: w,
                height: vstd::math::min(h as int, monus(origin, done)) as u32,
            }),
            steps > 0 ==> below == (Rect {
                x: 0,
                y: vstd::math::min(height as int, origin + h + done) as u32,
                width: w,
                height: vstd::math::min(
                    h as int,
                    height - vstd::math::min(height as int, origin + h + done),
                ) as u32,
            }),
            column@.shows(
                w as int,
                height as int,
                |x: int, y: int|
                    band_pixel(
                        source,
                        origin,
                        monus(origin, done),
                        vstd::math::min(height as int, origin + h + done),
                        x,
                        y,
                    ),
            ),
        decreases steps - i,
    {
        let ghost first = column@;
        let crop = Rect::new(0, h - above.height, above.width, above.height);
        replace_area(&mut column, image, above.x, above.y, crop);
        let ghost second = column@;
        let ghost upper = blit_area((w, height), (w, h), above.x, above.y, crop);
        let ghost upper_at = above;

        let crop = Rect::new(0, 0, below.width, below.height);
        replace_area(&mut column, image, below.x, below.y, crop);
        let ghost lower = blit_area((w, height), (w, h), below.x, below.y, crop);
        let ghost lower_at = below;

        above = bounds.clamp(above.relative(Position::Top, w, h));
        below = bounds.clamp(below.relative(Position::Bottom, w, h));
        proof {
            assert((i + 1) * h == done + h) by (nonlinear_arith)
                requires
                    done == i * h,
            ;
            assert(upper == (Rect {
                x: 0,
                y: (h - upper_at.height) as u32,
                width: w,
                height: upper_at.height,
            }));
            assert(lower == (Rect { x: 0, y: 0, width: w, height: lower_at.height }));
            assert forall|x: int, y: int| #[trigger] column@.has(x, y) implies column@.pixel(x, y)
                == band_pixel(
                source,
                origin,
                monus(origin, done + h),
                vstd::math::min(height as int, origin + h + done + h),
                x,
                y,
            ) by {
                assert(first.has(x, y));
                assert(second.has(x, y));
                assert(second.pixel(x, y) == blit_pixel(
                    first,
                    source,
                    upper_at.x,
                    upper_at.y,
                    upper,
                    x,
                    y,
                ));
                assert(column@.pixel(x, y) == blit_pixel(
                    second,
                    source,
                    lower_at.x,
                    lower_at.y,
                    lower,
                    x,
                    y,
                ));
                if monus(origin, done + h) <= y < monus(origin, done) {
                    lemma_wrap(y - origin, h as int, i + 1, done + h);
                }
                if origin + h + done <= y < origin + h + done + h {
                    assert((-(i + 1)) * h == -(done + h)) by (nonlinear_arith)
                        requires
                            (i + 1) * h == done + h,
                    ;
                    lemma_wrap(y - origin, h as int, -(i + 1), -(done + h));
                }
            }
            done = done + h;
        }
        i = i + 1;
    }
    proof {
        assert forall|x: int, y: int| #[trigger] column@.has(x, y) implies column@.pixel(x, y)
            == stack_pixel(source, height as int, x, y) by {
            assert(column@.pixel(x, y) == band_pixel(
                source,
                origin,
                monus(origin, done),
                vstd::math::min(height as int, origin + h + done),
                x,
                y,
            ));
        }
    }
    column
}

/// The column repeated along a canvas of the given width, outwards from the
/// copy that is centred in it.
pub fn spread(column: &BgraImage, width: u32) -> (canvas: BgraImage)
    requires
        column@.width > 0,
        addressable(width as int, column@.height as int),
    ensures
        canvas@.shows(
            width as int,
            column@.height as int,
            |x: int, y: int| spread_pixel(column@, width as int, x, y),
        ),
{
    let (w, h) = column.dimensions();
    let bounds = Rect::new(0, 0, width, h);
    let center = bounds.relative(Position::Center, w, h);
    let mut canvas = BgraImage::blank(width, h);
    let ghost source = column@;
    let ghost origin = tile_origin(width as int, w as int);
    replace(&mut canvas, column, center.x, center.y);

    let mut left = bounds.clamp(center.relative(Position::Left, w, h));
    let mut right = bounds.clamp(center.relative(Position::Right, w, h));
    let steps = ceil(width.saturating_sub(center.right()), w);
    proof {
        lemma_tile_reach(width as int, w as int);
        assert(steps == tile_steps(width as int, w as int));
        assert forall|x: int, y: int| #[trigger] canvas@.has(x, y) implies canvas@.pixel(x, y)
            == strip_pixel(
            source,
            origin,
            origin,
            vstd::math::min(width as int, origin + w),
            x,
            y,
        ) by {
            lemma_blank_pixel(width as nat, h as nat, x, y);
            if origin <= x < origin + w {
                lemma_wrap(x - origin, w as int, 0, 0);
            }
        }
    }

    let mut i: u32 = 0;
    let ghost mut done: int = 0;
    while i < steps
        invariant
            i <= steps,
            done == i * w,
            w > 0,
            source == column@,
            source.wf(),
            source.width == w,
            source.height == h,
            origin == tile_origin(width as int, w as int),
            origin + w <= width || steps == 0,
            bounds == (Rect { x: 0, y: 0, width, height: h }),
            left == (Rect {
                x: monus(origin, done + w) as u32,
                y: 0,
                width: vstd::math::min(w as int, monus(origin, done)) as u32,
                height: h,
            }),
            steps > 0 ==> right == (Rect {
                x: vstd::math::min(width as int, origin + w + done) as u32,
                y: 0,
                width: vstd::math::min(
                    w as int,
                    width - vstd::math::min(width as int, origin + w + done),
                ) as u32,
                height: h,
            }),
            canvas@.shows(
                width as int,
                h as int,
                |x: int, y: int|
                    strip_pixel(
                        source,
                        origin,
                        monus(origin, done),
                        vstd::math::min(width as int, origin + w + done),
                        x,
                        y,
                    ),
            ),
        decreases steps - i,
    {
        let ghost first = canvas@;
        let crop = Rect::new(w - left.width, 0, left.width, left.height);
        replace_area(&mut canvas, column, left.x, left.y, crop);
        let ghost second = canvas@;
        let ghost near = blit_area((width, h), (w, h), left.x, left.y, crop);
        let ghost near_at = left;

        let crop = Rect::new(0, 0, right.width, right.height);
        replace_area(&mut canvas, column, right.x, right.y, crop);
        let ghost far = blit_area((width, h), (w, h), right.x, right.y, crop);
        let ghost far_at = right;

        left = bounds.clamp(left.relative(Position::Left, w, h));
        right = bounds.clamp(right.relative(Position::Right, w, h));
        proof {
            assert((i + 1) * w == done + w) by (nonlinear_arith)
                requires
                    done == i * w,
            ;
            assert(near == (Rect {
                x: (w - near_at.width) as u32,
                y: 0,
                width: near_at.width,
                height: h,
            }));
            assert(far == (Rect { x: 0, y: 0, width: far_at.width, height: h }));
            assert forall|x: int, y: int| #[trigger] canvas@.has(x, y) implies canvas@.pixel(x, y)
                == strip_pixel(
                source,
                origin,
                monus(origin, done + w),
                vstd::math::min(width as int, origin + w + done + w),
                x,
                y,
            ) by {
                assert(first.has(x, y));
                assert(second.has(x, y));
                assert(second.pixel(x, y) == blit_pixel(
                    first,
                    source,
                    near_at.x,
                    near_at.y,
                    near,
                    x,
                    y,
                ));
                assert(canvas@.pixel(x, y) == blit_pixel(
                    second,
                    source,
                    far_at.x,
                    far_at.y,
                    far,
                    x,
                    y,
                ));
                if monus(origin, done + w) <= x < monus(origin, done) {
                    lemma_wrap(x - origin, w as int, i + 1, done + w);
                }
                if origin + w + done <= x < origin + w + done + w {
                    assert((-(i + 1)) * w == -(done + w)) by (nonlinear_arith)
                        requires
                            (i + 1) * w == done + w,
                    ;
                    lemma_wrap(x - origin, w as int, -(i + 1), -(done + w));
                }
            }
            done = done + w;
        }
        i = i + 1;
    }
    proof {
        assert forall|x: int, y: int| #[trigger] canvas@.has(x, y) implies canvas@.pixel(x, y)
            == spread_pixel(source, width as int, x, y) by {
            assert(canvas@.pixel(x, y) == strip_pixel(
                source,
                origin,
                monus(origin, done),
                vstd::math::min(width as int, origin + w + done),
                x,
                y,
            ));
        }
    }
    canvas
}

} // verus!
