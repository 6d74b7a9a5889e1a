//! The clipped copy of a rectangle of pixels from one buffer into another.

use crate::buffer::BgraImage;
use crate::raster::{lemma_offset_in_bounds, lemma_with_pixel, Raster};
use crate::rect::{monus, Rect};
use vstd::prelude::*;

verus! {

/// The rectangle of the source that a blit copies: `area` cut down to the
/// source, of size `top`, and then to the room that the destination, of size
/// `bottom`, has to the right of and below `(x_pos, y_pos)`.
pub open spec fn blit_area(bottom: (u32, u32), top: (u32, u32), x_pos: u32, y_pos: u32, area: Rect) -> Rect {
    let within = (Rect { x: 0, y: 0, width: top.0, height: top.1 }).spec_clamp(area);
    let room = Rect {
        x: within.x,
        y: within.y,
        width: monus(bottom.0 as int, x_pos as int) as u32,
        height: monus(bottom.1 as int, y_pos as int) as u32,
    };
    room.spec_clamp(within)
}

/// The destination pixel `(x, y)` takes its value from the source.
pub open spec fn blit_covers(part: Rect, x_pos: u32, y_pos: u32, x: int, y: int) -> bool {
    &&& x_pos <= x < x_pos + part.width
    &&& y_pos <= y < y_pos + part.height
}

/// What the destination shows at `(x, y)` once the rectangle `part` of `top`
/// has been copied to `(x_pos, y_pos)`.
pub open spec fn blit_pixel(
    bottom: Raster,
    top: Raster,
    x_pos: u32,
    y_pos: u32,
    part: Rect,
    x: int,
    y: int,
) -> Seq<u8> {
    if blit_covers(part, x_pos, y_pos, x, y) {
        top.pixel(x - x_pos + part.x, y - y_pos + part.y)
    } else {
        bottom.pixel(x, y)
    }
}

/// What the destination shows at `(x, y)` while the copy is under way:
/// `rows` full rows of `part` are done, and `cols` pixels of the next.
pub open spec fn blit_partial(
    bottom: Raster,
    top: Raster,
    x_pos: u32,
    y_pos: u32,
    part: Rect,
    rows: int,
    cols: int,
    x: int,
    y: int,
) -> Seq<u8> {
    if blit_covers(part, x_pos, y_pos, x, y) && (y - y_pos < rows || (y - y_pos == rows && x
        - x_pos < cols)) {
        top.pixel(x - x_pos + part.x, y - y_pos + part.y)
    } else {
        bottom.pixel(x, y)
    }
}

/// A blit copies from inside the source to inside the destination.
pub proof fn lemma_blit_area_fits(bottom: (u32, u32), top: (u32, u32), x_pos: u32, y_pos: u32, area: Rect)
    ensures
        ({
            let part = blit_area(bottom, top, x_pos, y_pos, area);
            &&& part.right_edge() <= top.0
            &&& part.bottom_edge() <= top.1
            &&& part.width > 0 ==> x_pos + part.width <= bottom.0
            &&& part.height > 0 ==> y_pos + part.height <= bottom.1
            &&& part.width <= area.width
            &&& part.height <= area.height
        }),
{
}

/// Copies the rectangle `dim` of `top` onto `bottom`, its top left pixel
/// going to `(x_pos, y_pos)`.
///
/// The rectangle is first cut down to `top`, then to the room that `bottom`
/// has from `(x_pos, y_pos)` on. So nothing is read outside `top` and nothing
/// written outside `bottom`, whatever the offset and the rectangle: where
/// nothing is left of the rectangle, `bottom` stays as it is.
pub fn replace_area(bottom: &mut BgraImage, top: &BgraImage, x_pos: u32, y_pos: u32, dim: Rect)
    ensures
        final(bottom)@.shows(
            old(bottom)@.width as int,
            old(bottom)@.height as int,
            |x: int, y: int|
                blit_pixel(
                    old(bottom)@,
                    top@,
                    x_pos,
                    y_pos,
                    blit_area(
                        (old(bottom)@.width as u32, old(bottom)@.height as u32),
                        (top@.width as u32, top@.height as u32),
                        x_pos,
                        y_pos,
                        dim,
                    ),
                    x,
                    y,
                ),
        ),
{
    let (top_width, top_height) = top.dimensions();
    let (bottom_width, bottom_height) = bottom.dimensions();
    let ghost before = bottom@;
    let ghost source = top@;

    let within = Rect::new(0, 0, top_width, top_height).clamp(dim);
    let rel_width = bottom_width.saturating_sub(x_pos);
    let rel_height = bottom_height.saturating_sub(y_pos);
    let room = Rect::new(within.x, within.y, rel_width, rel_height);
    let part = room.clamp(within);
    proof {
        lemma_blit_area_fits(
            (bottom_width, bottom_height),
            (top_width, top_height),
            x_pos,
            y_pos,
            dim,
        );
    }

    let mut y: u32 = 0;
    while y < part.height
        invariant
            y <= part.height,
            before.wf(),
            source.wf(),
            source == top@,
            before.width == bottom_width,
            before.height == bottom_height,
            source.width == top_width,
            source.height == top_height,
            part.right_edge() <= top_width,
            part.bottom_edge() <= top_height,
            part.width > 0 ==> x_pos + part.width <= bottom_width,
            part.height > 0 ==> y_pos + part.height <= bottom_height,
            bottom@.shows(
                before.width as int,
                before.height as int,
                |px: int, py: int|
                    blit_partial(before, source, x_pos, y_pos, part, y as int, 0, px, py),
            ),
        decreases part.height - y,
    {
        let mut x: u32 = 0;
        while x < part.width
            invariant
                x <= part.width,
                y < part.height,
                before.wf(),
                source.wf(),
                source == top@,
                before.width == bottom_width,
                before.height == bottom_height,
                source.width == top_width,
                source.height == top_height,
                part.right_edge() <= top_width,
                part.bottom_edge() <= top_height,
                part.width > 0 ==> x_pos + part.width <= bottom_width,
                part.height > 0 ==> y_pos + part.height <= bottom_height,
                bottom@.shows(
                    before.width as int,
                    before.height as int,
                    |px: int, py: int|
                        blit_partial(
                            before,
                            source,
                            x_pos,
                            y_pos,
                            part,
                            y as int,
                            x as int,
                            px,
                            py,
                        ),
                ),
            decreases part.width - x,
        {
            let ghost current = bottom@;
            let pixel = top.get_pixel(x + part.x, y + part.y);
            bottom.put_pixel(x + x_pos, y + y_pos, pixel);
            proof {
                let tx = x + part.x;
                let ty = y + part.y;
                let bx = x + x_pos;
                let by = y + y_pos;
                lemma_offset_in_bounds(source, tx, ty);
                assert(pixel@ == source.pixel(tx, ty));
                assert(bottom@ == current.with_pixel(bx, by, pixel@));
                assert forall|px: int, py: int| #[trigger] bottom@.has(px, py) implies bottom@.pixel(
                    px,
                    py,
                ) == blit_partial(before, source, x_pos, y_pos, part, y as int, x + 1, px, py) by {
                    assert(current.has(px, py));
                    lemma_with_pixel(current, bx, by, pixel@, px, py);
                }
                lemma_with_pixel(current, bx, by, pixel@, bx, by);
            }
            x = x + 1;
        }
        proof {
            assert forall|px: int, py: int| #[trigger] bottom@.has(px, py) implies bottom@.pixel(
                px,
                py,
            ) == blit_partial(before, source, x_pos, y_pos, part, y + 1, 0, px, py) by {
                assert(bottom@.pixel(px, py) == blit_partial(
                    before,
                    source,
                    x_pos,
                    y_pos,
                    part,
                    y as int,
                    x as int,
                    px,
                    py,
                ));
            }
        }
        y = y + 1;
    }
    proof {
        assert forall|px: int, py: int| #[trigger] bottom@.has(px, py) implies bottom@.pixel(px, py)
            == blit_pixel(before, source, x_pos, y_pos, part, px, py) by {
            assert(bottom@.pixel(px, py) == blit_partial(
                before,
                source,
                x_pos,
                y_pos,
                part,
                y as int,
                0,
                px,
                py,
            ));
        }
    }
}

/// Copies `top` onto `bottom`, its top left pixel going to `(x, y)`, as far
/// as `bottom` has room for it.
pub fn replace(bottom: &mut BgraImage, top: &BgraImage, x: u32, y: u32)
    ensures
        final(bottom)@.shows(
            old(bottom)@.width as int,
            old(bottom)@.height as int,
            |px: int, py: int|
                if x <= px < x + top@.width && y <= py < y + top@.height {
                    top@.pixel(px - x, py - y)
                } else {
                    old(bottom)@.pixel(px, py)
                },
        ),
{
    let (width, height) = top.dimensions();
    let (bottom_width, bottom_height) = bottom.dimensions();
    let ghost before = bottom@;
    replace_area(bottom, top, x, y, Rect::new(0, 0, width, height));
    proof {
        let part = blit_area(
            (bottom_width, bottom_height),
            (width, height),
            x,
            y,
            Rect { x: 0, y: 0, width, height },
        );
        assert forall|px: int, py: int| #[trigger] bottom@.has(px, py) implies bottom@.pixel(px, py)
            == (if x <= px < x + top@.width && y <= py < y + top@.height {
            top@.pixel(px - x, py - y)
        } else {
            before.pixel(px, py)
        }) by {
            assert(bottom@.pixel(px, py) == blit_pixel(before, top@, x, y, part, px, py));
        }
    }
}

} // verus!
