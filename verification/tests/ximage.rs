use image::{Bgra, DynamicImage, ImageBuffer, Rgb};
use parapet::buffer::BgraImage;
use parapet::tiling::{spread, stack};
use parapet::ximage::{ceil, scale, Image};
use parapet::{Error, ImageMode};

const BLANK: [u8; 4] = [0, 0, 0, 0];

fn px(x: u32, y: u32) -> [u8; 4] {
    [(16 * x + y + 1) as u8, (x + 50) as u8, (y + 150) as u8, 255]
}

fn pattern(width: u32, height: u32) -> BgraImage {
    let mut data = Vec::new();
    for y in 0..height {
        for x in 0..width {
            data.extend_from_slice(&px(x, y));
        }
    }
    BgraImage::from_raw(width, height, data).ok().unwrap()
}

fn uniform(width: u32, height: u32, pixel: [u8; 4]) -> BgraImage {
    let mut data = Vec::new();
    for _ in 0..width * height {
        data.extend_from_slice(&pixel);
    }
    BgraImage::from_raw(width, height, data).ok().unwrap()
}

fn dynamic_pattern(width: u32, height: u32) -> DynamicImage {
    let raw = pattern(width, height).into_raw();
    DynamicImage::ImageBgra8(ImageBuffer::<Bgra<u8>, Vec<u8>>::from_raw(width, height, raw).unwrap())
}

fn wrap(value: u32, origin: u32, period: u32) -> u32 {
    (value as i64 - origin as i64).rem_euclid(period as i64) as u32
}

fn at(canvas: &Image, x: u32, y: u32) -> [u8; 4] {
    let start = (4 * (y * canvas.width() + x)) as usize;
    [canvas.data[start], canvas.data[start + 1], canvas.data[start + 2], canvas.data[start + 3]]
}

#[test]
fn ceil_rounds_up_and_is_zero_for_zero() {
    assert_eq!(ceil(0, 5), 0);
    assert_eq!(ceil(0, 0), 0);
    assert_eq!(ceil(1, 5), 1);
    assert_eq!(ceil(5, 5), 1);
    assert_eq!(ceil(6, 5), 2);
    assert_eq!(ceil(10, 5), 2);
    assert_eq!(ceil(u32::MAX, 1), u32::MAX);
}

#[test]
fn scale_rounds_down() {
    assert_eq!(scale(100, 100, 200), 50);
    assert_eq!(scale(3, 5, 2), 7);
    assert_eq!(scale(u32::MAX, u32::MAX, 1), (u32::MAX as u64) * (u32::MAX as u64));
}

#[test]
fn center_puts_a_small_source_in_the_middle() {
    let canvas = ImageMode::center(&pattern(2, 2), 6, 4);
    assert_eq!(canvas.dimensions(), (6, 4));
    for y in 0..4 {
        for x in 0..6 {
            let inside = x >= 2 && x < 4 && y >= 1 && y < 3;
            let expected = if inside { px(x - 2, y - 1) } else { BLANK };
            assert_eq!(canvas.pixel(x, y), Some(expected));
        }
    }
}

#[test]
fn center_crops_a_source_that_is_larger_on_one_axis() {
    let canvas = ImageMode::center(&pattern(8, 2), 4, 4);
    assert_eq!(canvas.dimensions(), (4, 4));
    for y in 0..4 {
        for x in 0..4 {
            let expected = if y >= 1 && y < 3 { px(x + 2, y - 1) } else { BLANK };
            assert_eq!(canvas.pixel(x, y), Some(expected));
        }
    }
}

#[test]
fn center_crops_a_source_that_is_larger_on_both_axes() {
    let canvas = ImageMode::center(&pattern(7, 6), 4, 3);
    assert_eq!(canvas.dimensions(), (4, 3));
    for y in 0..3 {
        for x in 0..4 {
            assert_eq!(canvas.pixel(x, y), Some(px(x + 1, y + 1)));
        }
    }
}

#[test]
fn center_of_an_empty_source_is_a_blank_canvas() {
    let canvas = ImageMode::center(&pattern(0, 0), 3, 2);
    assert_eq!(canvas.into_raw(), vec![0u8; 24]);
}

#[test]
fn letterbox_starts_a_wide_image_at_the_edge() {
    let canvas = ImageMode::letterbox(&pattern(6, 2), 4, 4);
    for y in 0..4 {
        for x in 0..4 {
            let expected = if y >= 1 && y < 3 { px(x, y - 1) } else { BLANK };
            assert_eq!(canvas.pixel(x, y), Some(expected));
        }
    }
}

#[test]
fn tile_is_in_step_with_the_centred_copy() {
    let canvas = ImageMode::tile(&pattern(4, 4), 10, 10);
    assert_eq!(canvas.dimensions(), (10, 10));
    assert_eq!(canvas.pixel(5, 5), Some(px(2, 2)));
    for y in 0..10 {
        for x in 0..10 {
            assert_eq!(canvas.pixel(x, y), Some(px(wrap(x, 3, 4), wrap(y, 3, 4))));
        }
    }
    for d in 0..5 {
        let right = canvas.pixel(5 + d, 5).unwrap();
        let left = canvas.pixel(4 - d, 5).unwrap();
        assert_eq!(right[1] as i32 - 50, wrap(5 + d, 3, 4) as i32);
        assert_eq!(left[1] as i32 - 50, 3 - wrap(5 + d, 3, 4) as i32);
    }
}

#[test]
fn tile_of_a_source_of_the_size_of_the_target_is_the_source() {
    let canvas = ImageMode::tile(&pattern(4, 4), 4, 4);
    assert_eq!(canvas.into_raw(), pattern(4, 4).into_raw());
}

#[test]
fn tile_stamps_nothing_on_an_axis_that_the_centred_copy_covers() {
    let canvas = ImageMode::tile(&pattern(4, 2), 4, 6);
    for y in 0..6 {
        for x in 0..4 {
            assert_eq!(canvas.pixel(x, y), Some(px(x, wrap(y, 2, 2))));
        }
    }
}

#[test]
fn tile_repeats_a_source_that_fits_on_one_axis_only() {
    let canvas = ImageMode::tile(&pattern(6, 2), 4, 4);
    for y in 0..4 {
        for x in 0..4 {
            assert_eq!(canvas.pixel(x, y), Some(px(x, wrap(y, 1, 2))));
        }
    }
}

#[test]
fn tile_centres_a_source_that_fits_on_no_axis() {
    let canvas = ImageMode::tile(&pattern(6, 6), 4, 4);
    for y in 0..4 {
        for x in 0..4 {
            assert_eq!(canvas.pixel(x, y), Some(px(x + 1, y + 1)));
        }
    }
}

#[test]
fn tile_leaves_the_first_row_blank_where_the_copies_stop_short() {
    let canvas = ImageMode::tile(&pattern(2, 1), 4, 4);
    for y in 0..4 {
        for x in 0..4 {
            let expected = if y >= 1 { px(wrap(x, 1, 2), 0) } else { BLANK };
            assert_eq!(canvas.pixel(x, y), Some(expected));
        }
    }
}

#[test]
fn stack_repeats_downwards_and_upwards() {
    let column = stack(&pattern(2, 3), 11);
    assert_eq!(column.dimensions(), (2, 11));
    for y in 0..11 {
        for x in 0..2 {
            assert_eq!(column.pixel(x, y), Some(px(x, wrap(y, 4, 3))));
        }
    }
}

#[test]
fn stack_leaves_the_first_row_blank_where_the_copies_stop_short() {
    let column = stack(&pattern(2, 3), 10);
    for y in 0..10 {
        for x in 0..2 {
            let expected = if y >= 1 { px(x, wrap(y, 4, 3)) } else { BLANK };
            assert_eq!(column.pixel(x, y), Some(expected));
        }
    }
}

#[test]
fn spread_repeats_to_the_right_and_to_the_left() {
    let canvas = spread(&pattern(3, 2), 11);
    assert_eq!(canvas.dimensions(), (11, 2));
    for y in 0..2 {
        for x in 0..11 {
            assert_eq!(canvas.pixel(x, y), Some(px(wrap(x, 4, 3), y)));
        }
    }
}

#[test]
fn fill_scales_to_fit_and_centres() {
    let colour = [10, 20, 30, 255];
    let canvas = ImageMode::fill(&uniform(200, 100, colour), 100, 100);
    assert_eq!(canvas.dimensions(), (100, 100));
    for y in 0..100 {
        for x in 0..100 {
            let expected = if y >= 25 && y < 75 { colour } else { BLANK };
            assert_eq!(canvas.pixel(x, y), Some(expected));
        }
    }
}

#[test]
fn fill_scales_a_small_source_up() {
    let colour = [1, 2, 3, 4];
    let canvas = ImageMode::fill(&uniform(2, 1, colour), 8, 8);
    for y in 0..8 {
        for x in 0..8 {
            let expected = if y >= 2 && y < 6 { colour } else { BLANK };
            assert_eq!(canvas.pixel(x, y), Some(expected));
        }
    }
}

#[test]
fn fill_takes_the_nearest_source_pixel() {
    let canvas = ImageMode::fill(&pattern(2, 2), 4, 4);
    for y in 0..4 {
        for x in 0..4 {
            assert_eq!(canvas.pixel(x, y), Some(px(x / 2, y / 2)));
        }
    }
}

#[test]
fn max_covers_the_whole_canvas() {
    let colour = [9, 8, 7, 255];
    let canvas = ImageMode::max(&uniform(4, 2, colour), 3, 3);
    assert_eq!(canvas.dimensions(), (3, 3));
    assert_eq!(canvas.into_raw(), uniform(3, 3, colour).into_raw());
}

#[test]
fn max_cuts_the_scaled_source_about_its_middle() {
    let canvas = ImageMode::max(&pattern(4, 2), 2, 2);
    assert_eq!(canvas.dimensions(), (2, 2));
    for y in 0..2 {
        for x in 0..2 {
            assert_eq!(canvas.pixel(x, y), Some(px(x + 1, y)));
        }
    }
}

#[test]
fn apply_gives_a_canvas_of_the_size_asked_for() {
    let source = dynamic_pattern(5, 3);
    let modes = [ImageMode::Max, ImageMode::Fill, ImageMode::Center, ImageMode::Tile];
    let sizes = [(1u32, 1u32), (5, 3), (7, 2), (2, 9), (16, 16)];
    for mode in modes.iter() {
        for (width, height) in sizes.iter() {
            assert!(mode.workable(5, 3, *width, *height));
            let canvas = mode.apply(&source, *width, *height).ok().unwrap();
            assert_eq!((canvas.width(), canvas.height()), (*width, *height));
            assert_eq!(canvas.depth(), 24);
            assert_eq!(canvas.data.len(), (4 * width * height) as usize);
            assert_eq!(canvas.buffer(), &canvas.data);
        }
    }
}

#[test]
fn apply_brings_the_source_into_bgra() {
    let rgb = ImageBuffer::<Rgb<u8>, Vec<u8>>::from_raw(1, 1, vec![1, 2, 3]).unwrap();
    let canvas = ImageMode::Center.apply(&DynamicImage::ImageRgb8(rgb), 1, 1).ok().unwrap();
    assert_eq!(canvas.data, vec![3, 2, 1, 255]);
}

#[test]
fn apply_center_matches_center() {
    let canvas = ImageMode::Center.apply(&dynamic_pattern(2, 2), 6, 4).ok().unwrap();
    for y in 0..4 {
        for x in 0..6 {
            let inside = x >= 2 && x < 4 && y >= 1 && y < 3;
            let expected = if inside { px(x - 2, y - 1) } else { BLANK };
            assert_eq!(at(&canvas, x, y), expected);
        }
    }
}

#[test]
fn apply_tile_matches_tile() {
    let canvas = ImageMode::Tile.apply(&dynamic_pattern(4, 4), 10, 10).ok().unwrap();
    assert_eq!(at(&canvas, 5, 5), px(2, 2));
    for y in 0..10 {
        for x in 0..10 {
            assert_eq!(at(&canvas, x, y), px(wrap(x, 3, 4), wrap(y, 3, 4)));
        }
    }
}

#[test]
fn apply_fill_letterboxes_a_wide_source() {
    let colour = [10, 20, 30, 255];
    let raw = uniform(200, 100, colour).into_raw();
    let source =
        DynamicImage::ImageBgra8(ImageBuffer::<Bgra<u8>, Vec<u8>>::from_raw(200, 100, raw).unwrap());
    let canvas = ImageMode::Fill.apply(&source, 100, 100).ok().unwrap();
    for y in 0..100 {
        for x in 0..100 {
            let expected = if y >= 25 && y < 75 { colour } else { BLANK };
            assert_eq!(at(&canvas, x, y), expected);
        }
    }
}

#[test]
fn apply_max_scales_to_cover() {
    let canvas = ImageMode::Max.apply(&dynamic_pattern(4, 2), 2, 2).ok().unwrap();
    for y in 0..2 {
        for x in 0..2 {
            assert_eq!(at(&canvas, x, y), px(x + 1, y));
        }
    }
}

#[test]
fn apply_refuses_a_target_without_pixels() {
    let source = dynamic_pattern(2, 2);
    let modes = [ImageMode::Max, ImageMode::Fill, ImageMode::Center, ImageMode::Tile];
    for mode in modes.iter() {
        assert_eq!(mode.apply(&source, 0, 5).err(), Some(Error::DegenerateTarget));
        assert_eq!(mode.apply(&source, 5, 0).err(), Some(Error::DegenerateTarget));
        assert_eq!(mode.apply(&source, 0, 0).err(), Some(Error::DegenerateTarget));
    }
}

#[test]
fn apply_refuses_to_scale_or_repeat_a_source_without_pixels() {
    let empty = DynamicImage::new_bgra8(0, 0);
    let flat = DynamicImage::new_bgra8(3, 0);
    let thin = DynamicImage::new_bgra8(0, 3);
    for mode in [ImageMode::Max, ImageMode::Tile].iter() {
        assert_eq!(mode.apply(&empty, 4, 4).err(), Some(Error::UnsupportedFormat));
        assert_eq!(mode.apply(&flat, 4, 4).err(), Some(Error::UnsupportedFormat));
        assert_eq!(mode.apply(&thin, 4, 4).err(), Some(Error::UnsupportedFormat));
    }
    assert_eq!(ImageMode::Fill.apply(&empty, 4, 4).err(), Some(Error::UnsupportedFormat));
    let canvas = ImageMode::Center.apply(&empty, 2, 2).ok().unwrap();
    assert_eq!(canvas.data, vec![0u8; 16]);
}

#[test]
fn apply_fill_leaves_the_canvas_blank_for_a_source_with_one_extent() {
    let flat = DynamicImage::new_bgra8(3, 0);
    let thin = DynamicImage::new_bgra8(0, 3);
    for source in [flat, thin].iter() {
        let canvas = ImageMode::Fill.apply(source, 4, 2).ok().unwrap();
        assert_eq!((canvas.width(), canvas.height()), (4, 2));
        assert_eq!(canvas.data, vec![0u8; 32]);
        let tried = ImageMode::Fill.try_apply(source, 4, 2).unwrap().ok().unwrap();
        assert_eq!(tried.data, vec![0u8; 32]);
    }
}

#[test]
fn fill_leaves_the_canvas_blank_for_a_source_with_one_extent() {
    assert_eq!(ImageMode::fill(&pattern(3, 0), 2, 2).into_raw(), vec![0u8; 16]);
    assert_eq!(ImageMode::fill(&pattern(0, 3), 2, 2).into_raw(), vec![0u8; 16]);
}

#[test]
fn apply_gives_the_protocol_size_for_every_placement() {
    let source = dynamic_pattern(3, 2);
    let modes = [ImageMode::Max, ImageMode::Fill, ImageMode::Center, ImageMode::Tile];
    for mode in modes.iter() {
        let canvas = mode.try_apply(&source, 300, 7).unwrap().ok().unwrap();
        assert_eq!(canvas.size(), (300, 7));
        assert_eq!(canvas.buffer().len(), 4 * 300 * 7);
    }
}

#[test]
fn a_target_without_pixels_is_refused_before_the_source_is_looked_at() {
    let empty = DynamicImage::new_bgra8(0, 0);
    assert_eq!(ImageMode::Tile.apply(&empty, 0, 4).err(), Some(Error::DegenerateTarget));
}

#[test]
fn try_apply_gives_what_apply_gives() {
    let source = dynamic_pattern(4, 4);
    let canvas = ImageMode::Tile.try_apply(&source, 10, 10).unwrap().ok().unwrap();
    assert_eq!(canvas.data, ImageMode::Tile.apply(&source, 10, 10).ok().unwrap().data);
    let refused = ImageMode::Tile.try_apply(&source, 0, 10).unwrap();
    assert_eq!(refused.err(), Some(Error::DegenerateTarget));
}

#[test]
fn try_apply_declines_a_canvas_that_cannot_be_indexed() {
    let source = dynamic_pattern(1, 1);
    assert!(ImageMode::Center.try_apply(&source, u32::MAX, u32::MAX).is_none());
    assert!(ImageMode::Max.try_apply(&source, u32::MAX, u32::MAX).is_none());
}

#[test]
fn workable_checks_the_sizes_of_all_buffers() {
    assert!(ImageMode::Tile.workable(4000, 3000, 1920, 1080));
    assert!(ImageMode::Max.workable(4000, 3000, 1920, 1080));
    assert!(ImageMode::Fill.workable(4000, 3000, 1920, 1080));
    assert!(ImageMode::Center.workable(4000, 3000, 1920, 1080));
    assert!(!ImageMode::Center.workable(1, 1, u32::MAX, u32::MAX));
    assert!(!ImageMode::Max.workable(1, u32::MAX, u32::MAX, 1));
    assert!(ImageMode::Max.workable(1, u32::MAX, 0, 1));
    assert!(ImageMode::Fill.workable(0, 0, 4, 4));
    assert!(ImageMode::Fill.workable(3, 0, 4, 4));
    assert!(!ImageMode::Fill.workable(3, 0, u32::MAX, u32::MAX));
    assert!(ImageMode::Tile.workable(3, 0, u32::MAX, u32::MAX));
}

#[test]
fn image_keeps_size_depth_and_samples() {
    let canvas = Image::create(pattern(3, 2));
    assert_eq!((canvas.width(), canvas.height(), canvas.depth()), (3, 2, 24));
    assert_eq!(canvas.size(), (3, 2));
    assert_eq!(canvas.data, pattern(3, 2).into_raw());
}

#[test]
fn image_size_is_taken_modulo_sixteen_bits() {
    let canvas = Image::create(uniform(70000, 1, [1, 2, 3, 4]));
    assert_eq!(canvas.width(), 70000);
    assert_eq!(canvas.size(), (4464, 1));
}

#[test]
fn errors_describe_themselves() {
    assert_eq!(Error::UnsupportedFormat.describe(), "Image format error: unsupported format");
    assert_eq!(Error::DegenerateTarget.describe(), "Target error: width or height is zero");
}
