use parapet::blit::{replace, replace_area};
use parapet::buffer::BgraImage;
use parapet::rect::Rect;

fn blit_px(x: u32, y: u32) -> [u8; 4] {
    [(10 * x + y + 1) as u8, (x + 100) as u8, (y + 200) as u8, 255]
}

fn blit_pattern(width: u32, height: u32) -> BgraImage {
    let mut data = Vec::new();
    for y in 0..height {
        for x in 0..width {
            data.extend_from_slice(&blit_px(x, y));
        }
    }
    BgraImage::from_raw(width, height, data).ok().unwrap()
}

fn blit_zeros(width: u32, height: u32) -> BgraImage {
    BgraImage::from_raw(width, height, vec![0; (4 * width * height) as usize]).ok().unwrap()
}

#[test]
fn replace_area_copies_the_clipped_rectangle() {
    let mut bottom = blit_zeros(4, 4);
    let top = blit_pattern(3, 3);
    replace_area(&mut bottom, &top, 2, 2, Rect::new(1, 1, 5, 5));
    for y in 0..4 {
        for x in 0..4 {
            let expected = if x >= 2 && y >= 2 { blit_px(x - 1, y - 1) } else { [0, 0, 0, 0] };
            assert_eq!(bottom.pixel(x, y), Some(expected));
        }
    }
}

#[test]
fn replace_area_is_cut_to_the_room_in_the_destination() {
    let mut bottom = blit_zeros(4, 4);
    let top = blit_pattern(3, 3);
    replace_area(&mut bottom, &top, 3, 1, Rect::new(0, 0, 3, 3));
    for y in 0..4 {
        for x in 0..4 {
            let expected = if x == 3 && y >= 1 { blit_px(0, y - 1) } else { [0, 0, 0, 0] };
            assert_eq!(bottom.pixel(x, y), Some(expected));
        }
    }
}

#[test]
fn replace_area_with_an_offset_outside_changes_nothing() {
    let mut bottom = blit_pattern(4, 4);
    let top = blit_zeros(3, 3);
    replace_area(&mut bottom, &top, 4, 0, Rect::new(0, 0, 3, 3));
    replace_area(&mut bottom, &top, 0, 10, Rect::new(0, 0, 3, 3));
    replace_area(&mut bottom, &top, u32::MAX, u32::MAX, Rect::new(0, 0, 3, 3));
    assert_eq!(bottom.into_raw(), blit_pattern(4, 4).into_raw());
}

#[test]
fn replace_area_with_an_empty_rectangle_changes_nothing() {
    let mut bottom = blit_pattern(4, 4);
    let top = blit_zeros(3, 3);
    replace_area(&mut bottom, &top, 0, 0, Rect::new(0, 0, 0, 0));
    replace_area(&mut bottom, &top, 1, 1, Rect::new(1, 1, 0, 2));
    replace_area(&mut bottom, &top, 1, 1, Rect::new(1, 1, 2, 0));
    assert_eq!(bottom.into_raw(), blit_pattern(4, 4).into_raw());
}

#[test]
fn replace_area_with_a_rectangle_outside_the_source_changes_nothing() {
    let mut bottom = blit_pattern(4, 4);
    let top = blit_zeros(3, 3);
    replace_area(&mut bottom, &top, 0, 0, Rect::new(4, 0, 1, 1));
    replace_area(&mut bottom, &top, 0, 0, Rect::new(3, 0, 2, 2));
    replace_area(&mut bottom, &top, 0, 0, Rect::new(0, 3, 2, 2));
    replace_area(&mut bottom, &top, 0, 0, Rect::new(u32::MAX, u32::MAX, u32::MAX, u32::MAX));
    assert_eq!(bottom.into_raw(), blit_pattern(4, 4).into_raw());
}

#[test]
fn replace_area_takes_the_largest_rectangle_without_wrapping() {
    let mut bottom = blit_zeros(2, 2);
    let top = blit_pattern(3, 3);
    replace_area(&mut bottom, &top, 0, 0, Rect::new(1, 1, u32::MAX, u32::MAX));
    for y in 0..2 {
        for x in 0..2 {
            assert_eq!(bottom.pixel(x, y), Some(blit_px(x + 1, y + 1)));
        }
    }
}

#[test]
fn replace_puts_the_whole_image_at_the_offset() {
    let mut bottom = blit_zeros(5, 4);
    let top = blit_pattern(2, 2);
    replace(&mut bottom, &top, 1, 2);
    for y in 0..4 {
        for x in 0..5 {
            let inside = x >= 1 && x < 3 && y >= 2;
            let expected = if inside { blit_px(x - 1, y - 2) } else { [0, 0, 0, 0] };
            assert_eq!(bottom.pixel(x, y), Some(expected));
        }
    }
}

#[test]
fn replace_cuts_off_what_does_not_fit() {
    let mut bottom = blit_zeros(3, 3);
    let top = blit_pattern(4, 4);
    replace(&mut bottom, &top, 2, 1);
    for y in 0..3 {
        for x in 0..3 {
            let expected = if x == 2 && y >= 1 { blit_px(0, y - 1) } else { [0, 0, 0, 0] };
            assert_eq!(bottom.pixel(x, y), Some(expected));
        }
    }
}

#[test]
fn from_raw_wants_four_samples_for_each_pixel() {
    assert!(BgraImage::from_raw(2, 2, vec![0; 16]).is_ok());
    assert_eq!(BgraImage::from_raw(2, 2, vec![0; 15]).err(), Some(parapet::Error::UnsupportedFormat));
    assert_eq!(BgraImage::from_raw(2, 2, vec![0; 17]).err(), Some(parapet::Error::UnsupportedFormat));
    assert!(BgraImage::from_raw(0, 7, Vec::new()).is_ok());
    assert!(BgraImage::from_raw(7, 0, Vec::new()).is_ok());
}

#[test]
fn buffer_hands_out_size_pixels_and_samples() {
    let image = blit_pattern(3, 2);
    assert_eq!(image.dimensions(), (3, 2));
    assert_eq!(image.pixel(2, 1), Some(blit_px(2, 1)));
    assert_eq!(image.pixel(3, 1), None);
    assert_eq!(image.pixel(2, 2), None);
    let raw = image.into_raw();
    assert_eq!(raw.len(), 24);
    assert_eq!(&raw[20..24], &blit_px(2, 1));
}
