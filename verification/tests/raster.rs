use parapet::raster::{fits, sample_count};

#[test]
fn sample_count_is_four_for_each_pixel() {
    assert_eq!(sample_count(0, 9), 0);
    assert_eq!(sample_count(3, 2), 24);
    assert_eq!(sample_count(u32::MAX, u32::MAX), 4 * (u32::MAX as u128) * (u32::MAX as u128));
}

#[test]
fn fits_asks_for_the_rows_and_for_the_whole() {
    assert!(fits(0, 0));
    assert!(fits(1920, 1080));
    assert!(fits(0, u32::MAX));
    assert!(!fits(u32::MAX, u32::MAX));
    assert_eq!(fits(1 << 30, 0), 4u128 << 30 <= usize::MAX as u128);
    assert_eq!(fits(u32::MAX, 1), 4 * (u32::MAX as u128) <= usize::MAX as u128);
}
