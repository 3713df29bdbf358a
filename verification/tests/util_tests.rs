use plight::color::Color;
use plight::convert::{hex_to_rgb, rgba8_to_rgb8};
use plight::errors::PLightError;
use plight::timer::Timer;

#[test]
fn hex_colors_parse_with_and_without_hashes() {
    assert_eq!(hex_to_rgb("#ff00a0").unwrap(), Color::new(255, 0, 160));
    assert_eq!(hex_to_rgb("ABCDEF").unwrap(), Color::new(171, 205, 239));
    assert_eq!(hex_to_rgb("##102030").unwrap(), Color::new(16, 32, 48));
    // six digits are enough; the tail is ignored
    assert_eq!(hex_to_rgb("#000000ff").unwrap(), Color::new(0, 0, 0));
}

#[test]
fn bad_hex_colors_are_rejected()
{
    assert!(matches!(hex_to_rgb("#ff00"), Err(PLightError::InvalidHexColor { .. })));
    assert!(matches!(hex_to_rgb("zzzzzz"), Err(PLightError::InvalidHexColor { .. })));
    assert!(matches!(hex_to_rgb(""), Err(PLightError::InvalidHexColor { .. })));
    assert!(matches!(hex_to_rgb("####"), Err(PLightError::InvalidHexColor { .. })));
}

#[test]
fn rgba_buffers_lose_their_alpha_byte() {
    let input = vec![1u8, 2, 3, 4, 5, 6, 7, 8];
    assert_eq!(rgba8_to_rgb8(&input), vec![1, 2, 3, 5, 6, 7]);
    assert_eq!(rgba8_to_rgb8(&Vec::new()), Vec::<u8>::new());
    // a trailing partial pixel is dropped
    assert_eq!(rgba8_to_rgb8(&vec![9u8, 9, 9]), Vec::<u8>::new());
}

#[test]
fn timer_scales_values_into_its_range() {
    let mut t = Timer::new(10);
    // the first value collapses the range: nothing to scale against yet
    assert_eq!(t.update_value(5, 0, 0), 0);
    // a new maximum reads full scale
    assert_eq!(t.update_value(10, 0, 0), 100);
    // a value inside the range is scaled linearly: (7-5)*100/(10-5)
    assert_eq!(t.update_value(7, 0, 0), 40);
    assert_eq!(t.min, 5);
    assert_eq!(t.max, 10);
}

#[test]
fn timer_retires_expired_windows() {
    let mut t = Timer::new(10);
    assert_eq!(t.update_value(5, 0, 0), 0);
    assert_eq!(t.update_value(10, 0, 0), 100);
    // the max window expires: the candidate gathered meanwhile takes over
    t.update_value(6, 0, 10);
    assert_eq!(t.max, 10);
    assert_eq!(t.last_max, 0);
}
