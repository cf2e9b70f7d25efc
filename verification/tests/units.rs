use tile_print::units::{convert_mm_to_px, try_convert_mm_to_px};

// A4 edges converted at three common
// resolutions. Lengths are given in tenths of a millimeter.
#[test]
fn test_convert_mm_to_px() {
    let a4_width: u32 = 2100;
    let a4_height: u32 = 2970;

    let dpi: u32 = 350;
    assert_eq!(convert_mm_to_px(a4_width, dpi), 2894);
    assert_eq!(convert_mm_to_px(a4_height, dpi), 4093);

    let dpi: u32 = 300;
    assert_eq!(convert_mm_to_px(a4_width, dpi), 2480);
    assert_eq!(convert_mm_to_px(a4_height, dpi), 3508);

    let dpi: u32 = 200;
    assert_eq!(convert_mm_to_px(a4_width, dpi), 1654);
    assert_eq!(convert_mm_to_px(a4_height, dpi), 2339);
}

#[test]
fn convert_rounds_to_nearest() {
    // 1 mm at 254 dpi is exactly 10 px.
    assert_eq!(convert_mm_to_px(10, 254), 10);
    // 0.5 mm at 350 dpi is 6.889... px, which rounds up to 7.
    assert_eq!(convert_mm_to_px(5, 350), 7);
    // 0.1 mm at 300 dpi is 1.18... px, which rounds down to 1.
    assert_eq!(convert_mm_to_px(1, 300), 1);
    // A zero length or a zero resolution gives zero pixels.
    assert_eq!(convert_mm_to_px(0, 350), 0);
    assert_eq!(convert_mm_to_px(2100, 0), 0);
}

#[test]
fn convert_half_pixel_rounds_up() {
    // 12.7 mm at 10 dpi is exactly 5 px; 6.35 mm is exactly 2.5 px, the
    // tie, which rounds away from zero to 3.
    assert_eq!(convert_mm_to_px(127, 10), 5);
    assert_eq!(convert_mm_to_px(635, 1), 3);
}

#[test]
fn try_convert_agrees_and_guards() {
    assert_eq!(try_convert_mm_to_px(2100, 350), Some(2894));
    assert_eq!(try_convert_mm_to_px(0, 0), Some(0));
    // The largest representable length at the largest resolution does not
    // fit a 32-bit pixel count.
    assert_eq!(try_convert_mm_to_px(u32::MAX, u32::MAX), None);
}
