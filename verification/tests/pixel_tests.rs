use bg_setter::pixel::{blend_channel, rgb_to_zpix, round_div_i32, zpix_to_rgb, ByteOrder, Rgb,
    RgbData};

#[test]
fn zpix_packs_lsb_first() {
    let z = rgb_to_zpix(0x12, 0x34, 0x56, ByteOrder::LsbFirst);
    assert_eq!(z, 0x0012_3456);
}

#[test]
fn zpix_round_trip() {
    for &(r, g, b) in &[(0u8, 0u8, 0u8), (255, 0, 0), (1, 2, 3), (255, 255, 255), (7, 200, 99)] {
        let z = rgb_to_zpix(r, g, b, ByteOrder::LsbFirst);
        assert_eq!(zpix_to_rgb(z, ByteOrder::LsbFirst), (r, g, b));
    }
}

#[test]
fn zpix_solid_red_packed_value() {
    assert_eq!(rgb_to_zpix(255, 0, 0, ByteOrder::LsbFirst), 0x00FF_0000);
}

#[test]
fn round_div_half_away_from_zero() {
    assert_eq!(round_div_i32(5, 2), 3);
    assert_eq!(round_div_i32(-5, 2), -3);
    assert_eq!(round_div_i32(4, 2), 2);
    assert_eq!(round_div_i32(1, 3), 0);
    assert_eq!(round_div_i32(2, 3), 1);
    assert_eq!(round_div_i32(-1, 3), 0);
    assert_eq!(round_div_i32(-2, 3), -1);
    assert_eq!(round_div_i32(0, 7), 0);
}

#[test]
fn blend_channel_exact_values() {
    // 10 + round(2 * 100 / 4) = 60
    assert_eq!(blend_channel(10, 100, 2, 4), 60);
    // full iteration count lands on the captured value: t + d
    assert_eq!(blend_channel(10, 190, 256, 256), 200);
    // zero iteration shows the target channel itself
    assert_eq!(blend_channel(123, -100, 0, 256), 123);
    // rounding: 0 + round(5 / 2) = 3
    assert_eq!(blend_channel(0, 5, 1, 2), 3);
    // negative delta rounds away from zero: 100 + round(-5 / 2) = 97
    assert_eq!(blend_channel(100, -5, 1, 2), 97);
}

#[test]
fn blend_final_frame_within_one_of_target() {
    // worst-case channel distance with the full iteration count
    for &(t, s) in &[(0u8, 255u8), (255, 0), (100, 101), (7, 7)] {
        let d = (s as i16) - (t as i16);
        let last = blend_channel(t, d, 1, 256);
        let diff = (last as i16) - (t as i16);
        assert!(-1 <= diff && diff <= 1);
    }
}

#[test]
fn rgb_data_get_set() {
    let mut img = RgbData::new(4, 3);
    assert_eq!(img.width, 4);
    assert_eq!(img.height, 3);
    assert_eq!(img.get_pixel(0, 0), Rgb { r: 0, g: 0, b: 0 });
    img.set_pixel(2, 1, Rgb { r: 9, g: 8, b: 7 });
    assert_eq!(img.get_pixel(2, 1), Rgb { r: 9, g: 8, b: 7 });
    assert_eq!(img.get_pixel(1, 2), Rgb { r: 0, g: 0, b: 0 });
}
