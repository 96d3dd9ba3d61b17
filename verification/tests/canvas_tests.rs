use bg_setter::canvas::{Canvas, PixFormat};
use bg_setter::pixel::{rgb_to_zpix, ByteOrder, Rgb, RgbData};
use bg_setter::BgError;

fn depth24_formats() -> Vec<PixFormat> {
    vec![
        PixFormat { depth: 1, bits_per_pixel: 1, scanline_pad: 32 },
        PixFormat { depth: 24, bits_per_pixel: 32, scanline_pad: 32 },
        PixFormat { depth: 32, bits_per_pixel: 32, scanline_pad: 32 },
    ]
}

fn solid(width: u32, height: u32, r: u8, g: u8, b: u8) -> RgbData {
    let mut img = RgbData::new(width, height);
    for y in 0..height {
        for x in 0..width {
            img.set_pixel(x, y, Rgb { r, g, b });
        }
    }
    img
}

#[test]
fn create_picks_depth_format() {
    let c = Canvas::create(&depth24_formats(), ByteOrder::LsbFirst, 24, 240, 240).unwrap();
    assert_eq!(c.width(), 240);
    assert_eq!(c.height(), 240);
    assert_eq!(c.actual_width(), 240);
    assert_eq!(c.actual_height(), 240);
    assert_eq!(c.depth, 24);
    assert_eq!(c.stride, 960);
    assert_eq!(c.byte_order(), ByteOrder::LsbFirst);
    assert_eq!(c.bytes().len(), 4 * 240 * 240);
}

#[test]
fn create_fails_without_matching_depth() {
    let r = Canvas::create(&depth24_formats(), ByteOrder::LsbFirst, 16, 10, 10);
    assert!(matches!(r, Err(BgError::AllocFailed)));
    let r = Canvas::create(&Vec::new(), ByteOrder::LsbFirst, 24, 10, 10);
    assert!(matches!(r, Err(BgError::AllocFailed)));
}

#[test]
fn create_fails_on_unsupported_bits_per_pixel() {
    let formats = vec![PixFormat { depth: 24, bits_per_pixel: 16, scanline_pad: 32 }];
    let r = Canvas::create(&formats, ByteOrder::LsbFirst, 24, 10, 10);
    assert!(matches!(r, Err(BgError::AllocFailed)));
}

#[test]
fn put_get_round_trip() {
    let mut c = Canvas::with_dims(24, 32, ByteOrder::LsbFirst, 16, 16);
    c.put(3, 4, 0x1122_3344);
    assert_eq!(c.get(3, 4), 0x1122_3344);
    assert_eq!(c.get(4, 3), 0);
}

#[test]
fn resize_then_restore_returns_full_capacity() {
    let mut c = Canvas::with_dims(24, 32, ByteOrder::LsbFirst, 240, 180);
    c.resize(100, 50);
    assert_eq!(c.width(), 100);
    assert_eq!(c.height(), 50);
    assert_eq!(c.actual_width(), 240);
    assert_eq!(c.actual_height(), 180);
    c.restore();
    assert_eq!(c.width(), 240);
    assert_eq!(c.height(), 180);
}

#[test]
fn compose_without_deltas_round_trips_triplets() {
    let mut c = Canvas::with_dims(24, 32, ByteOrder::LsbFirst, 8, 8);
    let mut img = RgbData::new(8, 8);
    img.set_pixel(2, 5, Rgb { r: 10, g: 20, b: 30 });
    img.set_pixel(7, 0, Rgb { r: 250, g: 1, b: 128 });
    c.compose(&img, None, 0);
    assert_eq!(c.get(2, 5), rgb_to_zpix(10, 20, 30, ByteOrder::LsbFirst));
    assert_eq!(c.get(7, 0), rgb_to_zpix(250, 1, 128, ByteOrder::LsbFirst));
    assert_eq!(c.get(0, 0), 0);
}

#[test]
fn compose_solid_red_scenario() {
    // canvas at depth 24, 240 x 240; a 100 x 100 solid red image; the pixel
    // at (50, 50) reads back as the packed LSB-first value with blue = 0,
    // green = 0, red = 255.
    let mut c = Canvas::create(&depth24_formats(), ByteOrder::LsbFirst, 24, 240, 240).unwrap();
    let img = solid(100, 100, 255, 0, 0);
    c.compose(&img, None, 0);
    assert_eq!(c.get(50, 50), 0x00FF_0000);
    // outside the composed rectangle the canvas is untouched
    assert_eq!(c.get(150, 150), 0);
}

#[test]
fn compose_clips_to_overlap() {
    let mut c = Canvas::with_dims(24, 32, ByteOrder::LsbFirst, 4, 4);
    let img = solid(2, 8, 1, 2, 3);
    c.compose(&img, None, 0);
    assert_eq!(c.get(1, 3), rgb_to_zpix(1, 2, 3, ByteOrder::LsbFirst));
    assert_eq!(c.get(2, 0), 0);
}

#[test]
fn load_pixels_replaces_buffer() {
    let mut c = Canvas::with_dims(24, 32, ByteOrder::LsbFirst, 2, 2);
    let bytes = vec![0xAAu8; 16];
    c.load_pixels(bytes);
    assert_eq!(c.get(0, 0), 0xAAAA_AAAA);
    assert_eq!(c.bytes()[15], 0xAA);
}
