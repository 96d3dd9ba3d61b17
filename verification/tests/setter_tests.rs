use bg_setter::canvas::Canvas;
use bg_setter::pixel::{ByteOrder, Rgb, RgbData};
use bg_setter::setter::{monitor_rects, Display, FadePrep, OutputReport, Placement, Root,
    ScreenInfo, XBgSetter, XEvent};
use bg_setter::BgError;

fn small_canvas() -> Canvas {
    Canvas::with_dims(24, 32, ByteOrder::LsbFirst, 240, 240)
}

fn out(connection: u8, crtc: u32, x: i16, y: i16, w: u16, h: u16) -> OutputReport {
    OutputReport { connection, crtc, x, y, width: w, height: h }
}

fn screen(root: u32, w: u16, h: u16, outputs: Vec<OutputReport>) -> ScreenInfo {
    ScreenInfo { root, width: w, height: h, outputs }
}

fn solid(width: u32, height: u32, r: u8, g: u8, b: u8) -> RgbData {
    let mut img = RgbData::new(width, height);
    for y in 0..height {
        for x in 0..width {
            img.set_pixel(x, y, Rgb { r, g, b });
        }
    }
    img
}

#[test]
fn new_without_screens_reports_no_root() {
    match XBgSetter::new(small_canvas(), 0) {
        Err(BgError::NoRoot) => {}
        _ => panic!("expected NoRoot"),
    }
    assert!(XBgSetter::new(small_canvas(), 1).is_ok());
}

#[test]
fn monitor_rects_skips_disconnected_and_unbound_outputs() {
    let outputs = vec![
        out(0, 5, 0, 0, 1920, 1080),
        out(1, 6, 50, 50, 800, 600), // disconnected
        out(2, 0, 60, 60, 800, 600), // no display controller bound
        out(0, 7, 1920, 0, 1080, 1920),
    ];
    let rects = monitor_rects(&outputs);
    assert_eq!(rects.len(), 2);
    assert_eq!(rects[0], Display { width: 1920, height: 1080, x: 0, y: 0 });
    assert_eq!(rects[1], Display { width: 1080, height: 1920, x: 1920, y: 0 });
}

#[test]
fn refresh_twice_releases_each_first_pixmap_once() {
    // two refreshes in a row: the second must release exactly the pixmaps
    // the first created, one per screen, and create one new pixmap per screen
    let mut s = XBgSetter::new(small_canvas(), 2).unwrap();
    let screens = vec![
        screen(0x100, 1920, 1080, vec![out(0, 5, 0, 0, 1920, 1080)]),
        screen(0x200, 1080, 1920, vec![out(0, 6, 0, 0, 1080, 1920)]),
    ];
    let freed = s.apply_refresh(&screens, &vec![7, 8]);
    assert_eq!(freed, Vec::<u32>::new());
    assert_eq!(s.count(), 2);
    assert_eq!(s.roots[0].pid, 7);
    assert_eq!(s.roots[1].pid, 8);

    let freed = s.apply_refresh(&screens, &vec![9, 10]);
    assert_eq!(freed, vec![7, 8]);
    assert_eq!(s.count(), 2);
    assert_eq!(s.roots[0].pid, 9);
    assert_eq!(s.roots[1].pid, 10);
    assert_eq!(s.roots[0].index, 0);
    assert_eq!(s.roots[1].index, 1);
    assert_eq!(s.roots[0].root, 0x100);
    assert_eq!(s.get_display_count(0), 1);
}

#[test]
fn handle_event_matches_only_tracked_resizes() {
    let mut s = XBgSetter::new(small_canvas(), 1).unwrap();
    let screens = vec![screen(0x100, 100, 100, vec![out(0, 5, 0, 0, 100, 100)])];
    s.apply_refresh(&screens, &vec![7]);
    assert!(s.handle_event(&XEvent::Resize { window: 0x100 }));
    assert!(!s.handle_event(&XEvent::Resize { window: 0x999 }));
    assert!(!s.handle_event(&XEvent::Error { code: 3 }));
    assert!(!s.handle_event(&XEvent::Unknown { kind: 0x55 }));
}

fn two_monitor_setter() -> XBgSetter {
    let sizes = vec![
        Display { width: 1920, height: 1080, x: 0, y: 0 },
        Display { width: 1080, height: 1920, x: 1920, y: 0 },
    ];
    XBgSetter {
        roots: vec![Root {
            index: 0,
            root: 0x100,
            width: 3000,
            height: 1920,
            pid: 42,
            sizes,
        }],
        canvas: small_canvas(),
        verbose: false,
    }
}

#[test]
fn origin_maps_to_monitor_offset() {
    let s = two_monitor_setter();
    assert_eq!(s.screen_to_abs(0, 0, 0, 0), (0, 0));
    assert_eq!(s.screen_to_abs(0, 1, 0, 0), (1920, 0));
}

#[test]
fn monitor_accessors() {
    let s = two_monitor_setter();
    assert_eq!(s.count(), 1);
    assert_eq!(s.get_display_count(0), 2);
    assert_eq!(s.get_displays(0), vec![(1920, 1080), (1080, 1920)]);
    assert_eq!(s.display_dim(0, 1), (1080, 1920));
}

#[test]
fn replace_on_second_monitor_targets_offset_coordinate() {
    // monitors at (0,0,1920,1080) and (1920,0,1080,1920): a replace at the
    // second monitor's local (10, 20) lands at absolute (1930, 20)
    let mut s = two_monitor_setter();
    let img = solid(5, 5, 1, 2, 3);
    match s.replace(0, 1, 10, 20, &img) {
        Ok(Placement::Placed { pid, window, x, y, w, h }) => {
            assert_eq!((x, y), (1930, 20));
            assert_eq!(pid, 42);
            assert_eq!(window, 0x100);
            assert_eq!((w, h), (5, 5));
        }
        other => panic!("expected placement, got {:?}", other),
    }
    assert_eq!(s.canvas.get(0, 0), 0x0001_0203);
}

#[test]
fn replace_abs_outside_surface_is_skipped() {
    let mut s = two_monitor_setter();
    let img = solid(5, 5, 1, 2, 3);
    assert_eq!(s.replace_abs(0, 3000, 0, &img), Ok(Placement::Skipped));
    assert_eq!(s.replace_abs(0, 0, 1920, &img), Ok(Placement::Skipped));
}

#[test]
fn replace_abs_rejects_oversized_image() {
    let mut s = two_monitor_setter();
    let img = RgbData::new(70_000, 1);
    assert_eq!(s.replace_abs(0, 0, 0, &img), Err(BgError::ToLargeRgb));
}

#[test]
fn replace_abs_grows_canvas() {
    let mut s = two_monitor_setter();
    let img = solid(300, 250, 9, 9, 9);
    match s.replace_abs(0, 1, 1, &img) {
        Ok(Placement::Placed { .. }) => {}
        other => panic!("expected placement, got {:?}", other),
    }
    assert_eq!(s.canvas.width(), 300);
    assert_eq!(s.canvas.height(), 250);
    assert_eq!(s.canvas.get(299, 249), 0x0009_0909);
}

#[test]
fn fade_prepare_clips_to_surface_and_image() {
    let mut s = two_monitor_setter();
    match s.fade_prepare(0, 2900, 1900, 200, 10) {
        Ok(FadePrep::Run { pid, window, width, height, replaced }) => {
            assert_eq!(pid, 42);
            assert_eq!(window, 0x100);
            assert_eq!(width, 100); // min(3000 - 2900, 200)
            assert_eq!(height, 10); // min(1920 - 1900, 10)
            assert!(replaced);
        }
        other => panic!("expected run, got {:?}", other),
    }
    assert_eq!(s.canvas.width(), 100);
    assert_eq!(s.canvas.height(), 10);
}

#[test]
fn fade_prepare_skips_outside_and_rejects_oversized() {
    let mut s = two_monitor_setter();
    assert_eq!(s.fade_prepare(0, 3000, 0, 10, 10), Ok(FadePrep::Skip));
    assert_eq!(s.fade_prepare(0, 0, 0, 10, 70_000), Err(BgError::ToLargeRgb));
}

#[test]
fn set_verbose_flips_flag() {
    let mut s = two_monitor_setter();
    assert!(!s.verbose);
    s.set_verbose(true);
    assert!(s.verbose);
}
