use bg_setter::canvas::Canvas;
use bg_setter::fade::{build_deltas, fade_plan, FadePlan};
use bg_setter::pixel::{rgb_to_zpix, ByteOrder, Rgb, RgbData};

#[test]
fn plan_caps_at_256_frames_from_four_seconds() {
    let p = fade_plan(4000);
    assert_eq!(p.iters, 256);
    assert_eq!(p.tick_ns, 15_625_000);
    let p = fade_plan(60_000);
    assert_eq!(p.iters, 256);
    assert_eq!(p.tick_ns, 234_375_000);
}

#[test]
fn plan_uses_64_frames_per_second_below_four_seconds() {
    let p = fade_plan(1000);
    assert_eq!(p.iters, 64);
    assert_eq!(p.tick_ns, 15_625_000);
    let p = fade_plan(100);
    assert_eq!(p.iters, 6); // round(0.1 s * 64) = 6
    assert_eq!(p.tick_ns, 16_666_666);
    let p = fade_plan(8);
    assert_eq!(p.iters, 1);
    assert_eq!(p.tick_ns, 8_000_000);
}

#[test]
fn total_schedule_within_one_tick_of_request() {
    for &ms in &[8u32, 100, 1000, 2500, 4000, 10_000] {
        let p = fade_plan(ms);
        let total = (p.iters as u64) * p.tick_ns;
        let want = (ms as u64) * 1_000_000;
        assert!(total <= want);
        assert!(want < total + p.tick_ns);
    }
}

#[test]
fn on_schedule_step_sleeps_to_deadline() {
    let p = fade_plan(1000);
    let t = p.tick_ns;
    // first frame, produced instantly: sleep one full tick, counter drops by one
    let (sleep, next) = p.step(p.iters, 0);
    assert_eq!(sleep, t);
    assert_eq!(next, p.iters - 1);
    // mid-fade on schedule: elapsed is exactly the previous deadline
    let i = 10;
    let elapsed = t * ((p.iters - i) as u64);
    let (sleep, next) = p.step(i, elapsed);
    assert_eq!(sleep, t);
    assert_eq!(next, 9);
}

#[test]
fn overrun_step_skips_frames_instead_of_sleeping() {
    // one iteration takes three ticks: the step must drop at least two
    // extra frames on top of the regular decrement, with no sleep
    let p = fade_plan(1000);
    let t = p.tick_ns;
    let i = 10;
    let elapsed = t * ((p.iters - i) as u64) + 3 * t;
    let (sleep, next) = p.step(i, elapsed);
    assert_eq!(sleep, 0);
    assert_eq!(next, i - 3);
}

#[test]
fn overrun_near_zero_clamps_counter() {
    let p = fade_plan(1000);
    let t = p.tick_ns;
    let i = 2;
    let elapsed = t * ((p.iters - i) as u64) + 10 * t;
    let (sleep, next) = p.step(i, elapsed);
    assert_eq!(sleep, 0);
    assert_eq!(next, 0);
}

#[test]
fn deltas_replay_captured_frame_first_and_target_frame_last() {
    // a 1 x 1 fade: captured on-screen pixel (200, 100, 50), target (10, 220, 30)
    let mut c = Canvas::with_dims(24, 32, ByteOrder::LsbFirst, 1, 1);
    c.put(0, 0, rgb_to_zpix(200, 100, 50, ByteOrder::LsbFirst));
    let mut img = RgbData::new(1, 1);
    img.set_pixel(0, 0, Rgb { r: 10, g: 220, b: 30 });
    let dt = build_deltas(&c, &img, 256);
    assert_eq!(dt.denom, 256);
    assert_eq!(dt.entries[0].dr, 190);
    assert_eq!(dt.entries[0].dg, -120);
    assert_eq!(dt.entries[0].db, 20);

    // at the full counter the frame reproduces the captured pixel
    c.compose(&img, Some(&dt), 256);
    assert_eq!(c.get(0, 0), rgb_to_zpix(200, 100, 50, ByteOrder::LsbFirst));

    // at the final counter the frame is within one unit of the target
    c.compose(&img, Some(&dt), 1);
    assert_eq!(c.get(0, 0), rgb_to_zpix(11, 220, 30, ByteOrder::LsbFirst));
}

#[test]
fn plan_struct_fields_are_plain() {
    let p = FadePlan { iters: 2, tick_ns: 1000 };
    let (sleep, next) = p.step(2, 400);
    assert_eq!(sleep, 600);
    assert_eq!(next, 1);
}
