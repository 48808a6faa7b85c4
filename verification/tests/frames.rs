//! Frame rates.

use std::time::Duration;

use vellum_app::frames::{FrameTimer, Rate, FPS_WINDOW};

fn record(timer: &mut FrameTimer, seconds: f64) {
    timer.record(u64::try_from(Duration::from_secs_f64(seconds).as_nanos()).unwrap());
}

fn per_second(rate: Option<Rate>) -> f64 {
    rate.map_or(0.0, |rate| rate.frames as f64 / (rate.nanos as f64 / 1e9))
}

#[test]
fn fps_is_counted_over_a_window_not_derived_from_one_frame() {
    let mut timer = FrameTimer::new();
    for _ in 0..120 {
        record(&mut timer, 1.0 / 120.0);
    }
    let fps = per_second(timer.fps());
    assert!((fps - 120.0).abs() < 1.0, "got {fps}");
    assert_eq!(timer.total_frames(), 120);
    assert!((per_second(timer.average_fps()) - 120.0).abs() < 0.001);
}

#[test]
fn uneven_frames_report_the_counted_rate() {
    let mut timer = FrameTimer::new();
    let mut elapsed = 0.0;
    let mut frames = 0;
    while elapsed < 1.0 {
        let dt = if frames % 2 == 0 { 0.004 } else { 0.020 };
        record(&mut timer, dt);
        elapsed += dt;
        frames += 1;
    }
    let expected = frames as f64 / elapsed;
    let average = per_second(timer.average_fps());
    assert!((average - expected).abs() < 0.001, "average {average} vs expected {expected}");
}

#[test]
fn a_fresh_timer_reports_zero_rather_than_nan() {
    let timer = FrameTimer::new();
    assert_eq!(per_second(timer.fps()), 0.0);
    assert_eq!(per_second(timer.average_fps()), 0.0);
    assert_eq!(timer.total_frames(), 0);
}

#[test]
fn a_window_closes_with_the_frame_that_fills_it() {
    let mut timer = FrameTimer::new();
    for _ in 0..4 {
        timer.record(124_999_999);
        assert_eq!(timer.fps(), None);
    }
    timer.record(10);
    assert_eq!(timer.fps(), Some(Rate { frames: 5, nanos: FPS_WINDOW + 6 }));
    assert_eq!(timer.window, Rate { frames: 0, nanos: 0 });
    timer.record(u64::MAX);
    assert_eq!(timer.fps(), Some(Rate { frames: 1, nanos: u128::from(u64::MAX) }));
    assert_eq!(timer.total_frames(), 6);
}
