use pomonote::models::timer::Timer;
use std::time::{Duration, Instant, SystemTime, UNIX_EPOCH};

fn wait(ms: u64) {
    let start = Instant::now();
    while start.elapsed() < Duration::from_millis(ms) {
        std::hint::spin_loop();
    }
}

fn wall_now() -> u64 {
    SystemTime::now().duration_since(UNIX_EPOCH).unwrap().as_secs()
}

#[test]
fn test_timer_new() {
    let timer = Timer::new();
    assert_eq!(timer.remaining_seconds(), 1500);
    assert!(!timer.is_finished());
    assert_eq!(timer.output(), "25:00");
}

#[test]
fn test_timer_start() {
    let mut timer = Timer::new();
    timer.start();
    wait(100);
    assert!(timer.remaining_seconds() <= 1500);
    assert!(!timer.is_finished());
}

#[test]
fn test_timer_is_finished() {
    let mut timer = Timer::new();
    timer.start();
    wait(2000);
    assert!(timer.remaining_seconds() < 1500);
    assert!(!timer.is_finished());
}

#[test]
fn test_timer_output_formatting() {
    let timer = Timer::new();
    assert_eq!(timer.output(), "25:00");

    let mut timer = Timer::new();
    timer.start();
    wait(1000);
    let output = timer.output();
    assert!(output.starts_with("24:"));
}

#[test]
fn test_timer_remaining_seconds_decreases() {
    let mut timer = Timer::new();
    let initial = timer.remaining_seconds();
    timer.start();
    wait(1500);
    let after = timer.remaining_seconds();
    assert!(after < initial);
}

#[test]
fn test_timer_output_across_lifecycle() {
    let mut timer = Timer::new();
    assert_eq!(timer.output(), "25:00");
    timer.start();
    wait(1000);
    let output = timer.output();
    assert!(output.starts_with("24:"));
    assert!(!timer.is_finished());
}

#[test]
fn clock_text_is_zero_padded() {
    assert_eq!(Timer::format_clock(0), "00:00");
    assert_eq!(Timer::format_clock(9), "00:09");
    assert_eq!(Timer::format_clock(59), "00:59");
    assert_eq!(Timer::format_clock(61), "01:01");
    assert_eq!(Timer::format_clock(600), "10:00");
    assert_eq!(Timer::format_clock(1499), "24:59");
    assert_eq!(Timer::format_clock(1500), "25:00");
    assert_eq!(Timer::format_clock(6000), "100:00");
}

#[test]
fn clock_text_shape_for_every_focus_value() {
    for secs in 0..=1500u64 {
        let text = Timer::format_clock(secs);
        let b = text.as_bytes();
        assert_eq!(b.len(), 5);
        assert_eq!(b[2], b':');
        let m = ((b[0] - b'0') * 10 + (b[1] - b'0')) as u64;
        let s = ((b[3] - b'0') * 10 + (b[4] - b'0')) as u64;
        assert_eq!(m * 60 + s, secs);
    }
}

#[test]
fn remaining_at_prefers_monotonic_reading() {
    let mut running = Timer::new();
    running.start();
    assert_eq!(running.remaining_at(100, 0), 1400);
    assert_eq!(running.remaining_at(1500, 0), 0);
    assert_eq!(running.remaining_at(99999, 0), 0);
    let fresh = Timer::new();
    assert_eq!(fresh.remaining_at(100, 100), 1500);
}

#[test]
fn remaining_at_falls_back_to_wall_clock() {
    let saved = Timer::from_saved(Some(1_000));
    assert_eq!(saved.remaining_at(0, 1_060), 1440);
    assert_eq!(saved.remaining_at(0, 900), 1500);
    assert_eq!(saved.remaining_at(0, 5_000), 0);
    assert!(!saved.is_finished() || saved.remaining_seconds() == 0);
}

#[test]
fn saved_timer_long_past_is_finished() {
    let saved = Timer::from_saved(Some(1));
    assert_eq!(saved.remaining_seconds(), 0);
    assert!(saved.is_finished());
    assert_eq!(saved.output(), "00:00");
}

#[test]
fn reload_round_trip_keeps_remaining_within_gap() {
    let mut timer = Timer::new();
    timer.start();
    let before = timer.remaining_seconds();
    let ts = timer.start_timestamp();
    assert!(ts.is_some());
    let mut reloaded = Timer::from_saved(ts);
    let wall_before = wall_now();
    reloaded.restore_instant();
    assert_eq!(reloaded.start_timestamp(), ts);
    assert_eq!(reloaded.duration(), 1500);
    let after = reloaded.remaining_seconds();
    let gap = wall_now() - wall_before + 2;
    assert!(after <= before + 2);
    assert!(before <= after + gap);
}

#[test]
fn restore_carries_time_already_spent() {
    let ts = wall_now() - 100;
    let mut reloaded = Timer::from_saved(Some(ts));
    reloaded.restore_instant();
    let left = reloaded.remaining_seconds();
    assert!(left >= 1398 && left <= 1401);
}

#[test]
fn restore_leaves_unstarted_timer() {
    let mut timer = Timer::from_saved(None);
    timer.restore_instant();
    assert_eq!(timer.remaining_seconds(), 1500);
    assert_eq!(timer.start_timestamp(), None);
}

#[test]
fn restore_at_sets_reference_back_by_time_spent() {
    let now = wall_now();
    let mut reloaded = Timer::from_saved(Some(now - 300));
    reloaded.restore_instant_at(now);
    let left = reloaded.remaining_seconds();
    assert!(left >= 1199 && left <= 1200);
    assert_eq!(reloaded.seconds_spent(now), 300);
    assert_eq!(reloaded.seconds_spent(now - 400), 0);
    assert_eq!(Timer::new().seconds_spent(now), 0);
}

#[test]
fn every_timer_has_focus_length() {
    assert_eq!(Timer::new().duration(), 1500);
    assert_eq!(Timer::from_saved(Some(5)).duration(), 1500);
    assert_eq!(Timer::default().duration(), 1500);
}
