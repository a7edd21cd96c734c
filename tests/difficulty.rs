use spike_game::difficulty::{
    accrued_score, spawn_due, spawn_interval, spike_speed, BASE_SPEED, MAX_SPEED_BOOST,
    MIN_INTERVAL,
};
use spike_game::units::UNIT;

const FRAME: u64 = 1_000_000;

#[test]
fn spawn_interval_starts_at_hundred_ticks() {
    assert_eq!(spawn_interval(0), 100_000_000);
}

#[test]
fn spawn_interval_falls_with_score() {
    // 100 - 1000 / 50 = 80 ticks.
    assert_eq!(spawn_interval(1000 * FRAME), 80_000_000);
    // 100 - 25 / 50 = 99.5 ticks.
    assert_eq!(spawn_interval(25 * FRAME), 99_500_000);
}

#[test]
fn spawn_interval_floor() {
    assert_eq!(spawn_interval(3500 * FRAME), 30_000_000);
    assert_eq!(spawn_interval(10_000 * FRAME), MIN_INTERVAL);
    assert_eq!(spawn_interval(u64::MAX), MIN_INTERVAL);
}

#[test]
fn spawn_interval_non_increasing() {
    let mut last = spawn_interval(0);
    let mut score: u64 = 0;
    while score < 5000 * FRAME {
        score += 7 * FRAME + 123;
        let next = spawn_interval(score);
        assert!(next <= last);
        assert!(next >= MIN_INTERVAL);
        last = next;
    }
}

#[test]
fn spike_speed_ramps_and_caps() {
    assert_eq!(spike_speed(0), 3 * UNIT);
    // 3 + 2500 / 1000 = 5.5 units per tick.
    assert_eq!(spike_speed(2500 * FRAME), 5 * UNIT + UNIT / 2);
    assert_eq!(spike_speed(5000 * FRAME), 8 * UNIT);
    assert_eq!(spike_speed(9000 * FRAME), BASE_SPEED + MAX_SPEED_BOOST);
    let mut last = spike_speed(0);
    let mut score: u64 = 0;
    while score < 7000 * FRAME {
        score += 13 * FRAME;
        let next = spike_speed(score);
        assert!(next >= last);
        assert!(next <= BASE_SPEED + MAX_SPEED_BOOST);
        last = next;
    }
}

#[test]
fn spawn_due_compares_ticks_with_interval() {
    assert!(!spawn_due(99, 0));
    assert!(spawn_due(100, 0));
    // Interval 99.5 ticks: 99 is not enough, 100 is.
    assert!(!spawn_due(99, 25 * FRAME));
    assert!(spawn_due(100, 25 * FRAME));
    assert!(spawn_due(30, u64::MAX));
    assert!(!spawn_due(29, u64::MAX));
}

#[test]
fn score_accrues_sixty_frames_per_second() {
    assert_eq!(accrued_score(0, 1_000_000), 60 * FRAME);
    assert_eq!(accrued_score(5, 16_667), 5 + 16_667 * 60);
    assert_eq!(accrued_score(7, 0), 7);
    assert_eq!(accrued_score(u64::MAX - 10, 1), u64::MAX);
}
