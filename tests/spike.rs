use spike_game::units::UNIT;
use spike_game::Spike;

#[test]
fn spike_new_keeps_fields() {
    let s = Spike::new(800 * UNIT, 370 * UNIT, 20 * UNIT, 30 * UNIT, 4 * UNIT);
    assert_eq!(s.position(), vec![800 * UNIT, 370 * UNIT]);
    assert_eq!(s.get_width(), 20 * UNIT);
    assert_eq!(s.get_height(), 30 * UNIT);
    assert_eq!(s.speed, 4 * UNIT);
}

#[test]
fn spike_update_moves_left_by_speed() {
    let mut s = Spike::new(800 * UNIT, 370 * UNIT, 20 * UNIT, 30 * UNIT, 5 * UNIT);
    s.update();
    assert_eq!(s.position(), vec![795 * UNIT, 370 * UNIT]);
    s.update();
    assert_eq!(s.position(), vec![790 * UNIT, 370 * UNIT]);
}

#[test]
fn spike_leaves_sight_after_width_plus_distance() {
    let width = 20 * UNIT;
    let mut s = Spike::new(800 * UNIT, 380 * UNIT, width, 20 * UNIT, 5 * UNIT);
    // (800 + 20) / 5 = 164 ticks.
    for _ in 0..163 {
        s.update();
        assert!(s.is_visible());
    }
    s.update();
    assert_eq!(s.position()[0], -20 * UNIT);
    assert!(!s.is_visible());
}

#[test]
fn spike_touching_left_edge_is_invisible() {
    let s = Spike::new(-30 * UNIT, 380 * UNIT, 30 * UNIT, 20 * UNIT, 3 * UNIT);
    assert!(!s.is_visible());
    let t = Spike::new(-30 * UNIT + 1, 380 * UNIT, 30 * UNIT, 20 * UNIT, 3 * UNIT);
    assert!(t.is_visible());
}
