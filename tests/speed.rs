use breakout::config::{BALL_SPEED_MAX, BALL_START_SPEED};
use breakout::speed::{floor_sqrt_u128, govern, norm_sq_u64, restart_speed};
use breakout::vector::Vector;

fn in_band(v: Vector) -> bool {
    let m = (v.x as i128) * (v.x as i128) + (v.y as i128) * (v.y as i128);
    let lo = (BALL_START_SPEED as i128) * (BALL_START_SPEED as i128);
    let hi = (BALL_SPEED_MAX as i128) * (BALL_SPEED_MAX as i128);
    lo <= m && m <= hi
}

#[test]
fn floor_sqrt_exact_and_between_squares() {
    assert_eq!(floor_sqrt_u128(0), 0);
    assert_eq!(floor_sqrt_u128(1), 1);
    assert_eq!(floor_sqrt_u128(15), 3);
    assert_eq!(floor_sqrt_u128(16), 4);
    assert_eq!(floor_sqrt_u128(17), 4);
    assert_eq!(floor_sqrt_u128(2_000_000_000_000_000_000), 1_414_213_562);
    assert_eq!(floor_sqrt_u128(u128::MAX), 18_446_744_073_709_551_615);
}

#[test]
fn norm_of_a_vector() {
    assert_eq!(norm_sq_u64(Vector::new(3, -4)), 25);
    assert_eq!(norm_sq_u64(Vector::new(-1_000_000_000, 1_000_000_000)), 2_000_000_000_000_000_000);
}

#[test]
fn scale_rounds_toward_zero() {
    let v = Vector::new(-15, 7).scale(9, 10);
    assert_eq!(v, Vector::new(-13, 6));
    let w = Vector::new(200_000, -200_000).scale(11, 10);
    assert_eq!(w, Vector::new(220_000, -220_000));
    // a nonzero component never rounds to zero
    assert_eq!(Vector::new(-1, 1).scale(9, 10), Vector::new(-1, 1));
    assert_eq!(Vector::new(0, 5).scale(9, 10), Vector::new(0, 4));
}

#[test]
fn governor_keeps_a_legal_velocity() {
    let v = Vector::new(300_000, 400_000);
    assert_eq!(govern(v), v);
    let lowest = Vector::new(BALL_START_SPEED, 0);
    assert_eq!(govern(lowest), lowest);
    let highest = Vector::new(0, -BALL_SPEED_MAX);
    assert_eq!(govern(highest), highest);
}

#[test]
fn governor_shrinks_a_fast_ball_to_the_maximum() {
    assert_eq!(govern(Vector::new(2_000_000, 0)), Vector::new(1_000_000, 0));
    assert_eq!(govern(Vector::new(3_000_000, 4_000_000)), Vector::new(600_000, 800_000));
    let r = govern(Vector::new(770_000, -770_000));
    assert_eq!(r, Vector::new(707_106, -707_106));
    assert!(in_band(r));
}

#[test]
fn governor_stretches_a_slow_ball_to_the_start_speed() {
    assert_eq!(govern(Vector::new(100_000, 0)), Vector::new(200_000, 0));
    let r = govern(Vector::new(-150_000, 50_000));
    assert_eq!(r, Vector::new(-189_737, 63_246));
    assert!(in_band(r));
    assert_eq!(govern(Vector::new(3, -4)), Vector::new(120_000, -160_000));
}

#[test]
fn governor_sends_a_ball_with_no_direction_up_at_start_speed() {
    assert_eq!(govern(Vector::new(0, 0)), Vector::new(0, BALL_START_SPEED));
}

#[test]
fn governor_keeps_the_sign_of_tiny_components() {
    assert_eq!(govern(Vector::new(1_000_000, -1)), Vector::new(999_999, -1));
    assert_eq!(govern(Vector::new(1_100_000, 1)), Vector::new(999_999, 1));
    assert_eq!(govern(Vector::new(-1, 5_000_000)), Vector::new(-1, 999_999));
}

#[test]
fn governor_brings_slow_ball_close_to_start_speed() {
    let limit = ((BALL_START_SPEED + 2) as i128) * ((BALL_START_SPEED + 2) as i128);
    for (x, y) in [(1, 1), (-1_000, 1_000), (3, -4), (-7, 2), (150_000, 100_000), (1, 0)] {
        let r = govern(Vector::new(x, y));
        assert!(in_band(r));
        let m = (r.x as i128) * (r.x as i128) + (r.y as i128) * (r.y as i128);
        assert!(m <= limit, "({}, {})", x, y);
        assert!((r.x as i128) * (x as i128) > 0 || x == 0);
        assert!((r.y as i128) * (y as i128) > 0 || y == 0);
    }
    assert_eq!(govern(Vector::new(1, 1)), Vector::new(141_422, 141_422));
}

#[test]
fn governor_output_always_in_band() {
    let samples = [
        (1, 0),
        (0, -1),
        (-1_000, 1_000),
        (199_999, 0),
        (1_000_001, 0),
        (999_999_999, -999_999_999),
        (-123_456_789, 7),
        (707_107, 707_107),
    ];
    for (x, y) in samples {
        assert!(in_band(govern(Vector::new(x, y))), "({}, {})", x, y);
    }
}

#[test]
fn restart_speed_brings_slow_ball_to_start_speed() {
    assert_eq!(restart_speed(Vector::new(-1_000, 1_000)), Vector::new(-141_422, 141_422));
    assert_eq!(restart_speed(Vector::new(0, 0)), Vector::new(0, BALL_START_SPEED));
}
