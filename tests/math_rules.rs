use kinematic_controller::math::{approach_velocity, approach_zero};

const DT: i64 = 10_417;

#[test]
fn zero_acceleration_keeps_velocity() {
    for v in [-25_000_000i64, -3_000_000, -1, 0, 1, 2_500_000, 7_000_000] {
        for dt in [0i64, 1, DT, 1_000_000, 50_000_000] {
            for t in [-20_000_000i64, -1, 0, 4_000_000] {
                assert_eq!(approach_velocity(v, 0, dt, t), v);
            }
        }
    }
}

#[test]
fn undamped_step_below_terminal() {
    assert_eq!(approach_velocity(0, 5_000_000, 10_000, 3_000_000), 50_000);
}

#[test]
fn gravity_step_rounds_toward_zero() {
    assert_eq!(approach_velocity(0, -19_620_000, DT, -20_000_000), -204_381);
}

#[test]
fn damping_stops_at_terminal() {
    assert_eq!(approach_velocity(2_990_000, 5_000_000, 10_000, 3_000_000), 3_000_000);
}

#[test]
fn damping_above_terminal_slows_down() {
    assert_eq!(approach_velocity(4_000_000, 5_000_000, 10_000, 3_000_000), 3_982_500);
}

#[test]
fn wrong_side_snaps_to_terminal() {
    assert_eq!(approach_velocity(-1_000_000, 500_000_000, 10_000, 3_000_000), 3_000_000);
    assert_eq!(approach_velocity(1_000_000, -500_000_000, 10_000, -3_000_000), -3_000_000);
}

#[test]
fn repeated_gravity_never_exceeds_terminal() {
    let mut v = 0i64;
    for _ in 0..5_000 {
        v = approach_velocity(v, -19_620_000, DT, -20_000_000);
        assert!(v >= -20_000_000 && v <= 0);
    }
    assert!(v < -19_900_000);
}

#[test]
fn repeated_input_never_exceeds_terminal() {
    let mut v = 0i64;
    for _ in 0..2_000 {
        v = approach_velocity(v, 500_000_000, DT, 3_000_000);
        assert!(v >= 0 && v <= 3_000_000);
    }
    assert_eq!(v, 3_000_000);
}

#[test]
fn braking_step_is_rounded_up() {
    assert_eq!(approach_zero(3_000_000, DT, 3_000_000, 500_000), 2_937_498);
    assert_eq!(approach_zero(-3_000_000, DT, 3_000_000, 500_000), -2_937_498);
}

#[test]
fn braking_never_crosses_zero() {
    assert_eq!(approach_zero(10_000, DT, 3_000_000, 500_000), 0);
    assert_eq!(approach_zero(-10_000, DT, 3_000_000, 500_000), 0);
    assert_eq!(approach_zero(0, DT, 3_000_000, 500_000), 0);
}

#[test]
fn braking_reaches_zero_within_stop_time() {
    let steps = (500_000 + DT - 1) / DT;
    assert_eq!(steps, 48);
    let mut v = 3_000_000i64;
    for k in 0..steps {
        v = approach_zero(v, DT, 3_000_000, 500_000);
        assert!(v >= 0);
        if k + 1 < steps {
            assert!(v > 0);
        }
    }
    assert_eq!(v, 0);
}
