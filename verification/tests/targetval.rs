use vstutils::targetval::{Rate, TargetVal};
use vstutils::FIXED_ONE;

#[test]
fn absolute_rate_reaches_target_in_ceil_steps() {
    // Distance 100 at step 30: exactly ceil(100 / 30) = 4 advances.
    let mut val = TargetVal::new(Rate::Absolute(30), Rate::Absolute(30), 0);
    val.set_target(100);

    let mut steps: i64 = 0;
    while *val.get_value() != *val.get_target() {
        val.advance();
        steps += 1;
        assert!(*val.get_value() <= 100);
        assert!(steps <= 4);
    }
    assert_eq!(steps, 4);
    assert_eq!(*val.get_value(), 100);

    // Once at the target it stays there.
    val.advance();
    assert_eq!(*val.get_value(), 100);
}

#[test]
fn absolute_rate_clamps_at_target() {
    let mut val = TargetVal::new(Rate::Absolute(1000), Rate::Absolute(1000), 0);
    val.set_target(300);
    val.advance();
    assert_eq!(*val.get_value(), 300);
}

#[test]
fn relative_rate_approaches_without_overshoot() {
    // Half the remaining distance per step.
    let half = FIXED_ONE / 2;
    let mut val = TargetVal::new(Rate::Relative(half), Rate::Relative(half), 0);
    val.set_target(1000);

    let mut previous_distance: i64 = 1000;
    for _ in 0..20 {
        val.advance();
        let distance = 1000 - *val.get_value();
        assert!(distance >= 0);
        assert!(distance < previous_distance || distance == 0 || previous_distance == 1);
        previous_distance = distance;
    }
    // At distance one the half step truncates to zero, so the value
    // parks one unit short of the target and never passes it.
    assert_eq!(*val.get_value(), 999);
}

#[test]
fn decreasing_values_use_the_decrement_rate() {
    let mut val = TargetVal::new(Rate::Absolute(1), Rate::Absolute(25), 100);
    val.set_target(0);
    val.advance();
    assert_eq!(*val.get_value(), 75);
    val.advance();
    val.advance();
    val.advance();
    assert_eq!(*val.get_value(), 0);
}

#[test]
fn settled_value_does_not_move() {
    let mut val = TargetVal::new(Rate::Absolute(5), Rate::Absolute(5), 42);
    val.advance();
    assert_eq!(*val.get_value(), 42);
    assert_eq!(*val.get_target(), 42);
}

#[test]
fn rates_can_be_swapped_mid_flight() {
    let mut val = TargetVal::new(Rate::Absolute(10), Rate::Absolute(10), 0);
    val.set_target(100);
    val.advance();
    assert_eq!(*val.get_value(), 10);
    val.set_inc_rate(Rate::Absolute(50));
    val.advance();
    assert_eq!(*val.get_value(), 60);
}
