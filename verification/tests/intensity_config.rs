use labino_rust::intensity_config::{IntensityConfig, IntensityConfigError};

#[test]
fn eval_holds_initial_value_before_the_ramp() {
    let c = IntensityConfig::new(5, 25, 10, 4).unwrap();
    assert_eq!(c.eval(-3), 5);
    assert_eq!(c.eval(0), 5);
    assert_eq!(c.eval(3), 5);
}

#[test]
fn eval_holds_final_value_from_n_steps_on() {
    let c = IntensityConfig::new(5, 25, 10, 4).unwrap();
    assert_eq!(c.eval(10), 25);
    assert_eq!(c.eval(1000), 25);
    assert_eq!(c.eval(i32::MAX), 25);
}

#[test]
fn eval_interpolates_and_rounds_to_nearest() {
    let c = IntensityConfig::new(0, 10, 10, 0).unwrap();
    for t in 0..10 {
        assert_eq!(c.eval(t), t);
    }
    let d = IntensityConfig::new(0, 10, 4, 0).unwrap();
    assert_eq!(d.eval(0), 0);
    assert_eq!(d.eval(1), 3);
    assert_eq!(d.eval(2), 5);
    assert_eq!(d.eval(3), 8);
    let e = IntensityConfig::new(100, 103, 6, 2).unwrap();
    assert_eq!(e.eval(2), 100);
    assert_eq!(e.eval(3), 101);
    assert_eq!(e.eval(4), 102);
    assert_eq!(e.eval(5), 102);
    assert_eq!(e.eval(6), 103);
}

#[test]
fn eval_is_monotonic_over_the_ramp() {
    let c = IntensityConfig::new(-7, 1000, 37, 5).unwrap();
    let mut prev = c.eval(-1);
    for t in 0..50 {
        let v = c.eval(t);
        assert!(prev <= v);
        prev = v;
    }
}

#[test]
fn eval_survives_extreme_bounds() {
    let c = IntensityConfig::new(i32::MIN, i32::MAX, u32::MAX, 0).unwrap();
    assert_eq!(c.eval(-1), i32::MIN);
    assert_eq!(c.eval(0), i32::MIN);
    assert!(c.eval(i32::MAX) <= i32::MAX);
    assert!(c.eval(i32::MAX) >= -2);
}

#[test]
fn new_rejects_inverted_values() {
    match IntensityConfig::new(10, 0, 10, 0) {
        Err(IntensityConfigError::NewError(m)) => {
            assert_eq!(m, "Initial value greater than final value")
        }
        Ok(_) => panic!("inverted bounds were accepted"),
    }
}

#[test]
fn new_rejects_flat_part_longer_than_curve() {
    match IntensityConfig::new(0, 10, 3, 4) {
        Err(IntensityConfigError::NewError(m)) => {
            assert_eq!(m, "Total steps smaller than steps not incrementing")
        }
        Ok(_) => panic!("an overlong flat part was accepted"),
    }
}

#[test]
fn new_accepts_equal_bounds() {
    let c = IntensityConfig::new(3, 3, 5, 5).unwrap();
    assert_eq!(c.eval(4), 3);
    assert_eq!(c.eval(5), 3);
}

#[test]
fn curve_gives_its_bounds_back() {
    let c = IntensityConfig::new(-3, 25, 10, 4).unwrap();
    assert_eq!(c.initial_value(), -3);
    assert_eq!(c.final_value(), 25);
    assert_eq!(c.n_steps(), 10);
    assert_eq!(c.n_steps_not_incrementing(), 4);
}
