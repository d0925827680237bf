use labino_rust::watering_schedule::{
    WateringSchedule, WateringScheduleError, WateringScheduleStep, GRAM,
};

fn step(weight_g: i64, dwell_ms: u64, threshold_g: i64, band_g: Option<i64>) -> WateringScheduleStep {
    WateringScheduleStep::new(weight_g * GRAM, dwell_ms, threshold_g * GRAM, band_g.map(|b| b * GRAM))
        .unwrap()
}

#[test]
fn step_keeps_its_values() {
    let s = WateringScheduleStep::new(100_000, 60_000, 10_000, Some(10_000)).unwrap();
    assert_eq!(s.weight, 100_000);
    assert_eq!(s.time, 60_000);
    assert_eq!(s.weight_treshold, 10_000);
    assert_eq!(s.max_weight_difference, Some(10_000));
}

#[test]
fn step_rejects_negative_threshold() {
    assert!(matches!(
        WateringScheduleStep::new(100_000, 0, -1, None),
        Err(WateringScheduleError::CreationError(_))
    ));
}

#[test]
fn step_rejects_negative_band() {
    assert!(matches!(
        WateringScheduleStep::new(100_000, 0, 0, Some(-1)),
        Err(WateringScheduleError::CreationError(_))
    ));
}

#[test]
fn step_rejects_band_that_the_threshold_makes_unreachable() {
    // threshold - 1 g >= band: refused; threshold - 1 g < band: accepted
    assert!(WateringScheduleStep::new(0, 0, 11_000, Some(10_000)).is_err());
    assert!(WateringScheduleStep::new(0, 0, 10_999, Some(10_000)).is_ok());
    assert!(WateringScheduleStep::new(0, 0, 10_000, Some(10_000)).is_ok());
    assert!(WateringScheduleStep::new(0, 0, 1_000, Some(0)).is_err());
    assert!(WateringScheduleStep::new(0, 0, 999, Some(0)).is_ok());
}

#[test]
fn null_schedule_is_always_in_goal_and_never_waters() {
    for s in [WateringSchedule::new(None, true, 0), WateringSchedule::new(Some(vec![]), false, 5)] {
        assert!(s.null_schedule());
        assert_eq!(s.n_steps(), 0);
        assert_eq!(s.current_goal(), None);
        for w in [i64::MIN, -1, 0, 1, 80_000, i64::MAX] {
            assert!(s.in_goal(w));
            assert!(!s.should_water(w));
        }
    }
}

#[test]
fn null_schedule_ignores_updates() {
    let mut s = WateringSchedule::new(None, true, 100);
    assert!(s.update(5, 0).is_ok());
    assert_eq!(s.curr_step(), 0);
    assert_eq!(s.n_cycles(), 0);
    assert_eq!(s.last_steps_weight(), None);
}

#[test]
fn goal_band_decides_in_goal() {
    let s = WateringSchedule::new(Some(vec![step(100, 1000, 5, Some(10))]), true, 0);
    assert!(!s.in_goal(89_999));
    assert!(s.in_goal(90_000));
    assert!(s.in_goal(100_000));
    assert!(s.in_goal(110_000));
    assert!(!s.in_goal(110_001));
    assert!(s.should_water(89_999));
    assert!(!s.should_water(90_000));
    assert!(!s.should_water(110_001));
    assert_eq!(s.current_goal(), Some(100_000));
}

#[test]
fn goal_band_survives_extreme_weights() {
    let s = WateringSchedule::new(
        Some(vec![WateringScheduleStep::new(i64::MAX, 0, 0, Some(i64::MAX)).unwrap()]),
        true,
        0,
    );
    assert!(s.in_goal(0));
    assert!(s.in_goal(i64::MAX));
    assert!(!s.in_goal(-1));
}

#[test]
fn without_band_and_history_nothing_is_in_goal() {
    let s = WateringSchedule::new(Some(vec![step(100, 1000, 10, None)]), true, 0);
    assert!(!s.in_goal(100_000));
    assert!(!s.in_goal(500_000));
    assert!(s.should_water(80_000));
    assert!(!s.should_water(120_000));
}

#[test]
fn rising_target_is_reached_from_below() {
    let mut s = WateringSchedule::new(Some(vec![step(100, 1000, 10, None)]), true, 0);
    s.update(80_000, 10).unwrap();
    assert_eq!(s.last_steps_weight(), Some(80_000));
    assert_eq!(s.curr_step(), 0);
    assert!(!s.in_goal(89_999));
    assert!(s.in_goal(90_000));
    assert!(s.in_goal(150_000));
    assert!(s.should_water(89_999));
    assert!(!s.should_water(90_000));
}

#[test]
fn falling_target_is_reached_from_above() {
    let mut s = WateringSchedule::new(Some(vec![step(100, 1000, 10, None)]), true, 0);
    s.update(120_000, 10).unwrap();
    assert!(!s.in_goal(120_000));
    assert!(!s.in_goal(90_001));
    assert!(s.in_goal(90_000));
    assert!(s.in_goal(10_000));
    // above the target: not in goal, but nothing to water either
    assert!(!s.should_water(120_000));
    // between floor and target: not in goal, and below the target
    assert!(s.should_water(95_000));
}

#[test]
fn equal_target_is_trivially_satisfied() {
    let mut s = WateringSchedule::new(Some(vec![step(100, 1000, 10, None)]), true, 0);
    s.update(100_000, 10).unwrap();
    assert!(s.in_goal(0));
    assert!(s.in_goal(100_000));
    assert!(!s.should_water(0));
}

#[test]
fn update_advances_only_after_the_dwell_time() {
    let mut s = WateringSchedule::new(
        Some(vec![step(100, 1000, 10, None), step(200, 500, 10, None)]),
        false,
        1_000,
    );
    s.update(80_000, 1_500).unwrap();
    assert_eq!(s.curr_step(), 0);
    s.update(85_000, 2_000).unwrap();
    assert_eq!(s.curr_step(), 0);
    assert_eq!(s.last_steps_weight(), Some(80_000));
    s.update(95_000, 2_001).unwrap();
    assert_eq!(s.curr_step(), 1);
    assert_eq!(s.last_steps_weight(), Some(95_000));
    assert_eq!(s.last_step_init_time(), 2_001);
    assert_eq!(s.current_goal(), Some(200_000));
    assert_eq!(s.n_cycles(), 0);
}

#[test]
fn non_cyclic_schedule_stays_on_its_last_step() {
    let mut s = WateringSchedule::new(
        Some(vec![step(100, 10, 10, None), step(200, 10, 10, None)]),
        false,
        0,
    );
    s.update(50_000, 11).unwrap();
    assert_eq!(s.curr_step(), 1);
    s.update(250_000, 22).unwrap();
    assert_eq!(s.curr_step(), 1);
    assert_eq!(s.n_cycles(), 1);
    assert_eq!(s.last_steps_weight(), Some(250_000));
    // the run is over: the target is kept from below although the last weight lay above
    assert!(s.in_goal(190_000));
    assert!(!s.in_goal(189_999));
    assert!(s.should_water(189_999));
    s.update(250_000, 40).unwrap();
    assert_eq!(s.curr_step(), 1);
    assert_eq!(s.n_cycles(), 1);
}

#[test]
fn cyclic_schedule_wraps_and_counts_cycles() {
    let mut s = WateringSchedule::new(
        Some(vec![step(100, 10, 10, None), step(200, 10, 10, None)]),
        true,
        0,
    );
    s.update(1, 11).unwrap();
    assert_eq!((s.curr_step(), s.n_cycles()), (1, 0));
    s.update(2, 22).unwrap();
    assert_eq!((s.curr_step(), s.n_cycles()), (0, 1));
    s.update(3, 33).unwrap();
    assert_eq!((s.curr_step(), s.n_cycles()), (1, 1));
    s.update(4, 44).unwrap();
    assert_eq!((s.curr_step(), s.n_cycles()), (0, 2));
    assert!(s.cyclic());
}

#[test]
fn update_fails_when_the_clock_runs_backwards() {
    let mut s = WateringSchedule::new(Some(vec![step(100, 10, 10, None)]), true, 1_000);
    assert!(matches!(s.update(5, 999), Err(WateringScheduleError::TimeError)));
    assert_eq!(s.curr_step(), 0);
    assert_eq!(s.last_steps_weight(), None);
    assert!(s.update(5, 1_000).is_ok());
}

#[test]
fn restore_rebuilds_a_schedule_and_checks_the_cursor() {
    let steps = vec![step(100, 10, 10, None), step(200, 10, 10, Some(20))];
    let s = WateringSchedule::restore(steps.clone(), true, 1, 77, Some(5), 3).unwrap();
    assert_eq!(s.curr_step(), 1);
    assert_eq!(s.last_step_init_time(), 77);
    assert_eq!(s.last_steps_weight(), Some(5));
    assert_eq!(s.n_cycles(), 3);
    assert_eq!(s.steps().len(), 2);
    assert_eq!(s.current_goal(), Some(200_000));
    assert!(WateringSchedule::restore(steps, true, 2, 0, None, 0).is_none());
    assert!(WateringSchedule::restore(vec![], true, 1, 0, None, 0).is_none());
    assert!(WateringSchedule::restore(vec![], true, 0, 0, None, 0).is_some());
}

#[test]
fn clone_keeps_the_state() {
    let mut s = WateringSchedule::new(
        Some(vec![step(100, 10, 10, None), step(200, 10, 10, None)]),
        true,
        0,
    );
    s.update(1, 11).unwrap();
    let c = s.clone();
    assert_eq!(c.curr_step(), s.curr_step());
    assert_eq!(c.n_cycles(), s.n_cycles());
    assert_eq!(c.last_steps_weight(), s.last_steps_weight());
    assert_eq!(c.last_step_init_time(), s.last_step_init_time());
    assert_eq!(c.steps().len(), 2);
}
