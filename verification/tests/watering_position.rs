use labino_rust::intensity_config::IntensityConfig;
use labino_rust::watering_position::{WateringPosition, WateringPositionError};

fn position(stepper: i32, servo: u8) -> WateringPosition {
    let curve = IntensityConfig::new(0, 10, 10, 0).unwrap();
    WateringPosition::new(stepper, servo, curve, curve)
}

fn cost(coords: &[i32], path: &[usize]) -> i64 {
    path.windows(2).map(|w| (coords[w[1]] as i64 - coords[w[0]] as i64).abs()).sum()
}

fn brute_force_minimum(coords: &[i32], anchor: usize) -> i64 {
    fn go(coords: &[i32], path: &mut Vec<usize>, used: &mut Vec<bool>, best: &mut i64) {
        if path.len() == coords.len() {
            let c = cost(coords, path);
            if c < *best {
                *best = c;
            }
            return;
        }
        for i in 0..coords.len() {
            if !used[i] {
                used[i] = true;
                path.push(i);
                go(coords, path, used, best);
                path.pop();
                used[i] = false;
            }
        }
    }
    let mut used = vec![false; coords.len()];
    used[anchor] = true;
    let mut best = i64::MAX;
    go(coords, &mut vec![anchor], &mut used, &mut best);
    best
}

fn plan(coords: &[i32], start: i32) -> Result<Vec<usize>, WateringPositionError> {
    let owned: Vec<WateringPosition> = coords.iter().map(|c| position(*c, 90)).collect();
    let refs: Vec<&WateringPosition> = owned.iter().collect();
    WateringPosition::find_minimal_distance_path(&refs, start)
}

#[test]
fn minimal_path_for_three_positions_starting_at_zero() {
    let path = plan(&[0, 50, 10], 0).unwrap();
    assert_eq!(path, vec![0, 2, 1]);
    assert_eq!(cost(&[0, 50, 10], &path), 50);
}

#[test]
fn minimal_path_matches_brute_force_up_to_six_positions() {
    let layouts: Vec<Vec<i32>> = vec![
        vec![7],
        vec![3, -4],
        vec![0, 50, 10],
        vec![10, 0, 50, 20],
        vec![5, 100, -30, 40, 5],
        vec![90, 10, 50, 30, 70, 20],
        vec![-1000, 1000, 0, 500, -500, 250],
        vec![i32::MIN, i32::MAX, 0, 1, -1, 2],
    ];
    for coords in layouts {
        for anchor in 0..coords.len() {
            let start = coords[anchor];
            let first = coords.iter().position(|c| *c == start).unwrap();
            let path = plan(&coords, start).unwrap();
            assert_eq!(path.len(), coords.len());
            assert_eq!(path[0], first);
            let mut seen = path.clone();
            seen.sort();
            assert_eq!(seen, (0..coords.len()).collect::<Vec<usize>>());
            assert_eq!(cost(&coords, &path), brute_force_minimum(&coords, first));
        }
    }
}

#[test]
fn minimal_path_keeps_the_first_of_equally_short_routes() {
    let path = plan(&[0, 10, -10], 0).unwrap();
    assert_eq!(path, vec![0, 1, 2]);
}

#[test]
fn minimal_path_of_a_single_position() {
    assert_eq!(plan(&[42], 42).unwrap(), vec![0]);
}

#[test]
fn minimal_path_starts_at_first_position_with_the_coordinate() {
    let path = plan(&[5, 9, 5], 5).unwrap();
    assert_eq!(path[0], 0);
    assert_eq!(cost(&[5, 9, 5], &path), 4);
}

#[test]
fn minimal_path_fails_on_empty_list() {
    assert_eq!(plan(&[], 0), Err(WateringPositionError::Empty));
}

#[test]
fn minimal_path_fails_when_start_is_not_a_position() {
    assert_eq!(plan(&[0, 50, 10], 7), Err(WateringPositionError::NotFound));
}

#[test]
fn distance_is_absolute_and_does_not_overflow() {
    let a = position(i32::MIN, 1);
    let b = position(i32::MAX, 1);
    assert_eq!(WateringPosition::distance(&a, &b), u32::MAX);
    assert_eq!(WateringPosition::distance(&b, &a), u32::MAX);
    assert_eq!(WateringPosition::distance(&a, &a), 0);
}

#[test]
fn total_distance_sums_the_legs() {
    let owned = vec![position(0, 90), position(50, 90), position(10, 90)];
    let refs: Vec<&WateringPosition> = owned.iter().collect();
    assert_eq!(WateringPosition::total_distance(&refs, &[0, 1, 2]), 90);
    assert_eq!(WateringPosition::total_distance(&refs, &[0, 2, 1]), 50);
    assert_eq!(WateringPosition::total_distance(&refs, &[1]), 0);
    assert_eq!(WateringPosition::total_distance(&refs, &[]), 0);
}

#[test]
fn positions_compare_by_stepper_then_servo() {
    let a = position(10, 20);
    let b = position(10, 30);
    let c = position(11, 1);
    let other_curve = IntensityConfig::new(1, 2, 3, 0).unwrap();
    let a2 = WateringPosition::new(10, 20, other_curve, other_curve);
    assert!(a == a2);
    assert!(a != b);
    assert!(a < b);
    assert!(b < c);
    assert!(c > a);
    assert_eq!(a.partial_cmp(&a2), Some(std::cmp::Ordering::Equal));
}

#[test]
fn shortest_route_takes_the_first_of_equally_short_routes() {
    let owned = vec![position(0, 90), position(10, 90), position(-10, 90)];
    let refs: Vec<&WateringPosition> = owned.iter().collect();
    // from 0: over 10 and -10 it is 30 either way
    assert_eq!(
        WateringPosition::shortest_route(&refs, 0, &vec![vec![1, 2], vec![2, 1]]),
        Some(vec![0, 1, 2])
    );
    assert_eq!(
        WateringPosition::shortest_route(&refs, 0, &vec![vec![2, 1], vec![1, 2]]),
        Some(vec![0, 2, 1])
    );
}

#[test]
fn shortest_route_takes_the_shortest_of_the_given_routes() {
    let owned = vec![position(0, 90), position(50, 90), position(10, 90)];
    let refs: Vec<&WateringPosition> = owned.iter().collect();
    assert_eq!(
        WateringPosition::shortest_route(&refs, 0, &vec![vec![1, 2], vec![2, 1]]),
        Some(vec![0, 2, 1])
    );
    assert_eq!(
        WateringPosition::shortest_route(&refs, 1, &vec![vec![0, 2], vec![2, 0]]),
        Some(vec![1, 2, 0])
    );
    assert_eq!(WateringPosition::shortest_route(&refs, 2, &vec![vec![]]), Some(vec![2]));
    assert_eq!(WateringPosition::shortest_route(&refs, 0, &vec![]), None);
}
