use labino_rust::balanzas::{
    calibrated_weight, channel_stats, mean_and_stdev, parse_known_weights, slope_for, transpose,
    Balanzas, BalanzasError, Slope,
};
use labino_rust::rounding::{div_round_exec, isqrt};
use labino_rust::serial_manager::SerialManagerError;

type Read = Result<Vec<u8>, SerialManagerError>;

fn ok(text: &str) -> Read {
    Ok(text.as_bytes().to_vec())
}

fn scales(channels: usize) -> Balanzas {
    let mut b = Balanzas::new(50, 10);
    b.begin(channels).unwrap();
    b
}

#[test]
fn transpose_turns_rows_into_columns() {
    let t = transpose(vec![vec![1, 2, 3], vec![4, 5, 6]]);
    assert_eq!(t, vec![vec![1, 4], vec![2, 5], vec![3, 6]]);
}

#[test]
fn transpose_of_nothing_is_nothing() {
    assert_eq!(transpose(Vec::<Vec<i64>>::new()), Vec::<Vec<i64>>::new());
    assert_eq!(transpose(vec![Vec::<i64>::new(), Vec::new()]), Vec::<Vec<i64>>::new());
}

#[test]
fn transpose_twice_gives_the_matrix_back() {
    let m = vec![vec![1u8, 2], vec![3, 4], vec![5, 6]];
    assert_eq!(transpose(transpose(m.clone())), m);
}

#[test]
fn isqrt_is_the_integer_part_of_the_root() {
    assert_eq!(isqrt(0), 0);
    assert_eq!(isqrt(1), 1);
    assert_eq!(isqrt(3), 1);
    assert_eq!(isqrt(4), 2);
    assert_eq!(isqrt(2_500_000), 1581);
    assert_eq!(isqrt(99), 9);
    assert_eq!(isqrt(100), 10);
    assert_eq!(isqrt(u128::MAX), u64::MAX);
    assert_eq!(isqrt((u64::MAX as u128) * (u64::MAX as u128) - 1), u64::MAX - 1);
}

#[test]
fn div_round_rounds_to_nearest_with_halves_up() {
    assert_eq!(div_round_exec(7, 2), 4);
    assert_eq!(div_round_exec(5, 2), 3);
    assert_eq!(div_round_exec(4, 3), 1);
    assert_eq!(div_round_exec(5, 3), 2);
    assert_eq!(div_round_exec(0, 3), 0);
    assert_eq!(div_round_exec(-4, 3), -1);
    assert_eq!(div_round_exec(-5, 3), -2);
    assert_eq!(div_round_exec(-5, 2), -2);
    assert_eq!(div_round_exec(-7, 2), -3);
    assert_eq!(div_round_exec(-1, 2), 0);
    assert_eq!(div_round_exec(-3, 1), -3);
}

#[test]
fn mean_and_stdev_of_known_values() {
    assert_eq!(mean_and_stdev(&vec![]), (None, None));
    assert_eq!(mean_and_stdev(&vec![7]), (Some(7), None));
    assert_eq!(mean_and_stdev(&vec![4, 4, 4]), (Some(4), Some(0)));
    // mean 3000; squares 10_000_000; variance 2_500_000; root 1581.1...
    assert_eq!(
        mean_and_stdev(&vec![1000, 2000, 3000, 4000, 5000]),
        (Some(3000), Some(1581))
    );
    // mean 2.5 rounds up to 3; squares 4 + 1 = 5; variance 5
    assert_eq!(mean_and_stdev(&vec![1, 4]), (Some(3), Some(2)));
    assert_eq!(mean_and_stdev(&vec![-1, -4]), (Some(-2), Some(2)));
}

#[test]
fn mean_and_stdev_at_the_bounds_of_the_range() {
    let big = 1_000_000_000_000i64;
    assert_eq!(mean_and_stdev(&vec![big, big]), (Some(big), Some(0)));
    let (m, d) = mean_and_stdev(&vec![big, -big]);
    assert_eq!(m, Some(0));
    // squares 2 * 10^24, variance 2 * 10^24, root 1.41421356... * 10^12
    assert_eq!(d, Some(1_414_213_562_373));
}

#[test]
fn iqr_filter_drops_the_outlier_of_six_readings() {
    let (mean, stdev, n_filtered) = channel_stats(&vec![1000, 2000, 3000, 4000, 5000, 100_000]);
    assert_eq!(n_filtered, 1);
    assert_eq!(mean, Some(3000));
    assert_eq!(stdev, Some(1581));
}

#[test]
fn iqr_filter_does_not_depend_on_the_order_of_the_readings() {
    let a = channel_stats(&vec![100_000, 3000, 1000, 5000, 2000, 4000]);
    let b = channel_stats(&vec![1000, 2000, 3000, 4000, 5000, 100_000]);
    assert_eq!(a, b);
}

#[test]
fn iqr_filter_bounds_are_strict() {
    // sorted 0,10,20,30: q1 = s[1] = 10, q3 = s[3] = 30, iqr 20, bounds (-20, 60)
    assert_eq!(channel_stats(&vec![0, 10, 20, 30]).2, 0);
    // sorted -20,10,20,30: q1 = 10, q3 = 30: -20 lies on the lower bound and is dropped
    let (mean, _, dropped) = channel_stats(&vec![-20, 10, 20, 30]);
    assert_eq!(dropped, 1);
    assert_eq!(mean, Some(20));
    // sorted 10,20,30,60: q1 = 20, q3 = 60, iqr 40, bounds (-40, 120): all kept
    assert_eq!(channel_stats(&vec![10, 20, 30, 60]).2, 0);
}

#[test]
fn equal_readings_have_no_inliers() {
    // the interquartile range is zero, and the bounds are strict
    assert_eq!(channel_stats(&vec![5, 5, 5]), (None, None, 3));
    assert_eq!(channel_stats(&vec![5]), (None, None, 1));
}

#[test]
fn stats_before_begin_fail_as_not_initialized() {
    let b = Balanzas::new(3, 10);
    assert_eq!(b.n_balanzas(), None);
    assert!(matches!(b.read_stats_raw(&vec![ok("[1,2]")]), Err(BalanzasError::NotInitialized)));
    assert!(matches!(b.read_single_raw(&ok("[1,2]")), Err(BalanzasError::NotInitialized)));
}

#[test]
fn begin_takes_the_channel_count() {
    let mut b = Balanzas::new(3, 10);
    b.begin(4).unwrap();
    assert_eq!(b.n_balanzas(), Some(4));
    assert!(matches!(b.begin(256), Err(BalanzasError::TooManyChannels)));
    assert_eq!(b.n_balanzas(), Some(4));
    b.begin(255).unwrap();
    assert_eq!(b.n_balanzas(), Some(255));
    assert_eq!(b.n_statistics(), 3);
    assert_eq!(b.n_arduino(), 10);
    assert_eq!(b.read_command(), b"hx 10".to_vec());
}

#[test]
fn single_read_must_hold_one_reading_per_channel() {
    let b = scales(2);
    assert_eq!(b.read_single_raw(&ok("[1.5,2]")).unwrap(), vec![1500, 2000]);
    assert!(matches!(b.read_single_raw(&ok("[1.5]")), Err(BalanzasError::LengthMismatch)));
    assert!(matches!(b.read_single_raw(&ok("[1,2,3]")), Err(BalanzasError::LengthMismatch)));
    assert!(matches!(
        b.read_single_raw(&ok("1,2")),
        Err(BalanzasError::SerialManagerError(SerialManagerError::MalformedPayload))
    ));
    assert!(matches!(
        b.read_single_raw(&ok("[1,b]")),
        Err(BalanzasError::SerialManagerError(SerialManagerError::ParseFloat))
    ));
    assert!(matches!(
        b.read_single_raw(&Err(SerialManagerError::Empty)),
        Err(BalanzasError::SerialManagerError(SerialManagerError::Empty))
    ));
}

#[test]
fn stats_have_one_entry_per_channel() {
    for channels in 0..5usize {
        let b = scales(channels);
        let line = format!(
            "[{}]",
            (0..channels).map(|c| format!("{}", c + 1)).collect::<Vec<String>>().join(",")
        );
        let reads: Vec<Read> = if channels == 0 {
            // a rig without channels answers with an empty list, which is no number
            vec![Err(SerialManagerError::Empty)]
        } else {
            vec![ok(&line), Err(SerialManagerError::Empty), ok(&line), ok(&line), ok(&line)]
        };
        match b.read_stats_raw(&reads) {
            Ok((means, stdevs, n_filtered, n_failed)) => {
                assert_eq!(means.len(), channels);
                assert_eq!(stdevs.len(), channels);
                assert_eq!(n_filtered.len(), channels);
                assert_eq!(n_failed, 1);
            }
            Err(e) => {
                assert_eq!(channels, 0);
                assert!(matches!(e, BalanzasError::NoSuccessfulReads));
            }
        }
    }
}

#[test]
fn stats_fail_only_when_every_read_failed() {
    let b = scales(1);
    let bad: Vec<Read> = vec![
        Err(SerialManagerError::Empty),
        ok("[1,2]"),
        ok("nonsense"),
        Err(SerialManagerError::RetriesExhausted(None)),
    ];
    assert!(matches!(b.read_stats_raw(&bad), Err(BalanzasError::NoSuccessfulReads)));
    assert!(matches!(b.read_stats_raw(&vec![]), Err(BalanzasError::NoSuccessfulReads)));
    let mut one_good = bad;
    one_good.push(ok("[3]"));
    let (means, stdevs, n_filtered, n_failed) = b.read_stats_raw(&one_good).unwrap();
    // a single reading has no interquartile range: it is dropped by the strict bounds
    assert_eq!(means, vec![None]);
    assert_eq!(stdevs, vec![None]);
    assert_eq!(n_filtered, vec![1]);
    assert_eq!(n_failed, 4);
}

#[test]
fn stats_of_two_channels_with_an_outlier_and_failed_reads() {
    let b = scales(2);
    let reads: Vec<Read> = vec![
        ok("[1,10]"),
        ok("[2,20]"),
        Err(SerialManagerError::Empty),
        ok("[3,30]"),
        ok("[4,40]"),
        ok("[5]"),
        ok("[5,50]"),
        ok("[100,60]"),
    ];
    let (means, stdevs, n_filtered, n_failed) = b.read_stats_raw(&reads).unwrap();
    assert_eq!(n_failed, 2);
    assert_eq!(n_filtered, vec![1, 0]);
    assert_eq!(means, vec![Some(3000), Some(35_000)]);
    // second channel: squares 2 * (25^2 + 15^2 + 5^2) * 10^6 = 1750 * 10^6, variance 350 * 10^6
    assert_eq!(stdevs, vec![Some(1581), Some(18_708)]);
}

#[test]
fn calibrate_offset_keeps_the_raw_statistics() {
    let mut b = scales(1);
    assert!(b.offsets().is_none());
    let reads: Vec<Read> =
        vec![ok("[1]"), ok("[2]"), ok("[3]"), ok("[4]"), ok("[5]"), ok("[100]")];
    b.calibrate_offset(&reads).unwrap();
    assert_eq!(b.offsets(), &Some(vec![Some(3000)]));
    assert_eq!(b.offset_errors(), &Some(vec![Some(1581)]));
}

#[test]
fn calibrate_offset_that_fails_changes_nothing() {
    let mut b = scales(1);
    assert!(matches!(
        b.calibrate_offset(&vec![Err(SerialManagerError::Empty)]),
        Err(BalanzasError::NoSuccessfulReads)
    ));
    assert!(b.offsets().is_none());
    assert!(b.offset_errors().is_none());
    let mut fresh = Balanzas::new(1, 1);
    assert!(matches!(fresh.calibrate_offset(&vec![ok("[1]")]), Err(BalanzasError::NotInitialized)));
}

#[test]
fn slopes_need_the_channel_count_the_sizes_and_the_offsets() {
    let reads: Vec<Read> = vec![ok("[10,20]"), ok("[20,30]"), ok("[30,40]"), ok("[40,50]")];
    let mut fresh = Balanzas::new(5, 10);
    assert!(matches!(
        fresh.calibrate_slope(&reads, &vec![], &vec![]),
        Err(BalanzasError::NotInitialized)
    ));
    let mut b = scales(2);
    assert!(matches!(
        b.calibrate_slope(&reads, &vec![1], &vec![1, 2]),
        Err(BalanzasError::WrongSize)
    ));
    assert!(matches!(
        b.calibrate_slope(&reads, &vec![1, 2], &vec![1, 2, 3]),
        Err(BalanzasError::WrongSize)
    ));
    assert!(matches!(
        b.calibrate_slope(&reads, &vec![1, 2], &vec![1, 2]),
        Err(BalanzasError::OffsetsMissing)
    ));
    b.calibrate_offset(&reads).unwrap();
    assert!(matches!(
        b.calibrate_slope(&vec![Err(SerialManagerError::Empty)], &vec![1, 2], &vec![1, 2]),
        Err(BalanzasError::NoSuccessfulReads)
    ));
    assert!(b.slopes().is_none());
    assert!(b.calibrate_slope(&reads, &vec![1, 2], &vec![1, 2]).is_ok());
    assert!(b.slopes().is_some());
}

#[test]
fn slope_is_the_known_weight_less_the_offset_over_the_raw_mean() {
    let mut b = scales(2);
    // offsets: means of 1,2,3,4 and 10,20,30,40 (2.5 rounds to 3, and 25)
    let empty: Vec<Read> = vec![ok("[1,10]"), ok("[2,20]"), ok("[3,30]"), ok("[4,40]")];
    b.calibrate_offset(&empty).unwrap();
    assert_eq!(b.offsets(), &Some(vec![Some(2500), Some(25_000)]));
    let loaded: Vec<Read> =
        vec![ok("[101,210]"), ok("[102,220]"), ok("[103,230]"), ok("[104,240]")];
    let (means, _, n_filtered, n_failed) =
        b.calibrate_slope(&loaded, &vec![500_000, 1_000_000], &vec![100, 100]).unwrap();
    assert_eq!(means, vec![Some(102_500), Some(225_000)]);
    assert_eq!(n_filtered, vec![0, 0]);
    assert_eq!(n_failed, 0);
    assert_eq!(
        b.slopes(),
        &Some(vec![
            Some(Slope { num: 497_500, den: 102_500 }),
            Some(Slope { num: 975_000, den: 225_000 }),
        ])
    );
}

#[test]
fn slope_is_not_defined_without_offset_or_with_a_zero_mean() {
    assert_eq!(slope_for(10, Some(4), Some(3)), Some(Slope { num: 6, den: 3 }));
    assert_eq!(slope_for(10, None, Some(3)), None);
    assert_eq!(slope_for(10, Some(4), None), None);
    assert_eq!(slope_for(10, Some(4), Some(0)), None);
    assert_eq!(slope_for(1_000_000_000_001, Some(4), Some(3)), None);
    assert_eq!(slope_for(10, Some(-1_000_000_000_001), Some(3)), None);
    assert_eq!(
        slope_for(1_000_000_000_000, Some(-1_000_000_000_000), Some(-3)),
        Some(Slope { num: 2_000_000_000_000, den: -3 })
    );
}

#[test]
fn weight_is_slope_times_mean_times_offset() {
    // 2/1 * 3.000 * 4.000 = 24.000
    assert_eq!(calibrated_weight(Some(Slope { num: 2, den: 1 }), Some(3000), Some(4000)), Some(24_000));
    // 1/3 * 1.000 * 1.000 = 0.333
    assert_eq!(calibrated_weight(Some(Slope { num: 1, den: 3 }), Some(1000), Some(1000)), Some(333));
    // 2/3 * 1.000 * 1.000 = 0.667
    assert_eq!(calibrated_weight(Some(Slope { num: 2, den: 3 }), Some(1000), Some(1000)), Some(667));
    // 1/2 * 0.001 * 1.000 = 0.0005, which rounds up
    assert_eq!(calibrated_weight(Some(Slope { num: 1, den: 2 }), Some(1), Some(1000)), Some(1));
    assert_eq!(calibrated_weight(Some(Slope { num: -1, den: 2 }), Some(1), Some(1000)), Some(0));
    // a negative raw mean turns the sign
    assert_eq!(calibrated_weight(Some(Slope { num: 2, den: -1 }), Some(3000), Some(4000)), Some(-24_000));
    assert_eq!(calibrated_weight(Some(Slope { num: -2, den: -1 }), Some(-3000), Some(4000)), Some(-24_000));
}

#[test]
fn weight_is_not_defined_without_its_terms_or_out_of_reach() {
    let s = Some(Slope { num: 2, den: 1 });
    assert_eq!(calibrated_weight(None, Some(1), Some(1)), None);
    assert_eq!(calibrated_weight(s, None, Some(1)), None);
    assert_eq!(calibrated_weight(s, Some(1), None), None);
    assert_eq!(calibrated_weight(Some(Slope { num: 2, den: 0 }), Some(1), Some(1)), None);
    assert_eq!(calibrated_weight(s, Some(1_000_000_000_001), Some(1)), None);
    assert_eq!(calibrated_weight(s, Some(1_000_000_000), Some(1_000_000_000)), None);
    // the largest product there is: 2 * 10^12 * 10^12 * 10^12 / (10^12 * 1000)
    assert_eq!(
        calibrated_weight(
            Some(Slope { num: 2_000_000_000_000, den: 1_000_000_000_000 }),
            Some(1_000_000_000_000),
            Some(1_000_000_000_000)
        ),
        None
    );
    assert_eq!(
        calibrated_weight(
            Some(Slope { num: 2_000_000_000_000, den: 1_000_000_000_000 }),
            Some(1_000_000_000_000),
            Some(500)
        ),
        Some(1_000_000_000_000)
    );
}

#[test]
fn read_stats_weighs_every_channel() {
    let mut b = scales(2);
    let empty: Vec<Read> = vec![ok("[1,10]"), ok("[2,20]"), ok("[3,30]"), ok("[4,40]")];
    assert!(matches!(b.read_stats(&empty), Err(BalanzasError::NotCalibrated)));
    b.calibrate_offset(&empty).unwrap();
    assert!(matches!(b.read_stats(&empty), Err(BalanzasError::NotCalibrated)));
    let loaded: Vec<Read> =
        vec![ok("[101,210]"), ok("[102,220]"), ok("[103,230]"), ok("[104,240]")];
    b.calibrate_slope(&loaded, &vec![500_000, 1_000_000], &vec![100, 100]).unwrap();
    let (weights, (means, stdevs, n_filtered, n_failed)) = b.read_stats(&loaded).unwrap();
    assert_eq!(means, vec![Some(102_500), Some(225_000)]);
    assert_eq!(stdevs.len(), 2);
    assert_eq!(n_filtered, vec![0, 0]);
    assert_eq!(n_failed, 0);
    // 497500/102500 * 102.500 * 2.500 = 1243.750; 975000/225000 * 225.000 * 25.000 = 24375.000
    assert_eq!(weights, vec![1_243_750, 24_375_000]);
    assert!(matches!(
        b.read_stats(&vec![Err(SerialManagerError::Empty)]),
        Err(BalanzasError::NoSuccessfulReads)
    ));
    // a single read has no inliers, hence no mean and no weight
    assert!(matches!(b.read_stats(&vec![ok("[101,210]")]), Err(BalanzasError::NoWeight)));
    let fresh = Balanzas::new(1, 1);
    assert!(matches!(fresh.read_stats(&loaded), Err(BalanzasError::NotInitialized)));
}

#[test]
fn restore_and_clone_keep_the_scales() {
    let b = Balanzas::restore(
        Some(2),
        50,
        10,
        Some(vec![Some(1), None]),
        Some(vec![None, Some(2)]),
        Some(vec![Some(Slope { num: 3, den: 4 }), None]),
    );
    let c = b.clone();
    assert_eq!(c.n_balanzas(), Some(2));
    assert_eq!(c.n_statistics(), 50);
    assert_eq!(c.n_arduino(), 10);
    assert_eq!(c.offsets(), &Some(vec![Some(1), None]));
    assert_eq!(c.offset_errors(), &Some(vec![None, Some(2)]));
    assert_eq!(c.slopes(), &Some(vec![Some(Slope { num: 3, den: 4 }), None]));
}

#[test]
fn known_weights_are_read_from_one_line() {
    assert_eq!(
        parse_known_weights(b"(100, 200.5, 3)-0.5\n").unwrap(),
        (vec![100_000, 200_500, 3_000], vec![500, 500, 500])
    );
    assert_eq!(parse_known_weights(b"7-1").unwrap(), (vec![7_000], vec![1_000]));
    assert_eq!(parse_known_weights(b" ( 7 ) - ( 1 ) ").unwrap(), (vec![7_000], vec![1_000]));
}

#[test]
fn known_weights_of_another_pattern_are_refused() {
    for bad in [&b""[..], b"(1,2)", b"(1,2)-3-4", b"1,2 3", b"--"] {
        assert!(matches!(parse_known_weights(bad), Err(BalanzasError::BadPattern)));
    }
    for bad in [&b"(1,x)-3"[..], b"(1,2)-x", b"-3", b"(1,2)-", b"(1,,2)-3", b"(1e3)-1"] {
        assert!(matches!(parse_known_weights(bad), Err(BalanzasError::BadNumber)));
    }
}

#[test]
fn deviation_of_values_whose_squares_do_not_divide_evenly() {
    // mean 7/3 rounds to 2; squares 1 + 0 + 4 = 5; variance 5/2 cut to 2; root 1
    assert_eq!(mean_and_stdev(&vec![1, 2, 4]), (Some(2), Some(1)));
    // mean 37.5 rounds to 38; squares 784 + 324 + 4 + 1764 = 2876; variance 958; root 30
    assert_eq!(mean_and_stdev(&vec![10, 20, 40, 80]), (Some(38), Some(30)));
    // seven values: mean 4; squares 9 + 4 + 1 + 0 + 1 + 4 + 9 = 28; variance 4; root 2
    assert_eq!(mean_and_stdev(&vec![1, 2, 3, 4, 5, 6, 7]), (Some(4), Some(2)));
}

#[test]
fn deviation_of_many_values_at_the_bounds_of_the_range() {
    let big = 1_000_000_000_000i64;
    let mut v = vec![big; 1000];
    v.extend(vec![-big; 1000]);
    // mean 0; squares 2000 * 10^24; variance 2000/1999 * 10^24; root 1.00025... * 10^12
    let (mean, dev) = mean_and_stdev(&v);
    assert_eq!(mean, Some(0));
    assert_eq!(dev, Some(1_000_250_093_789));
}

#[test]
fn stats_succeed_as_soon_as_one_read_succeeded() {
    let b = scales(1);
    for good_at in 0..4 {
        let mut reads: Vec<Read> = vec![
            Err(SerialManagerError::Empty),
            ok("junk"),
            Err(SerialManagerError::RetriesExhausted(None)),
            ok("[1,2]"),
        ];
        reads[good_at] = ok("[5]");
        let (means, stdevs, n_filtered, n_failed) = b.read_stats_raw(&reads).unwrap();
        assert_eq!((means.len(), stdevs.len(), n_filtered.len()), (1, 1, 1));
        assert_eq!(n_failed, 3);
    }
}
