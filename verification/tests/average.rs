use rm_engine::average::{weighted_average_secs, whole_hours, SearchError};

#[test]
fn average_of_nothing_is_no_data() {
    assert_eq!(weighted_average_secs(&vec![]), Err(SearchError::NoData));
}

#[test]
fn average_of_one_move() {
    assert_eq!(weighted_average_secs(&vec![60_000]), Ok(60));
}

#[test]
fn recent_moves_weigh_more() {
    // Newest first: 60 s weighted 2, the older 120 s weighted 1: (120 + 120) / 3 = 80.
    assert_eq!(weighted_average_secs(&vec![60_000, 120_000]), Ok(80));
    // Reversed order: (240 + 60) / 3 = 100.
    assert_eq!(weighted_average_secs(&vec![120_000, 60_000]), Ok(100));
    // Three moves weighted 3, 2, 1: (30 + 40 + 30) / 6 = 16.
    assert_eq!(weighted_average_secs(&vec![10_000, 20_000, 30_000]), Ok(16));
}

#[test]
fn average_of_equal_moves_is_that_move() {
    assert_eq!(weighted_average_secs(&vec![5_000, 5_000, 5_000, 5_000]), Ok(5));
}

#[test]
fn average_stays_between_extremes() {
    let durations = vec![10_000, 40_000, 20_000, 30_000];
    // (40 + 120 + 40 + 30) / 10 = 23
    let avg = weighted_average_secs(&durations).unwrap();
    assert_eq!(avg, 23);
    assert!(10 <= avg && avg <= 40);
}

#[test]
fn average_rounds_toward_zero() {
    assert_eq!(weighted_average_secs(&vec![1_999]), Ok(1));
    assert_eq!(weighted_average_secs(&vec![-1_500]), Ok(-1));
    // 1 * 2 + 2 = 4 seconds over weight 3: 1.33.. rounds to 1.
    assert_eq!(weighted_average_secs(&vec![1_000, 2_000]), Ok(1));
    // -(2 * 2 + 1) = -5 seconds over weight 3: -1.66.. rounds to -1.
    assert_eq!(weighted_average_secs(&vec![-2_000, -1_000]), Ok(-1));
}

#[test]
fn whole_hours_truncates() {
    assert_eq!(whole_hours(3_600), 1);
    assert_eq!(whole_hours(7_199), 1);
    assert_eq!(whole_hours(3_599), 0);
    assert_eq!(whole_hours(-7_199), -1);
    assert_eq!(whole_hours(0), 0);
}
