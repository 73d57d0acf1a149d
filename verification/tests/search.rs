use rm_engine::average::SearchError;
use rm_engine::search::{MoveSearch, Phase, Request, Step, Timeframe};
use rm_engine::timestamp::{checked_sub_ms, TIMESTAMP_MAX_MS, TIMESTAMP_MIN_MS};

const NOW: i64 = 1_700_000_000_000;
const HOUR: i64 = 3_600_000;

fn latest(timeframe: Timeframe) -> Step {
    Step::Fetch(Request::Latest { timeframe, limit: 1000 })
}

#[test]
fn timeframe_lengths() {
    assert_eq!(Timeframe::Minute.duration_ms(), 60_000);
    assert_eq!(Timeframe::Hour.duration_ms(), 3_600_000);
    assert_eq!(Timeframe::Week.duration_ms(), 604_800_000);
}

#[test]
fn probes_presets_in_order_then_gives_up() {
    let mut s = MoveSearch::new(NOW);
    assert_eq!(s.next_step(), latest(Timeframe::Minute));
    assert_eq!(s.next_step(), latest(Timeframe::Hour));
    assert_eq!(s.next_step(), latest(Timeframe::Week));
    assert_eq!(s.next_step(), Step::Finished(Err(SearchError::NoTimeframe)));
    assert_eq!(s.next_step(), Step::Finished(Err(SearchError::NoTimeframe)));
    assert!(s.durations_ms().is_empty());
}

#[test]
fn first_crossing_ends_the_probe_and_fixes_the_timeframe() {
    let mut s = MoveSearch::new(NOW);
    assert_eq!(s.next_step(), latest(Timeframe::Minute));
    assert_eq!(s.next_step(), latest(Timeframe::Hour));
    // The probe stops at its first crossing.
    assert!(!s.record_crossing(NOW - 2 * HOUR));
    assert_eq!(s.phase(), Phase::Found { timeframe: Timeframe::Hour });
    // Further crossings of that batch are ignored.
    assert!(!s.record_crossing(NOW - 3 * HOUR));
    assert_eq!(s.durations_ms(), &vec![2 * HOUR]);
    let prev = NOW - 2 * HOUR;
    assert_eq!(
        s.next_step(),
        Step::Fetch(Request::Window {
            timeframe: Timeframe::Hour,
            start_ms: prev - 999 * HOUR,
            end_ms: prev,
        })
    );
}

#[test]
fn window_follows_the_last_move() {
    let mut s = MoveSearch::new(NOW);
    s.next_step();
    assert!(!s.record_crossing(NOW - 10 * 60_000));
    s.next_step();
    assert!(s.record_crossing(NOW - 30 * 60_000));
    assert!(s.record_crossing(NOW - 45 * 60_000));
    let prev = NOW - 45 * 60_000;
    assert_eq!(
        s.next_step(),
        Step::Fetch(Request::Window {
            timeframe: Timeframe::Minute,
            start_ms: prev - 999 * 60_000,
            end_ms: prev,
        })
    );
    assert_eq!(s.durations_ms(), &vec![600_000, 1_200_000, 900_000]);
    // The moves add up to the time travelled back from the start.
    assert_eq!(s.durations_ms().iter().sum::<i64>(), NOW - prev);
}

#[test]
fn stops_after_ten_moves_with_weighted_average() {
    let mut s = MoveSearch::new(NOW);
    assert_eq!(s.next_step(), latest(Timeframe::Minute));
    assert!(!s.record_crossing(NOW - HOUR));
    assert!(matches!(s.next_step(), Step::Fetch(Request::Window { .. })));
    let mut t = NOW - HOUR;
    for k in 2..=10 {
        t -= HOUR;
        let keep = s.record_crossing(t);
        assert_eq!(keep, k < 10);
    }
    // A tenth move ends the scan; later crossings are ignored.
    assert!(!s.record_crossing(t - HOUR));
    assert_eq!(s.durations_ms().len(), 10);
    // Every move took an hour.
    assert_eq!(s.next_step(), Step::Finished(Ok(3_600)));
}

#[test]
fn window_budget_is_ten_requests() {
    let mut s = MoveSearch::new(NOW);
    s.next_step();
    assert!(!s.record_crossing(NOW - 60_000));
    let mut windows = 0;
    loop {
        match s.next_step() {
            Step::Fetch(Request::Window { .. }) => windows += 1,
            Step::Fetch(other) => panic!("unexpected request {:?}", other),
            Step::Finished(r) => {
                assert_eq!(r, Ok(60));
                break;
            }
        }
    }
    assert_eq!(windows, 10);
}

#[test]
fn window_before_earliest_instant_is_refused() {
    let mut s = MoveSearch::new(TIMESTAMP_MIN_MS + 2 * 604_800_000);
    s.next_step();
    s.next_step();
    s.next_step();
    assert!(!s.record_crossing(TIMESTAMP_MIN_MS + 604_800_000));
    assert_eq!(s.next_step(), Step::Finished(Err(SearchError::TimeOutOfRange)));
}

#[test]
fn checked_sub_respects_supported_range() {
    assert_eq!(checked_sub_ms(0, 5), Some(-5));
    assert_eq!(checked_sub_ms(TIMESTAMP_MIN_MS + 10, 10), Some(TIMESTAMP_MIN_MS));
    assert_eq!(checked_sub_ms(TIMESTAMP_MIN_MS + 10, 11), None);
    assert_eq!(checked_sub_ms(TIMESTAMP_MAX_MS, 0), Some(TIMESTAMP_MAX_MS));
    assert_eq!(checked_sub_ms(TIMESTAMP_MAX_MS, -1), None);
    assert_eq!(checked_sub_ms(TIMESTAMP_MIN_MS, i64::MAX), None);
    assert_eq!(checked_sub_ms(TIMESTAMP_MAX_MS, i64::MIN), None);
}
