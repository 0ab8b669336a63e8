use luna_dial_client::models::{Period, Timestamp};
use luna_dial_client::time::{day_window, start_of_day, today_window, LocalInstant, SECONDS_PER_DAY};

#[test]
fn start_of_day_floors_to_utc_midnight() {
    assert_eq!(start_of_day(0), Some(0));
    assert_eq!(start_of_day(1), Some(0));
    assert_eq!(start_of_day(86_399), Some(0));
    assert_eq!(start_of_day(86_400), Some(86_400));
    assert_eq!(start_of_day(1_431_648_000 + 12_345), Some(1_431_648_000));
    assert_eq!(start_of_day(-1), Some(-86_400));
    assert_eq!(start_of_day(-86_400), Some(-86_400));
    assert_eq!(start_of_day(-86_401), Some(-172_800));
}

#[test]
fn start_of_day_at_the_ends_of_the_range() {
    assert_eq!(start_of_day(i64::MIN), None);
    assert_eq!(start_of_day(i64::MAX), Some(i64::MAX - i64::MAX % 86_400));
    let first_midnight = i64::MIN - i64::MIN % 86_400;
    assert_eq!(start_of_day(first_midnight), Some(first_midnight));
    assert_eq!(start_of_day(first_midnight - 1), None);
}

#[test]
fn start_of_day_agrees_with_the_calendar() {
    for secs in [0i64, 59, 1_431_648_000, 1_700_000_123, -1, -1_000_000_007, 4_102_444_799] {
        let midnight = chrono::DateTime::from_timestamp(secs, 0)
            .unwrap()
            .date_naive()
            .and_hms_opt(0, 0, 0)
            .unwrap()
            .and_utc()
            .timestamp();
        assert_eq!(start_of_day(secs), Some(midnight));
    }
}

#[test]
fn day_window_spans_one_day_from_a_single_instant() {
    assert_eq!(
        day_window(LocalInstant::Single(1_431_648_000)),
        Some(Period {
            start: Timestamp { secs: 1_431_648_000, nanos: 0 },
            end: Timestamp { secs: 1_431_734_400, nanos: 0 },
        })
    );
    assert_eq!(
        day_window(LocalInstant::Single(-5)),
        Some(Period {
            start: Timestamp { secs: -5, nanos: 0 },
            end: Timestamp { secs: 86_395, nanos: 0 },
        })
    );
}

#[test]
fn day_window_needs_a_single_instant_within_range() {
    assert_eq!(day_window(LocalInstant::Missing), None);
    assert_eq!(day_window(LocalInstant::Ambiguous(10, 3_610)), None);
    assert_eq!(day_window(LocalInstant::Single(i64::MAX)), None);
    assert_eq!(day_window(LocalInstant::Single(i64::MAX - 86_399)), None);
    assert!(day_window(LocalInstant::Single(i64::MAX - 86_400)).is_some());
}

#[test]
fn today_window_is_one_day_around_now() {
    let now = std::time::SystemTime::now()
        .duration_since(std::time::UNIX_EPOCH)
        .unwrap()
        .as_secs() as i64;
    if let Some(window) = today_window() {
        assert_eq!(window.start.nanos, 0);
        assert_eq!(window.end.nanos, 0);
        assert_eq!(window.end.secs - window.start.secs, SECONDS_PER_DAY);
        assert!(window.is_well_formed());
        assert!((window.start.secs - now).abs() <= 2 * SECONDS_PER_DAY);
    }
}

#[test]
fn period_new_rejects_an_end_before_the_start() {
    let early = Timestamp { secs: 10, nanos: 5 };
    let late = Timestamp { secs: 10, nanos: 6 };
    assert_eq!(Period::new(early, late), Some(Period { start: early, end: late }));
    assert_eq!(Period::new(early, early), Some(Period { start: early, end: early }));
    assert_eq!(Period::new(late, early), None);
    assert_eq!(Period::new(Timestamp { secs: 11, nanos: 0 }, late), None);
    assert!(Period { start: early, end: late }.is_well_formed());
    assert!(!Period { start: late, end: early }.is_well_formed());
}

#[test]
fn timestamps_order_by_seconds_then_nanoseconds() {
    let a = Timestamp { secs: -1, nanos: 999_999_999 };
    let b = Timestamp { secs: 0, nanos: 0 };
    let c = Timestamp { secs: 0, nanos: 1 };
    assert!(a.le(&b));
    assert!(b.le(&c));
    assert!(a.le(&c));
    assert!(b.le(&b));
    assert!(!c.le(&b));
    assert!(!b.le(&a));
}
