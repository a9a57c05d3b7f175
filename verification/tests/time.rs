use webspec_fetch::time::{is_fresh, Timestamp, CHECK_INTERVAL_HOURS};

fn at(seconds: i64, nanos: u32) -> Timestamp {
    Timestamp::new(seconds, nanos).unwrap()
}

#[test]
fn the_window_is_a_day() {
    assert_eq!(CHECK_INTERVAL_HOURS, 24);
    let checked = at(1_767_225_600, 0);
    assert!(is_fresh(&checked, &checked));
    assert!(is_fresh(&checked, &at(1_767_225_600 + 86_399, 999_999_999)));
    assert!(!is_fresh(&checked, &at(1_767_225_600 + 86_400, 0)));
    assert!(!is_fresh(&checked, &at(1_767_225_600 + 10 * 86_400, 0)));
}

#[test]
fn nanoseconds_count_for_freshness() {
    let checked = at(1_000, 5);
    assert!(is_fresh(&checked, &at(87_400, 4)));
    assert!(!is_fresh(&checked, &at(87_400, 5)));
}

#[test]
fn a_check_in_the_future_is_fresh() {
    let now = at(1_767_225_600, 0);
    assert!(is_fresh(&at(1_767_225_601, 0), &now));
    assert!(is_fresh(&at(1_767_225_600 + 100 * 86_400, 0), &now));
}

#[test]
fn leap_seconds_are_counted() {
    // The check stands inside a leap second, which is over by `now`.
    assert!(!is_fresh(&at(43_259, 1_500_000_000), &at(43_259 + 86_401, 0)));
    assert!(is_fresh(&at(43_259, 500_000_000), &at(43_259 + 86_400, 0)));
    // `now` stands inside a leap second.
    assert!(is_fresh(&at(43_260, 0), &at(43_259 + 86_400, 1_500_000_000)));
}

#[test]
fn the_calendar_has_bounds() {
    let first: i64 = -8_334_601_228_800;
    let last: i64 = 8_210_266_876_799;
    assert_eq!(at(first, 0).to_rfc3339(), "-262143-01-01T00:00:00+00:00");
    assert_eq!(at(last, 0).to_rfc3339(), "+262142-12-31T23:59:59+00:00");
    assert_eq!(at(last, 1_999_999_999).nanos(), 1_999_999_999);
    assert!(Timestamp::new(first - 1, 0).is_none());
    assert!(Timestamp::new(last + 1, 0).is_none());
    assert!(Timestamp::new(i64::MIN, 0).is_none());
    assert!(Timestamp::new(i64::MAX, 0).is_none());
    assert!(!is_fresh(&at(first, 0), &at(last, 1_999_999_999)));
    assert!(is_fresh(&at(last, 0), &at(first, 0)));
}

#[test]
fn a_leap_second_ends_a_minute() {
    assert!(Timestamp::new(59, 1_000_000_000).is_some());
    assert!(Timestamp::new(-1, 1_000_000_000).is_some());
    assert!(Timestamp::new(58, 1_000_000_000).is_none());
    assert!(Timestamp::new(60, 1_000_000_000).is_none());
    assert!(Timestamp::new(59, 2_000_000_000).is_none());
}

#[test]
fn rfc3339_form() {
    assert_eq!(at(1_767_225_600, 0).to_rfc3339(), "2026-01-01T00:00:00+00:00");
    assert_eq!(
        at(1_767_225_600, 500_000_000).to_rfc3339(),
        "2026-01-01T00:00:00.500+00:00"
    );
    assert_eq!(
        at(1_767_225_600, 1).to_rfc3339(),
        "2026-01-01T00:00:00.000000001+00:00"
    );
    assert_eq!(
        at(1_483_228_799, 1_500_000_000).to_rfc3339(),
        "2016-12-31T23:59:60.500+00:00"
    );
}

#[test]
fn rfc3339_texts_are_read_in_utc() {
    let read = Timestamp::parse_from_rfc3339("2026-01-01T02:00:00.25+02:00").unwrap();
    assert_eq!(read.seconds(), 1_767_225_600);
    assert_eq!(read.nanos(), 250_000_000);
    assert!(Timestamp::parse_from_rfc3339("2026-01-01").is_none());
    assert!(Timestamp::parse_from_rfc3339("yesterday").is_none());
    assert!(Timestamp::parse_from_rfc3339("").is_none());
}

#[test]
fn what_was_written_is_read_back() {
    for timestamp in [
        at(1_767_225_600, 0),
        at(1_767_225_600, 123_456_789),
        at(1_483_228_799, 1_999_999_999),
        at(-1, 1_000_000),
        at(-62_167_219_200, 0),
        at(253_402_300_799, 999_999_999),
    ] {
        assert_eq!(
            Timestamp::parse_from_rfc3339(&timestamp.to_rfc3339()),
            Some(timestamp)
        );
    }
}

#[test]
fn other_years_are_not_read_back() {
    let text = at(253_402_300_800, 0).to_rfc3339();
    assert_eq!(text, "+10000-01-01T00:00:00+00:00");
    assert!(Timestamp::parse_from_rfc3339(&text).is_none());
}
