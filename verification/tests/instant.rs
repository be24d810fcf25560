use chrono::{DateTime, Utc};
use lockpilot::instant::{Timestamp, WaitSpan, MAX_SECS, MIN_SECS};

fn at(secs: i64, nanos: u32) -> Timestamp {
    Timestamp::new(secs, nanos).expect("representable")
}

fn chrono_wait(now: (i64, u32), target: (i64, u32)) -> (u64, u32) {
    let from = DateTime::<Utc>::from_timestamp(now.0, now.1).unwrap();
    let to = DateTime::<Utc>::from_timestamp(target.0, target.1).unwrap();
    match (to - from).to_std() {
        Ok(span) => (span.as_secs(), span.subsec_nanos()),
        Err(_) => (0, 0),
    }
}

#[test]
fn calendar_range_matches_chrono() {
    assert_eq!(DateTime::<Utc>::MIN_UTC.timestamp(), MIN_SECS);
    assert_eq!(DateTime::<Utc>::MAX_UTC.timestamp(), MAX_SECS);
    assert!(Timestamp::new(MIN_SECS, 0).is_some());
    assert!(Timestamp::new(MIN_SECS - 1, 0).is_none());
    assert!(DateTime::<Utc>::from_timestamp(MIN_SECS - 1, 0).is_none());
    assert!(Timestamp::new(MAX_SECS, 999_999_999).is_some());
    assert!(Timestamp::new(MAX_SECS + 1, 0).is_none());
    assert!(DateTime::<Utc>::from_timestamp(MAX_SECS + 1, 0).is_none());
    assert!(Timestamp::new(i64::MIN, 0).is_none());
    assert!(Timestamp::new(i64::MAX, 0).is_none());
}

#[test]
fn new_keeps_seconds_and_nanoseconds() {
    let t = at(1_431_648_000, 123_456_789);
    assert_eq!(t.secs(), 1_431_648_000);
    assert_eq!(t.nanos(), 123_456_789);
    let early = at(-1, 0);
    assert_eq!(early.secs(), -1);
    assert_eq!(early.nanos(), 0);
}

#[test]
fn leap_second_only_ends_a_minute() {
    let cases: [(i64, u32); 10] = [
        (59, 1_000_000_000),
        (59, 1_999_999_999),
        (59, 2_000_000_000),
        (60, 1_000_000_000),
        (58, 1_000_000_000),
        (0, 999_999_999),
        (-1, 1_500_000_000),
        (-2, 1_500_000_000),
        (-61, 1_000_000_000),
        (1_435_708_799, 1_000_000_000),
    ];
    let expected = [true, true, false, false, false, true, true, false, true, true];
    for (case, want) in cases.iter().zip(expected.iter()) {
        assert_eq!(Timestamp::new(case.0, case.1).is_some(), *want, "{:?}", case);
        assert_eq!(
            DateTime::<Utc>::from_timestamp(case.0, case.1).is_some(),
            *want,
            "{:?}",
            case
        );
    }
    assert!(Timestamp::new(0, u32::MAX).is_none());
}

#[test]
fn parse_reads_rfc3339() {
    let t = Timestamp::parse_rfc3339("1996-12-19T16:39:57-08:00").unwrap();
    assert_eq!((t.secs(), t.nanos()), (851_042_397, 0));
    let t = Timestamp::parse_rfc3339("2030-01-01T00:00:00Z").unwrap();
    assert_eq!((t.secs(), t.nanos()), (1_893_456_000, 0));
    let t = Timestamp::parse_rfc3339("2024-02-29T12:30:15.25+00:00").unwrap();
    assert_eq!((t.secs(), t.nanos()), (1_709_209_815, 250_000_000));
    let t = Timestamp::parse_rfc3339("1969-12-31T23:59:59Z").unwrap();
    assert_eq!((t.secs(), t.nanos()), (-1, 0));
}

#[test]
fn parse_reads_a_leap_second() {
    let t = Timestamp::parse_rfc3339("2015-06-30T23:59:60Z").unwrap();
    assert_eq!((t.secs(), t.nanos()), (1_435_708_799, 1_000_000_000));
}

#[test]
fn parse_rejects_what_is_no_date_time() {
    for text in [
        "",
        "tomorrow",
        "2030-01-01",
        "2030-01-01 00:00:00",
        "2030-01-01T00:00:00",
        "2030-13-01T00:00:00Z",
        "2030-02-30T00:00:00Z",
        "2030-01-01T25:00:00Z",
        " 2030-01-01T00:00:00Z",
        "2030-01-01T00:00:00Z ",
    ] {
        assert!(Timestamp::parse_rfc3339(text).is_none(), "{:?}", text);
    }
}

#[test]
fn parse_agrees_with_chrono() {
    for text in [
        "2001-09-09T01:46:40Z",
        "2001-09-09T03:46:40+02:00",
        "9999-12-31T23:59:59.999999999Z",
        "0000-01-01T00:00:00Z",
        "2016-12-31T23:59:60.5Z",
        "2016-12-31t23:59:59z",
    ] {
        let want = DateTime::parse_from_rfc3339(text)
            .ok()
            .map(|t| (t.timestamp(), t.timestamp_subsec_nanos()));
        let got = Timestamp::parse_rfc3339(text).map(|t| (t.secs(), t.nanos()));
        assert_eq!(got, want, "{:?}", text);
    }
}

#[test]
fn is_before_orders_by_second_then_nanosecond() {
    assert!(at(10, 0).is_before(&at(11, 0)));
    assert!(at(10, 5).is_before(&at(10, 6)));
    assert!(at(10, 999_999_999).is_before(&at(11, 0)));
    assert!(!at(10, 5).is_before(&at(10, 5)));
    assert!(!at(11, 0).is_before(&at(10, 999_999_999)));
    assert!(at(-5, 0).is_before(&at(-4, 0)));
    assert!(at(59, 1_500_000_000).is_before(&at(60, 0)));
    assert!(at(59, 999_999_999).is_before(&at(59, 1_000_000_000)));
}

#[test]
fn wait_is_the_time_left() {
    assert_eq!(
        at(1000, 0).wait_until(&at(1002, 500_000_000)),
        WaitSpan { secs: 2, nanos: 500_000_000 }
    );
    assert_eq!(
        at(1000, 900_000_000).wait_until(&at(1001, 100_000_000)),
        WaitSpan { secs: 0, nanos: 200_000_000 }
    );
    assert_eq!(at(0, 0).wait_until(&at(3600, 0)), WaitSpan { secs: 3600, nanos: 0 });
    assert_eq!(at(-10, 0).wait_until(&at(10, 1)), WaitSpan { secs: 20, nanos: 1 });
}

#[test]
fn wait_is_nothing_for_a_time_that_has_passed() {
    assert_eq!(at(1000, 0).wait_until(&at(1000, 0)), WaitSpan { secs: 0, nanos: 0 });
    assert_eq!(at(1000, 1).wait_until(&at(1000, 0)), WaitSpan { secs: 0, nanos: 0 });
    assert_eq!(at(5000, 0).wait_until(&at(1000, 0)), WaitSpan { secs: 0, nanos: 0 });
}

#[test]
fn wait_spans_the_whole_calendar() {
    let w = at(MIN_SECS, 0).wait_until(&at(MAX_SECS, 999_999_999));
    assert_eq!(w, WaitSpan { secs: (MAX_SECS - MIN_SECS) as u64, nanos: 999_999_999 });
}

fn expected_wait(now: (i64, u32), target: (i64, u32)) -> (u64, u32) {
    let second_of_day = |secs: i64| secs.rem_euclid(86_400);
    let leap = if second_of_day(target.0) > second_of_day(now.0) && now.1 >= 1_000_000_000 {
        1
    } else if second_of_day(target.0) < second_of_day(now.0) && target.1 >= 1_000_000_000 {
        -1
    } else {
        0
    };
    let total = (target.0 as i128 - now.0 as i128 + leap) * 1_000_000_000
        + (target.1 as i128 - now.1 as i128);
    if total < 0 {
        (0, 0)
    } else {
        ((total / 1_000_000_000) as u64, (total % 1_000_000_000) as u32)
    }
}

#[test]
fn wait_counts_a_leap_second_that_lies_between() {
    // From inside a leap second to a later time of day: the rest of the
    // leap second counts.
    let w = at(59, 1_500_000_000).wait_until(&at(100, 0));
    assert_eq!(w, WaitSpan { secs: 40, nanos: 500_000_000 });
    // To a leap second at an earlier time of day, on the next day.
    let w = at(100, 0).wait_until(&at(86_459, 1_200_000_000));
    assert_eq!(w, WaitSpan { secs: 86_359, nanos: 200_000_000 });
    // Neither: plain subtraction.
    let w = at(90_000, 0).wait_until(&at(172_799, 1_200_000_000));
    assert_eq!(w, WaitSpan { secs: 82_800, nanos: 200_000_000 });
    let w = at(100_019, 1_000_000_000).wait_until(&at(172_800, 0));
    assert_eq!(w, WaitSpan { secs: 72_780, nanos: 0 });
}

#[test]
fn wait_agrees_with_chrono_and_with_its_formula() {
    let points: [(i64, u32); 14] = [
        (-86_401, 1_999_999_999),
        (-1, 0),
        (0, 0),
        (59, 1_000_000_000),
        (59, 1_500_000_000),
        (100, 0),
        (86_399, 0),
        (86_399, 1_000_000_000),
        (86_399, 1_500_000_000),
        (86_400, 250_000_000),
        (86_459, 1_200_000_000),
        (100_019, 1_000_000_000),
        (172_799, 1_200_000_000),
        (172_800, 0),
    ];
    for now in points.iter() {
        for target in points.iter() {
            let w = at(now.0, now.1).wait_until(&at(target.0, target.1));
            assert_eq!((w.secs, w.nanos), chrono_wait(*now, *target), "{:?} {:?}", now, target);
            assert_eq!((w.secs, w.nanos), expected_wait(*now, *target), "{:?} {:?}", now, target);
        }
    }
}

#[test]
fn now_follows_the_clock() {
    let before = Utc::now();
    let now = Timestamp::now();
    let after = Utc::now();
    assert!(before.timestamp() <= now.secs());
    assert!(now.secs() <= after.timestamp());
    assert!(now.nanos() < 1_000_000_000);
}

#[test]
fn wait_from_now_is_bounded_by_the_distance() {
    let now = Timestamp::now();
    let target = at(now.secs() + 3600, 0);
    let w = target.wait_from_now();
    assert!(w.secs <= 3600);
    assert!(w.secs >= 3590);
    assert!(w.nanos < 1_000_000_000);
    let past = at(now.secs() - 5, 0);
    assert_eq!(past.wait_from_now(), WaitSpan { secs: 0, nanos: 0 });
}
