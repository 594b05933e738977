use chrono::{DateTime, Duration, TimeZone, Utc};
use rokind_reminder::clock::{Timestamp, MAX_SECS, MIN_SECS};

fn at(text: &str) -> Timestamp {
    Timestamp::parse_rfc3339(text).unwrap()
}

fn to_chrono(t: &Timestamp) -> DateTime<Utc> {
    DateTime::from_timestamp(t.secs(), t.nanos()).unwrap()
}

#[test]
fn range_is_that_of_chrono() {
    assert_eq!(DateTime::<Utc>::MIN_UTC.timestamp(), MIN_SECS);
    assert_eq!(DateTime::<Utc>::MAX_UTC.timestamp(), MAX_SECS);
}

#[test]
fn instants_exist_as_in_chrono() {
    let secs = [MIN_SECS - 1, MIN_SECS, -61, -60, -2, -1, 0, 58, 59, 60, 119, MAX_SECS, MAX_SECS + 1];
    let nanos = [0u32, 999_999_999, 1_000_000_000, 1_999_999_999, 2_000_000_000, u32::MAX];
    for s in secs {
        for n in nanos {
            let expected = DateTime::from_timestamp(s, n).is_some();
            assert_eq!(Timestamp::new(s, n).is_some(), expected, "{} {}", s, n);
        }
    }
}

#[test]
fn reading_and_writing() {
    let t = at("2024-05-01T09:30:00+09:00");
    assert_eq!(t.secs(), 1714523400);
    assert_eq!(t.nanos(), 0);
    assert_eq!(t.to_rfc3339(), "2024-05-01T00:30:00+00:00");
    assert_eq!(t.to_rfc3339_seconds(), "2024-05-01T00:30:00Z");
    let t = at("2016-12-31T23:59:60.25Z");
    assert_eq!(t.nanos(), 1_250_000_000);
    assert_eq!(t.to_rfc3339(), "2016-12-31T23:59:60.250+00:00");
    assert_eq!(t.to_rfc3339_seconds(), "2016-12-31T23:59:60Z");
    assert!(Timestamp::parse_rfc3339("2024-05-01").is_none());
    assert!(Timestamp::parse_rfc3339("").is_none());
    assert!(Timestamp::parse_rfc3339("2024-05-01T09:30:00").is_none());
}

#[test]
fn written_instants_read_back() {
    for secs in [-62167219200i64, -1, 0, 1714523400, 253402300799] {
        for nanos in [0u32, 1, 1_000, 1_000_000, 123_456_789, 999_999_999] {
            let t = Timestamp::new(secs, nanos).unwrap();
            assert_eq!(Timestamp::parse_rfc3339(&t.to_rfc3339()), Some(t));
        }
    }
    let leap = Timestamp::new(1483228799, 1_500_000_000).unwrap();
    assert_eq!(Timestamp::parse_rfc3339(&leap.to_rfc3339()), Some(leap));
    let far = Timestamp::new(MAX_SECS, 0).unwrap();
    assert_eq!(Timestamp::parse_rfc3339(&far.to_rfc3339()), None);
}

#[test]
fn differences_are_those_of_chrono() {
    let instants = [
        "2016-12-31T23:59:58Z", "2016-12-31T23:59:59.5Z", "2016-12-31T23:59:60Z",
        "2016-12-31T23:59:60.9Z", "2017-01-01T00:00:00Z", "2017-01-01T00:00:00.2Z",
        "2017-01-01T23:59:60.1Z", "1969-12-31T23:59:59.25Z", "2024-05-01T00:30:00Z",
    ];
    for a in instants {
        for b in instants {
            let (a, b) = (at(a), at(b));
            let delta = to_chrono(&a) - to_chrono(&b);
            let expected = delta.num_seconds() as i128 * 1_000_000_000 + delta.subsec_nanos() as i128;
            assert_eq!(a.nanos_since(&b), expected);
            assert_eq!(a.at_or_before(&b), to_chrono(&a) <= to_chrono(&b));
        }
    }
    assert_eq!(at("2017-01-01T00:00:00Z").nanos_since(&at("2016-12-31T23:59:59.5Z")), 500_000_000);
    assert_eq!(
        at("2016-12-31T23:59:60.5Z").nanos_since(&at("2017-01-01T00:00:00.2Z")),
        300_000_000
    );
}

#[test]
fn shifts_are_those_of_chrono() {
    let instants = ["2016-12-31T23:59:60.5Z", "2016-12-31T23:59:59.5Z", "1970-01-01T00:00:00Z"];
    for t in instants {
        let t = at(t);
        for n in [-86_400i64, -60, -1, 0, 1, 60, 43_200] {
            assert!(t.can_shift(n));
            let expected = to_chrono(&t) + Duration::seconds(n);
            let shifted = t.shift(n);
            assert_eq!(shifted.secs(), expected.timestamp());
            assert_eq!(shifted.nanos(), expected.timestamp_subsec_nanos());
        }
    }
    let plain = at("2024-05-01T00:30:00.5Z");
    assert_eq!(plain.shift(600).nanos_since(&plain), 600_000_000_000);
}

#[test]
fn shifts_out_of_range_are_told() {
    let last = Timestamp::new(MAX_SECS, 0).unwrap();
    let first = Timestamp::new(MIN_SECS, 0).unwrap();
    assert!(!last.can_shift(1));
    assert!(last.can_shift(0));
    assert!(!first.can_shift(-1));
    assert!(!last.can_shift(i64::MAX));
    assert!(!first.can_shift(i64::MIN));
    for n in [-1i64, 0, 1] {
        assert_eq!(last.can_shift(n), to_chrono(&last).checked_add_signed(Duration::seconds(n)).is_some());
        assert_eq!(first.can_shift(n), to_chrono(&first).checked_add_signed(Duration::seconds(n)).is_some());
    }
    let leap = Timestamp::new(MAX_SECS, 1_500_000_000).unwrap();
    assert!(leap.can_shift(0));
    assert!(!leap.can_shift(1));
    assert_eq!(leap.shift(-1).secs(), MAX_SECS);
}

#[test]
fn now_is_the_current_time() {
    let before = Utc::now();
    let now = Timestamp::now();
    let after = Utc::now();
    assert!(before <= to_chrono(&now) && to_chrono(&now) <= after);
    assert!(to_chrono(&now) > Utc.with_ymd_and_hms(2024, 1, 1, 0, 0, 0).unwrap());
}

#[test]
fn whole_seconds_read_back() {
    for secs in [-62167219200i64, -1, 59, 1714523400, 253402300799] {
        for nanos in [0u32, 1, 999_999_999] {
            let t = Timestamp::new(secs, nanos).unwrap();
            let read = Timestamp::parse_rfc3339(&t.to_rfc3339_seconds());
            assert_eq!(read, Timestamp::new(secs, 0));
        }
    }
    let leap = Timestamp::new(1483228799, 1_500_000_000).unwrap();
    let read = Timestamp::parse_rfc3339(&leap.to_rfc3339_seconds());
    assert_eq!(read, Timestamp::new(1483228799, 1_000_000_000));
}
