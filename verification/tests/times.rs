use chrono::{DateTime, Duration, Utc};
use plugdeck::times::{
    after_days, epoch_to_rfc3339, rfc3339, seconds_between, short_time, short_time_at,
    short_time_of, Moment, FIRST_SECOND, LAST_SECOND,
};

fn moment(at: DateTime<Utc>) -> Moment {
    Moment {
        seconds: at.timestamp(),
        nanos: at.timestamp_subsec_nanos(),
    }
}

fn time(value: &str) -> DateTime<Utc> {
    DateTime::parse_from_rfc3339(value)
        .unwrap()
        .with_timezone(&Utc)
}

#[test]
fn the_calendar_ends_where_it_ends() {
    assert!(DateTime::<Utc>::from_timestamp(FIRST_SECOND, 0).is_some());
    assert!(DateTime::<Utc>::from_timestamp(FIRST_SECOND - 1, 0).is_none());
    assert!(DateTime::<Utc>::from_timestamp(LAST_SECOND, 0).is_some());
    assert!(DateTime::<Utc>::from_timestamp(LAST_SECOND + 1, 0).is_none());
    for (seconds, nanos) in [
        (0, 999_999_999),
        (0, 1_000_000_000),
        (59, 1_999_999_999),
        (59, 2_000_000_000),
        (-1, 1_500_000_000),
        (-2, 1_500_000_000),
        (LAST_SECOND, 1_500_000_000),
    ] {
        assert_eq!(
            Moment { seconds, nanos }.is_valid(),
            DateTime::<Utc>::from_timestamp(seconds, nanos).is_some()
        );
    }
}

#[test]
fn spans_are_those_of_the_calendar() {
    let times = [
        time("2026-06-23T10:00:00Z"),
        time("2026-06-23T10:00:00.25Z"),
        time("2026-06-22T23:59:59.75Z"),
        time("1969-12-31T23:59:58.5Z"),
        time("2016-12-31T23:59:60.5Z"),
        time("2016-12-31T12:00:59Z"),
        time("2017-01-01T00:00:00Z"),
    ];
    for a in times {
        for b in times {
            assert_eq!(
                seconds_between(&moment(a), &moment(b)),
                (a - b).num_seconds(),
                "{a} {b}"
            );
            assert_eq!(moment(a).is_before(&moment(b)), a < b);
        }
        assert_eq!(
            after_days(&moment(a), 30),
            moment(a + Duration::days(30))
        );
        assert_eq!(rfc3339(&moment(a)), a.to_rfc3339());
    }
}

#[test]
fn stamps_are_ordered_as_times() {
    let stamps: Vec<String> = [
        (-62167219200, 0),
        (-1, 999_999_999),
        (0, 0),
        (0, 1),
        (0, 1_000),
        (0, 120_000_000),
        (0, 120_000_001),
        (0, 999_000_000),
        (1, 0),
        (59, 999_999_999),
        (59, 1_000_000_000),
        (59, 1_500_000_000),
        (60, 0),
        (253402300799, 999_999_999),
        (253402300799, 1_999_999_999),
    ]
    .into_iter()
    .map(|(seconds, nanos)| rfc3339(&Moment { seconds, nanos }))
    .collect();
    for pair in stamps.windows(2) {
        assert!(pair[0] < pair[1], "{} {}", pair[0], pair[1]);
    }
}

#[test]
fn stamps_of_seconds_are_written() {
    assert_eq!(
        epoch_to_rfc3339(1782210186).as_deref(),
        Some("2026-06-23T10:23:06+00:00")
    );
    assert_eq!(epoch_to_rfc3339(i64::MAX), None);
    assert_eq!(epoch_to_rfc3339(FIRST_SECOND - 1), None);
}

#[test]
fn times_are_told_in_short() {
    let now = moment(time("2026-06-23T10:00:00Z"));
    assert_eq!(short_time_at("2026-06-23T10:59:59Z", &now), "in 59m");
    assert_eq!(short_time_at("2026-06-23T10:00:59Z", &now), "just now");
    assert_eq!(short_time_at("2026-06-23T09:59:01Z", &now), "just now");
    assert_eq!(short_time_at("2026-06-23T09:59:00Z", &now), "1m ago");
    assert_eq!(short_time_at("2026-06-23T12:00:00+02:00", &now), "just now");
    assert_eq!(short_time_at("2026-06-21T10:00:01Z", &now), "47h ago");
    assert_eq!(short_time_at("2026-06-21T10:00:00Z", &now), "Jun 21 10:00");
    assert_eq!(short_time_at("2026-06-26T10:00:00Z", &now), "in 3d");
    assert_eq!(short_time_at("  ", &now), "unknown");
    assert_eq!(short_time_at("soon", &now), "soon");
    assert_eq!(short_time_of("x", None, &now), "x");
    assert_eq!(
        short_time_of("x", Some(Moment { seconds: now.seconds + 60, nanos: 0 }), &now),
        "in 1m"
    );
    assert_eq!(short_time("2000-01-02T03:04:05Z"), "Jan 2 03:04");
    assert_eq!(short_time(&Utc::now().to_rfc3339()), "just now");
}
