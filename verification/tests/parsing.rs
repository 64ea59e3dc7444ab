use mpeix::cache::{stored_timestamp, strip_zone_suffix, Entry, Instant};
use mpeix::calendar::{Date, Time};
use mpeix::mapping::{parse_mpei_date, parse_mpei_time};

#[test]
fn dates_and_times_of_the_university() {
    assert_eq!(parse_mpei_date("2024.03.05"), Some(Date { year: 2024, month: 3, day: 5 }));
    assert_eq!(parse_mpei_date("2024-03-05"), None);
    assert_eq!(parse_mpei_date("2024.02.30"), None);
    assert_eq!(parse_mpei_time("09:20"), Some(Time { secs: 9 * 3600 + 20 * 60, nano: 0 }));
    assert_eq!(parse_mpei_time("25:00"), None);
}

#[test]
fn zone_names_are_dropped() {
    assert_eq!(strip_zone_suffix("2023-01-10T12:00:00.123+03:00[Europe/Moscow]"), "2023-01-10T12:00:00.123+03:00");
    assert_eq!(strip_zone_suffix("no bracket"), "no bracket");
    assert_eq!(strip_zone_suffix("[x]"), "");
}

#[test]
fn stored_timestamps() {
    let (d, t) = stored_timestamp("2023-01-10T12:30:15.5+03:00[Europe/Moscow]").unwrap();
    assert_eq!(d, Date { year: 2023, month: 1, day: 10 });
    assert_eq!(t, Time { secs: 12 * 3600 + 30 * 60 + 15, nano: 500_000_000 });
    assert!(stored_timestamp("yesterday").is_none());
}

#[test]
fn stored_entries_without_times_count_as_now() {
    let now = Instant { nanos: 100 };
    let e = Entry::from_stored("v", None, Some(Instant { nanos: 7 }), 3, now);
    assert_eq!(e.created_at, now);
    assert_eq!(e.accessed_at, Instant { nanos: 7 });
    assert_eq!(e.hits, 3);
}
