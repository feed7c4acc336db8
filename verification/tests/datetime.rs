//! Dates and times.
use postgresql_trino_gateway::datetime::{
    DateTime, TimeOfDay, TimeTz, format_fraction, parse_naive_datetime, parse_trino_date,
    parse_trino_time, parse_trino_timestamptz, parse_trino_timetz, render_timestamptz_text,
    to_days_since_2000, to_micros_of_day, to_micros_since_2000, truncate_fraction,
};

#[test]
fn days_are_counted_from_2000() {
    let days = |s: &str| parse_trino_date(s).map(to_days_since_2000);
    assert_eq!(days("2000-01-01"), Some(0));
    assert_eq!(days("1970-01-01"), Some(-10957));
    assert_eq!(days(" 2026-06-01 "), Some(9648));
    assert_eq!(days("2023-02-29"), None);
    assert_eq!(days("yesterday"), None);
}

#[test]
fn the_first_and_last_dates_are_read() {
    assert_eq!(parse_trino_date("+262142-12-31"), Some(95_745_399));
    assert_eq!(parse_trino_date("-262143-01-01"), Some(-95_746_129));
    assert_eq!(parse_trino_date("+262143-01-01"), None);
}

#[test]
fn timestamps_are_micros_since_2000() {
    let micros = |s: &str| parse_naive_datetime(s).map(to_micros_since_2000);
    assert_eq!(micros("2000-01-01 00:00:00"), Some(0));
    assert_eq!(micros("2000-01-01 00:00:01.000002"), Some(1_000_002));
    assert_eq!(micros("1999-12-31 23:59:59.999999"), Some(-1));
    assert_eq!(micros("2000-01-02"), None);
}

#[test]
fn instants_come_from_offsets_and_zones() {
    let day = 719_163 + 20_605;
    let at = |seconds: u32| Some(DateTime { days: day, seconds, nanos: 0 });
    assert_eq!(parse_trino_timestamptz("2026-06-01 10:30:00 +02:00"), at(8 * 3600 + 1800));
    assert_eq!(parse_trino_timestamptz("2026-06-01 10:30:00-05:30"), at(16 * 3600));
    assert_eq!(parse_trino_timestamptz("2026-06-01 10:30:00 UTC"), at(10 * 3600 + 1800));
    assert_eq!(parse_trino_timestamptz("2026-06-01 10:30:00 America/New_York"), at(14 * 3600 + 1800));
    assert_eq!(parse_trino_timestamptz("2026-06-01 10:30:00 Nowhere/Land"), None);
    assert_eq!(parse_trino_timestamptz("2026-06-01 10:30:00"), None);
}

#[test]
fn instants_are_printed_in_utc() {
    let print = |s: &str| render_timestamptz_text(parse_trino_timestamptz(s).unwrap());
    assert_eq!(print("2026-06-01 00:30:00.120000 +02:00"), "2026-05-31 22:30:00.12+00");
    assert_eq!(print("1999-12-31 23:59:59 UTC"), "1999-12-31 23:59:59+00");
}

#[test]
fn times_are_micros_of_the_day() {
    let micros = |s: &str| parse_trino_time(s).map(to_micros_of_day);
    assert_eq!(micros("00:00:00"), Some(0));
    assert_eq!(micros("23:59:59.999999"), Some(86_399_999_999));
    assert_eq!(micros("10:30"), None);
    assert_eq!(micros("24:00:00"), None);
}

#[test]
fn times_with_an_offset_keep_it() {
    let expected = TimeTz {
        time: TimeOfDay { seconds: 37_800, nanos: 500_000_000 },
        offset_east_seconds: -19_800,
    };
    assert_eq!(parse_trino_timetz("10:30:00.5-05:30"), Some(expected));
    assert_eq!(expected.to_pg_text(), "10:30:00.5-05:30");
    assert_eq!(parse_trino_timetz("10:30:00"), None);
    assert_eq!(parse_trino_timetz("late"), None);
}

#[test]
fn fractions_are_cut_to_nine_digits() {
    assert_eq!(truncate_fraction("1.1234567890123 UTC"), "1.123456789 UTC");
    assert_eq!(truncate_fraction("1.123456789"), "1.123456789");
    assert_eq!(truncate_fraction("1 UTC"), "1 UTC");
    assert_eq!(truncate_fraction("1."), "1.");
}

#[test]
fn fractions_are_printed_without_trailing_zeros() {
    assert_eq!(format_fraction(0), "");
    assert_eq!(format_fraction(999), "");
    assert_eq!(format_fraction(120_000_000), ".12");
    assert_eq!(format_fraction(1_000), ".000001");
}

/// A leap second is counted past the last second of its minute.
#[test]
fn leap_seconds_are_kept() {
    let t = parse_trino_timetz("23:59:60+00:00").unwrap();
    assert_eq!(t.time, TimeOfDay { seconds: 86_399, nanos: 1_000_000_000 });
    assert_eq!(to_micros_of_day(t.time), 86_400_000_000);
    assert_eq!(t.to_pg_text(), "23:59:60.999999+00");
    let before = parse_naive_datetime("1999-12-31 23:59:59.9999995").unwrap();
    assert_eq!(to_micros_since_2000(before), 0);
}
