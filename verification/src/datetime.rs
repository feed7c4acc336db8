//! Dates and times: reading Trino's spellings, writing PostgreSQL's.
use chrono::{Datelike, NaiveDate, NaiveDateTime, NaiveTime, TimeZone, Timelike};
use vstd::prelude::*;

use crate::text;
use crate::text::{
    append_chars, chars_of, decimal_chars, digit_run_from, find_chars, rfind_char, slice_chars,
    string_of, strip_trailing, trim_chars,
};

verus! {

/// A date and time of day without a zone.
#[derive(Clone, Copy, Debug, PartialEq, Eq, Structural)]
pub struct DateTime {
    /// Days, with January 1 of year 1 as day 1.
    pub days: i32,
    /// Whole seconds since midnight.
    pub seconds: u32,
    /// Nanoseconds past the second; a leap second runs past one second.
    pub nanos: u32,
}

/// A date and time written with an offset from UTC.
#[derive(Clone, Copy, Debug, PartialEq, Eq, Structural)]
pub struct OffsetDateTime {
    /// The instant, in UTC.
    pub utc: DateTime,
    /// The same instant on the clock it was written with.
    pub local: DateTime,
    /// Seconds east of UTC.
    pub offset_east_seconds: i32,
}

/// A time of day.
#[derive(Clone, Copy, Debug, PartialEq, Eq, Structural)]
pub struct TimeOfDay {
    pub seconds: u32,
    pub nanos: u32,
}

/// Day numbers of the dates that `chrono` can hold.
pub open spec fn valid_day(days: i32) -> bool {
    -95_746_129 <= days <= 95_745_399
}

impl DateTime {
    /// A date that `chrono` can hold and a time within its day.
    pub open spec fn valid(self) -> bool {
        valid_day(self.days) && self.seconds < 86_400 && self.nanos < 2_000_000_000
    }
}

impl TimeOfDay {
    /// A time within the day.
    pub open spec fn valid(self) -> bool {
        self.seconds < 86_400 && self.nanos < 2_000_000_000
    }
}

impl OffsetDateTime {
    /// Both clock readings are valid, and the offset is less than a day.
    pub open spec fn valid(self) -> bool {
        self.utc.valid() && self.local.valid() && -86_400 < self.offset_east_seconds < 86_400
    }
}

/// What a text reads as under a `chrono` date-and-time format.
pub uninterp spec fn parsed_local(text: Seq<char>, format: Seq<char>) -> Option<DateTime>;

/// What a text reads as under a `chrono` format with an offset.
pub uninterp spec fn parsed_with_offset(text: Seq<char>, format: Seq<char>) -> Option<
    OffsetDateTime,
>;

/// The day that a text reads as under a `chrono` date format.
pub uninterp spec fn parsed_date(text: Seq<char>, format: Seq<char>) -> Option<i32>;

/// The time of day that a text reads as under a `chrono` time format.
pub uninterp spec fn parsed_time(text: Seq<char>, format: Seq<char>) -> Option<TimeOfDay>;

/// The instant at which the clocks of a named zone showed a local time, where
/// the zone is known and there is exactly one such instant.
pub uninterp spec fn instant_in_zone(zone: Seq<char>, local: DateTime) -> Option<DateTime>;

/// A date and time as `chrono` prints it under `%Y-%m-%d %H:%M:%S`.
pub uninterp spec fn civil_text(value: DateTime) -> Seq<char>;

/// Reads a date and time: `NaiveDateTime::parse_from_str` of `chrono`. The
/// result is named; what it holds stays within the ranges that `chrono`
/// documents.
#[verifier::external_body]
fn parse_local(text: &str, format: &str) -> (r: Option<DateTime>)
    ensures
        r == parsed_local(text@, format@),
        r matches Some(t) ==> t.valid(),
{
    let t = NaiveDateTime::parse_from_str(text, format).ok()?;
    Some(
        DateTime {
            days: t.num_days_from_ce(),
            seconds: t.num_seconds_from_midnight(),
            nanos: t.nanosecond(),
        },
    )
}

/// Reads a date and time with an offset: `DateTime::parse_from_str` of
/// `chrono`, whose `naive_utc`, `naive_local` and `offset` are kept. The
/// result is named; what it holds stays within the ranges that `chrono`
/// documents.
#[verifier::external_body]
fn parse_with_offset(text: &str, format: &str) -> (r: Option<OffsetDateTime>)
    ensures
        r == parsed_with_offset(text@, format@),
        r matches Some(t) ==> t.valid(),
{
    let parsed = chrono::DateTime::parse_from_str(text, format).ok()?;
    let plain = |t: NaiveDateTime| DateTime {
        days: t.num_days_from_ce(),
        seconds: t.num_seconds_from_midnight(),
        nanos: t.nanosecond(),
    };
    let offset_east_seconds = parsed.offset().local_minus_utc();
    let (utc, local) = (plain(parsed.naive_utc()), plain(parsed.naive_local()));
    Some(OffsetDateTime { utc, local, offset_east_seconds })
}

/// Reads a date: `NaiveDate::parse_from_str` of `chrono`, as its day number.
/// The result is named; it stays within the range that `chrono` documents.
#[verifier::external_body]
fn parse_date(text: &str, format: &str) -> (r: Option<i32>)
    ensures
        r == parsed_date(text@, format@),
        r matches Some(d) ==> valid_day(d),
{
    Some(NaiveDate::parse_from_str(text, format).ok()?.num_days_from_ce())
}

/// Reads a time of day: `NaiveTime::parse_from_str` of `chrono`. The result is
/// named; it stays within the range that `chrono` documents.
#[verifier::external_body]
fn parse_time(text: &str, format: &str) -> (r: Option<TimeOfDay>)
    ensures
        r == parsed_time(text@, format@),
        r matches Some(t) ==> t.valid(),
{
    let t = NaiveTime::parse_from_str(text, format).ok()?;
    Some(TimeOfDay { seconds: t.num_seconds_from_midnight(), nanos: t.nanosecond() })
}

/// Finds the instant of a local time in a named zone: `Tz::from_str` of
/// `chrono-tz`, then `TimeZone::from_local_datetime` and `single` of `chrono`.
/// The result is named; there is none for an unknown zone, nor for a local
/// time that the zone's clocks showed twice or never.
#[verifier::external_body]
fn local_in_zone(zone: &str, local: DateTime) -> (r: Option<DateTime>)
    requires
        local.valid(),
    ensures
        r == instant_in_zone(zone@, local),
        r matches Some(t) ==> t.valid(),
{
    let tz: chrono_tz::Tz = zone.parse().ok()?;
    let time = NaiveTime::from_num_seconds_from_midnight_opt(local.seconds, 0)?;
    let time = time.with_nanosecond(local.nanos)?;
    let naive = NaiveDate::from_num_days_from_ce_opt(local.days)?.and_time(time);
    let t = tz.from_local_datetime(&naive).single()?.naive_utc();
    Some(
        DateTime {
            days: t.num_days_from_ce(),
            seconds: t.num_seconds_from_midnight(),
            nanos: t.nanosecond(),
        },
    )
}

/// Prints a date and time: `NaiveDateTime::format` of `chrono` with
/// `%Y-%m-%d %H:%M:%S`, the one format that is asked for. The result is named.
#[verifier::external_body]
fn print_civil(value: DateTime, format: &str) -> (r: String)
    requires
        value.valid(),
        format@ == "%Y-%m-%d %H:%M:%S"@,
    ensures
        r@ == civil_text(value),
{
    let time = NaiveTime::from_num_seconds_from_midnight_opt(value.seconds, 0).unwrap();
    let time = time.with_nanosecond(value.nanos).unwrap();
    let date = NaiveDate::from_num_days_from_ce_opt(value.days).unwrap();
    date.and_time(time).format(format).to_string()
}

/// A text whose fractional-second field has at most nine digits.
pub open spec fn fraction_truncated(s: Seq<char>) -> Seq<char> {
    match text::find(s, seq!['.']) {
        None => s,
        Some(dot) => {
            let run = text::digit_run(s, dot + 1);
            if run <= 9 {
                s
            } else {
                s.take(dot + 10) + s.skip(dot + 1 + run)
            }
        },
    }
}

/// Shortens a fractional-second field longer than nine digits.
///
/// Trino goes to picosecond precision, while `chrono` reads at most nine
/// digits and takes the rest for trailing garbage. PostgreSQL stores
/// microseconds, so the dropped digits could not have reached the client.
pub fn truncate_fraction(s: &str) -> (r: String)
    ensures
        r@ == fraction_truncated(s@),
{
    let v = chars_of(s);
    let n: usize = v.len();
    let at = find_chars(v.as_slice(), ".");
    proof {
        reveal_strlit(".");
        assert("."@ =~= seq!['.']);
    }
    match at {
        None => s.to_owned(),
        Some(dot) => {
            let run: usize = digit_run_from(v.as_slice(), dot + 1);
            if run <= 9 {
                s.to_owned()
            } else {
                let mut out = slice_chars(v.as_slice(), 0, dot + 10);
                let rest = slice_chars(v.as_slice(), dot + 1 + run, n);
                append_chars(&mut out, rest.as_slice());
                assert(out@ =~= fraction_truncated(s@));
                string_of(out.as_slice())
            }
        },
    }
}

/// Trino's date and time, with a space or the ISO 8601 `T` between them.
pub open spec fn naive_datetime(s: Seq<char>) -> Option<DateTime> {
    let t = fraction_truncated(s);
    match parsed_local(t, "%Y-%m-%d %H:%M:%S%.f"@) {
        Some(dt) => Some(dt),
        None => parsed_local(t, "%Y-%m-%dT%H:%M:%S%.f"@),
    }
}

/// Reads a date and time without a zone.
pub fn parse_naive_datetime(s: &str) -> (r: Option<DateTime>)
    ensures
        r == naive_datetime(s@),
        r matches Some(t) ==> t.valid(),
{
    let t = truncate_fraction(s);
    match parse_local(t.as_str(), "%Y-%m-%d %H:%M:%S%.f") {
        Some(dt) => Some(dt),
        None => parse_local(t.as_str(), "%Y-%m-%dT%H:%M:%S%.f"),
    }
}

/// The instant that a text with a fixed offset stands for.
pub open spec fn offset_instant(t: Seq<char>) -> Option<DateTime> {
    if let Some(dt) = parsed_with_offset(t, "%Y-%m-%d %H:%M:%S%.f%#z"@) {
        Some(dt.utc)
    } else if let Some(dt) = parsed_with_offset(t, "%Y-%m-%d %H:%M:%S%.f %#z"@) {
        Some(dt.utc)
    } else if let Some(dt) = parsed_with_offset(t, "%Y-%m-%dT%H:%M:%S%.f%#z"@) {
        Some(dt.utc)
    } else if let Some(dt) = parsed_with_offset(t, "%Y-%m-%dT%H:%M:%S%.f %#z"@) {
        Some(dt.utc)
    } else {
        None
    }
}

/// The instant that a text with a named zone, behind its last space, stands for.
pub open spec fn zone_instant(t: Seq<char>) -> Option<DateTime> {
    match text::rfind(t, ' ') {
        None => None,
        Some(at) => match naive_datetime(text::trimmed(t.take(at))) {
            None => None,
            Some(local) => instant_in_zone(t.skip(at + 1), local),
        },
    }
}

/// The instant that Trino's spelling of a `timestamp with time zone` stands for.
pub open spec fn timestamptz(s: Seq<char>) -> Option<DateTime> {
    let t = fraction_truncated(text::trimmed(s));
    match offset_instant(t) {
        Some(dt) => Some(dt),
        None => zone_instant(t),
    }
}

/// Reads a `timestamp with time zone`.
///
/// Trino carries a zone per value and writes it either as a fixed offset
/// (`2026-06-01 10:30:00.000000 +02:00`, sometimes without the space) or as a
/// named zone (`2026-06-01 10:30:00.000000 Europe/Berlin`). PostgreSQL's type
/// is a bare instant, so both shapes collapse to UTC. A named zone is local
/// wall-clock time: where the clocks showed it twice or never, nothing is
/// read rather than the value shifted by an hour.
pub fn parse_trino_timestamptz(s: &str) -> (r: Option<DateTime>)
    ensures
        r == timestamptz(s@),
        r matches Some(t) ==> t.valid(),
{
    let v = trim_chars(chars_of(s).as_slice());
    let t = truncate_fraction(string_of(v.as_slice()).as_str());
    if let Some(dt) = parse_with_offset(t.as_str(), "%Y-%m-%d %H:%M:%S%.f%#z") {
        return Some(dt.utc);
    }
    if let Some(dt) = parse_with_offset(t.as_str(), "%Y-%m-%d %H:%M:%S%.f %#z") {
        return Some(dt.utc);
    }
    if let Some(dt) = parse_with_offset(t.as_str(), "%Y-%m-%dT%H:%M:%S%.f%#z") {
        return Some(dt.utc);
    }
    if let Some(dt) = parse_with_offset(t.as_str(), "%Y-%m-%dT%H:%M:%S%.f %#z") {
        return Some(dt.utc);
    }
    let w = chars_of(t.as_str());
    let n: usize = w.len();
    match rfind_char(w.as_slice(), ' ') {
        None => None,
        Some(at) => {
            let stamp = slice_chars(w.as_slice(), 0, at);
            let zone = slice_chars(w.as_slice(), at + 1, n);
            assert(stamp@ =~= t@.take(at as int));
            assert(zone@ =~= t@.skip(at + 1));
            let stamp = trim_chars(stamp.as_slice());
            match parse_naive_datetime(string_of(stamp.as_slice()).as_str()) {
                None => None,
                Some(local) => local_in_zone(string_of(zone.as_slice()).as_str(), local),
            }
        },
    }
}

/// The day that Trino's spelling of a `date` stands for.
pub open spec fn date(s: Seq<char>) -> Option<i32> {
    parsed_date(text::trimmed(s), "%Y-%m-%d"@)
}

/// Reads a `date`.
pub fn parse_trino_date(s: &str) -> (r: Option<i32>)
    ensures
        r == date(s@),
        r matches Some(d) ==> valid_day(d),
{
    let v = trim_chars(chars_of(s).as_slice());
    parse_date(string_of(v.as_slice()).as_str(), "%Y-%m-%d")
}

/// The time of day that Trino's spelling of a `time` stands for.
pub open spec fn time(s: Seq<char>) -> Option<TimeOfDay> {
    parsed_time(fraction_truncated(text::trimmed(s)), "%H:%M:%S%.f"@)
}

/// Reads a `time`.
pub fn parse_trino_time(s: &str) -> (r: Option<TimeOfDay>)
    ensures
        r == time(s@),
        r matches Some(t) ==> t.valid(),
{
    let v = trim_chars(chars_of(s).as_slice());
    let t = truncate_fraction(string_of(v.as_slice()).as_str());
    parse_time(t.as_str(), "%H:%M:%S%.f")
}

/// A PostgreSQL `timetz`: a time of day and the offset it was written with.
#[derive(Clone, Copy, Debug, PartialEq, Eq, Structural)]
pub struct TimeTz {
    pub time: TimeOfDay,
    /// Seconds east of UTC, the opposite of the convention on the wire.
    pub offset_east_seconds: i32,
}

impl TimeTz {
    /// A time within the day, and an offset of less than a day.
    pub open spec fn valid(self) -> bool {
        self.time.valid() && -86_400 < self.offset_east_seconds < 86_400
    }

    /// The time of day and the offset of a date and time with an offset.
    pub open spec fn of(dt: OffsetDateTime) -> TimeTz {
        TimeTz {
            time: TimeOfDay { seconds: dt.local.seconds, nanos: dt.local.nanos },
            offset_east_seconds: dt.offset_east_seconds,
        }
    }
}

/// The `timetz` that Trino's spelling of a `time with time zone` stands for.
pub open spec fn timetz(s: Seq<char>) -> Option<TimeTz> {
    let dated = "2000-01-01 "@ + fraction_truncated(text::trimmed(s));
    if let Some(dt) = parsed_with_offset(dated, "%Y-%m-%d %H:%M:%S%.f%#z"@) {
        Some(TimeTz::of(dt))
    } else if let Some(dt) = parsed_with_offset(dated, "%Y-%m-%d %H:%M:%S%.f %#z"@) {
        Some(TimeTz::of(dt))
    } else {
        None
    }
}

/// Reads a `time with time zone`, such as `10:30:00.000000+02:00`.
///
/// Trino only ever carries a fixed offset for this type, so the offset is
/// mandatory. The value is lent a date so that it can be read as a date and
/// time; the time on the clock and the offset are kept.
pub fn parse_trino_timetz(s: &str) -> (r: Option<TimeTz>)
    ensures
        r == timetz(s@),
        r matches Some(t) ==> t.valid(),
{
    let v = trim_chars(chars_of(s).as_slice());
    let t = truncate_fraction(string_of(v.as_slice()).as_str());
    let mut dated = "2000-01-01 ".to_owned();
    dated.append(t.as_str());
    let found = match parse_with_offset(dated.as_str(), "%Y-%m-%d %H:%M:%S%.f%#z") {
        Some(dt) => Some(dt),
        None => parse_with_offset(dated.as_str(), "%Y-%m-%d %H:%M:%S%.f %#z"),
    };
    match found {
        Some(dt) => Some(
            TimeTz {
                time: TimeOfDay { seconds: dt.local.seconds, nanos: dt.local.nanos },
                offset_east_seconds: dt.offset_east_seconds,
            },
        ),
        None => None,
    }
}

/// `n` in decimal, with zeros in front up to `width` digits.
pub open spec fn padded(n: nat, width: nat) -> Seq<char> {
    let d = text::decimal(n);
    Seq::new((if d.len() < width { width - d.len() } else { 0 }) as nat, |i: int| '0') + d
}

/// `n` in decimal, with zeros in front up to `width` digits.
fn padded_chars(n: u64, width: usize) -> (r: Vec<char>)
    ensures
        r@ == padded(n as nat, width as nat),
{
    let d = decimal_chars(n);
    let mut r: Vec<char> = Vec::new();
    let zeros: usize = if d.len() < width {
        width - d.len()
    } else {
        0
    };
    let mut i: usize = 0;
    while i < zeros
        invariant
            i <= zeros,
            r@ == Seq::new(i as nat, |k: int| '0'),
        decreases zeros - i,
    {
        r.push('0');
        i += 1;
        assert(r@ =~= Seq::new(i as nat, |k: int| '0'));
    }
    append_chars(&mut r, d.as_slice());
    r
}

/// PostgreSQL's fractional seconds: microseconds, without trailing zeros, and
/// nothing at all where they are zero. A leap second counts as the last
/// microsecond before the next second.
pub open spec fn fraction_text(nanos: u32) -> Seq<char> {
    let micros = if nanos / 1000 > 999_999 {
        999_999nat
    } else {
        (nanos / 1000) as nat
    };
    if micros == 0 {
        Seq::empty()
    } else {
        text::without_trailing(seq!['.'] + padded(micros, 6), '0')
    }
}

/// PostgreSQL's fractional-second spelling.
pub fn format_fraction(nanoseconds: u32) -> (r: String)
    ensures
        r@ == fraction_text(nanoseconds),
{
    let mut micros: u32 = nanoseconds / 1000;
    if micros > 999_999 {
        micros = 999_999;
    }
    if micros == 0 {
        return String::new();
    }
    let mut v: Vec<char> = Vec::new();
    v.push('.');
    let digits = padded_chars(micros as u64, 6);
    append_chars(&mut v, digits.as_slice());
    assert(v@ =~= seq!['.'] + padded(micros as nat, 6));
    strip_trailing(&mut v, '0');
    string_of(v.as_slice())
}

/// PostgreSQL's offset spelling: `+02`, widened to `+02:30` or `+02:30:15`
/// only where the finer fields carry something.
pub open spec fn offset_text(seconds_east: i32) -> Seq<char> {
    let total = if seconds_east < 0 {
        (-seconds_east) as nat
    } else {
        seconds_east as nat
    };
    let hours = seq![
        if seconds_east < 0 {
            '-'
        } else {
            '+'
        },
    ] + padded(total / 3600, 2);
    let minutes = seq![':'] + padded((total % 3600) / 60, 2);
    let seconds = seq![':'] + padded(total % 60, 2);
    if total % 60 != 0 {
        hours + minutes + seconds
    } else if (total % 3600) / 60 != 0 {
        hours + minutes
    } else {
        hours
    }
}

/// PostgreSQL's offset spelling.
pub fn format_utc_offset(seconds_east: i32) -> (r: String)
    ensures
        r@ == offset_text(seconds_east),
{
    let total: u64 = if seconds_east < 0 {
        (-(seconds_east as i64)) as u64
    } else {
        seconds_east as u64
    };
    let mut v: Vec<char> = Vec::new();
    v.push(
        if seconds_east < 0 {
            '-'
        } else {
            '+'
        },
    );
    append_chars(&mut v, padded_chars(total / 3600, 2).as_slice());
    let minutes: u64 = (total % 3600) / 60;
    let seconds: u64 = total % 60;
    if seconds != 0 || minutes != 0 {
        v.push(':');
        append_chars(&mut v, padded_chars(minutes, 2).as_slice());
    }
    if seconds != 0 {
        v.push(':');
        append_chars(&mut v, padded_chars(seconds, 2).as_slice());
    }
    assert(v@ =~= offset_text(seconds_east));
    string_of(v.as_slice())
}

/// A time of day as `HH:MM:SS`; a leap second shows as second 60.
pub open spec fn clock_text(t: TimeOfDay) -> Seq<char> {
    let second = (t.seconds % 60) as nat + (if t.nanos >= 1_000_000_000 {
        1nat
    } else {
        0nat
    });
    padded((t.seconds / 3600) as nat, 2) + seq![':'] + padded(((t.seconds / 60) % 60) as nat, 2)
        + seq![':'] + padded(second, 2)
}

/// A time of day as `HH:MM:SS`.
fn clock_chars(t: TimeOfDay) -> (r: Vec<char>)
    ensures
        r@ == clock_text(t),
{
    let mut second: u64 = (t.seconds % 60) as u64;
    if t.nanos >= 1_000_000_000 {
        second += 1;
    }
    let mut v = padded_chars((t.seconds / 3600) as u64, 2);
    v.push(':');
    append_chars(&mut v, padded_chars(((t.seconds / 60) % 60) as u64, 2).as_slice());
    v.push(':');
    append_chars(&mut v, padded_chars(second, 2).as_slice());
    assert(v@ =~= clock_text(t));
    v
}

/// PostgreSQL's text form of a `timetz`, such as `10:30:00+02`.
pub open spec fn timetz_text(t: TimeTz) -> Seq<char> {
    clock_text(t.time) + fraction_text(t.time.nanos) + offset_text(t.offset_east_seconds)
}

impl TimeTz {
    /// PostgreSQL's text form.
    pub fn to_pg_text(&self) -> (r: String)
        ensures
            r@ == timetz_text(*self),
    {
        let mut r = string_of(clock_chars(self.time).as_slice());
        r.append(format_fraction(self.time.nanos).as_str());
        r.append(format_utc_offset(self.offset_east_seconds).as_str());
        r
    }
}

/// PostgreSQL's text form of an instant in a session whose zone is UTC.
pub open spec fn timestamptz_text(dt: DateTime) -> Seq<char> {
    civil_text(dt) + fraction_text(dt.nanos) + "+00"@
}

/// PostgreSQL prints `timestamptz` in the session time zone. The gateway pins
/// that to UTC, so every instant goes out as UTC.
pub fn render_timestamptz_text(dt: DateTime) -> (r: String)
    requires
        dt.valid(),
    ensures
        r@ == timestamptz_text(dt),
{
    let mut r = print_civil(dt, "%Y-%m-%d %H:%M:%S");
    r.append(format_fraction(dt.nanos).as_str());
    r.append("+00");
    r
}

/// The day on which PostgreSQL's count begins, 2000-01-01.
pub const POSTGRES_EPOCH_DAY: i32 = 730_120;

/// Days since 2000-01-01.
pub open spec fn days_since_2000(days: i32) -> int {
    days - POSTGRES_EPOCH_DAY
}

/// Nanoseconds since the start of 2000-01-01.
pub open spec fn nanos_since_2000(t: DateTime) -> int {
    (days_since_2000(t.days) * 86_400 + t.seconds) * 1_000_000_000 + t.nanos
}

/// Division that rounds toward zero.
pub open spec fn quotient(n: int, d: int) -> int {
    if n < 0 {
        -((-n) / d)
    } else {
        n / d
    }
}

/// Microseconds since the start of 2000-01-01, rounded toward zero.
pub open spec fn micros_since_2000(t: DateTime) -> int {
    quotient(nanos_since_2000(t), 1000)
}

/// Microseconds since the start of 2000-01-01.
pub fn to_micros_since_2000(t: DateTime) -> (r: i64)
    requires
        t.valid(),
    ensures
        r == micros_since_2000(t),
        ({
            let nanos = ((t.days - 730_120) * 86_400 + t.seconds) * 1_000_000_000 + t.nanos;
            &&& nanos >= 0 ==> r * 1000 <= nanos < (r + 1) * 1000
            &&& nanos < 0 ==> (r - 1) * 1000 < nanos <= r * 1000
        }),
{
    let days: i128 = (t.days as i128) - (POSTGRES_EPOCH_DAY as i128);
    let nanos: i128 = (days * 86_400 + t.seconds as i128) * 1_000_000_000 + t.nanos as i128;
    if nanos < 0 {
        let magnitude: i128 = (-nanos) / 1000;
        -(magnitude as i64)
    } else {
        (nanos / 1000) as i64
    }
}

/// Days since 2000-01-01.
pub fn to_days_since_2000(days: i32) -> (r: i32)
    requires
        valid_day(days),
    ensures
        r == days_since_2000(days),
        r + 730_120 == days,
{
    days - POSTGRES_EPOCH_DAY
}

/// Microseconds since midnight.
pub open spec fn micros_of_day(t: TimeOfDay) -> int {
    t.seconds * 1_000_000 + t.nanos as int / 1000
}

/// Microseconds since midnight.
pub fn to_micros_of_day(t: TimeOfDay) -> (r: i64)
    ensures
        r == micros_of_day(t),
        r * 1000 <= t.seconds * 1_000_000_000 + t.nanos < (r + 1) * 1000,
{
    (t.seconds as i64) * 1_000_000 + (t.nanos / 1000) as i64
}

/// A date and time goes out as the whole microseconds that lie between it and the
/// start of 2000-01-01, which is day 730,120: what is cut off is less than one.
pub proof fn micros_count_from_2000(t: DateTime)
    ensures
        ({
            let nanos = ((t.days - 730_120) * 86_400 + t.seconds) * 1_000_000_000 + t.nanos;
            let n = micros_since_2000(t);
            &&& nanos >= 0 ==> n * 1000 <= nanos < (n + 1) * 1000
            &&& nanos < 0 ==> (n - 1) * 1000 < nanos <= n * 1000
        }),
{
}

/// The same time of day some days later is as many days of microseconds later,
/// before 2000 and after it alike.
pub proof fn days_are_days_of_micros(t: DateTime, days: i32)
    requires
        t.nanos % 1000 == 0,
        i32::MIN <= t.days + days <= i32::MAX,
    ensures
        micros_since_2000(DateTime { days: (t.days + days) as i32, ..t }) == micros_since_2000(t)
            + days * 86_400_000_000,
        days_since_2000((t.days + days) as i32) == days_since_2000(t.days) + days,
        days_since_2000(730_120) == 0,
{
    let later = DateTime { days: (t.days + days) as i32, ..t };
    micros_count_from_2000(t);
    micros_count_from_2000(later);
    let k = t.nanos as int / 1000;
    assert(t.nanos == k * 1000);
    let a = ((t.days - 730_120) * 86_400 + t.seconds) * 1_000_000 + k;
    let b = ((later.days - 730_120) * 86_400 + t.seconds) * 1_000_000 + k;
    assert(micros_since_2000(t) == a);
    assert(micros_since_2000(later) == b);
    assert(b == a + days * 86_400_000_000);
}

/// Two dates and times with whole microseconds have the same value only where they
/// are the same.
pub proof fn micros_tell_times_apart(a: DateTime, b: DateTime)
    requires
        a.seconds < 86_400 && b.seconds < 86_400,
        a.nanos < 1_000_000_000 && b.nanos < 1_000_000_000,
        a.nanos % 1000 == 0 && b.nanos % 1000 == 0,
        micros_since_2000(a) == micros_since_2000(b),
    ensures
        a == b,
{
    micros_count_from_2000(a);
    micros_count_from_2000(b);
    let j = a.nanos as int / 1000;
    let k = b.nanos as int / 1000;
    assert(a.nanos == j * 1000 && b.nanos == k * 1000);
    assert(((a.days - b.days) * 86_400 + a.seconds - b.seconds) * 1_000_000 == k - j);
    assert(-1_000_000 < k - j < 1_000_000);
    assert((a.days - b.days) * 86_400 + a.seconds - b.seconds == 0);
    assert(a.days == b.days);
}

/// A time of day goes out as the whole microseconds since midnight.
pub proof fn micros_count_from_midnight(t: TimeOfDay)
    ensures
        micros_of_day(t) * 1000 <= t.seconds * 1_000_000_000 + t.nanos < (micros_of_day(t) + 1)
            * 1000,
{
}

/// A run of digits ends where something else follows.
proof fn digits_run_on(s: Seq<char>, i: int, n: nat)
    requires
        0 <= i,
        i + n <= s.len(),
        forall|k: int| i <= k < i + n ==> '0' <= #[trigger] s[k] <= '9',
        i + n == s.len() || !('0' <= s[i + n] <= '9'),
    ensures
        text::digit_run(s, i) == n,
    decreases n,
{
    if n > 0 {
        assert('0' <= s[i] <= '9');
        digits_run_on(s, i + 1, (n - 1) as nat);
    }
}

/// Of a fraction of a second the first nine digits are kept; what stands before
/// and behind the fraction is not touched.
pub proof fn fractions_keep_nine_digits(head: Seq<char>, digits: Seq<char>, rest: Seq<char>)
    requires
        !head.contains('.'),
        text::all_digits(digits),
        rest.len() == 0 || !('0' <= rest[0] <= '9'),
    ensures
        fraction_truncated(head + seq!['.'] + digits + rest) == head + seq!['.'] + (
        if digits.len() > 9 {
            digits.take(9)
        } else {
            digits
        }) + rest,
        fraction_truncated(head) == head,
{
    let dot = seq!['.'];
    let s = head + dot + digits + rest;
    text::find_from_is_first(s, dot, 0);
    text::find_from_is_first(head, dot, 0);
    let n = head.len() as int;
    assert(text::occurs_at(s, dot, n)) by {
        assert(s.subrange(n, n + 1) =~= dot);
    }
    assert forall|j: int| 0 <= j < n implies !text::occurs_at(s, dot, j) by {
        if text::occurs_at(s, dot, j) {
            assert(s.subrange(j, j + 1)[0] == '.');
            assert(head[j] == '.');
        }
    }
    assert forall|j: int| !text::occurs_at(head, dot, j) by {
        if text::occurs_at(head, dot, j) {
            assert(head.subrange(j, j + 1)[0] == '.');
            assert(head[j] == '.');
        }
    }
    assert(text::find(s, dot) == Some(n));
    assert(text::find(head, dot) is None);
    assert forall|k: int| n + 1 <= k < n + 1 + digits.len() implies '0' <= #[trigger] s[k] <= '9' by {
        assert(s[k] == digits[k - n - 1]);
    }
    digits_run_on(s, n + 1, digits.len());
    if digits.len() > 9 {
        assert(s.take(n + 10) =~= head + dot + digits.take(9));
        assert(s.skip(n + 1 + digits.len()) =~= rest);
    }
}

/// Digits that are filled up with zeros have the width asked for, and keep their
/// value.
proof fn padding_keeps_value(n: nat, width: nat)
    requires
        width >= 1,
        n < text::ten_to(width),
    ensures
        padded(n, width).len() == width,
        text::all_digits(padded(n, width)),
        text::digits_value(padded(n, width)) == n,
{
    text::digits_fit(n, width);
    text::decimals_read_back(n);
    let d = text::decimal(n);
    let zeros = Seq::new((width - d.len()) as nat, |i: int| '0');
    text::zeros_add_nothing(zeros, d);
    assert(padded(n, width) =~= zeros + d);
}

/// Two digits have room for a number below a hundred.
proof fn two_digits(n: nat)
    requires
        n < 100,
    ensures
        padded(n, 2).len() == 2,
        text::all_digits(padded(n, 2)),
        text::digits_value(padded(n, 2)) == n,
{
    reveal_with_fuel(text::ten_to, 3);
    padding_keeps_value(n, 2);
}

/// Zeros that are dropped at the end of digits scale their value down.
proof fn dropped_zeros_scale(d: Seq<char>)
    requires
        text::all_digits(d),
    ensures
        ({
            let kept = text::without_trailing(d, '0');
            &&& kept.len() <= d.len()
            &&& text::all_digits(kept)
            &&& text::digits_value(d) == text::digits_value(kept) * text::ten_to(
                (d.len() - kept.len()) as nat,
            )
            &&& kept.len() > 0 ==> kept.last() != '0'
            &&& text::without_trailing(seq!['.'] + d, '0') == seq!['.'] + kept
        }),
    decreases d.len(),
{
    let kept = text::without_trailing(d, '0');
    if d.len() > 0 && d.last() == '0' {
        dropped_zeros_scale(d.drop_last());
        let n = (d.len() - kept.len()) as nat;
        assert(text::ten_to(n) == 10 * text::ten_to((n - 1) as nat));
        assert(text::digits_value(d) == text::digits_value(d.drop_last()) * 10);
        let v = text::digits_value(kept);
        let p = text::ten_to((n - 1) as nat);
        assert(v * p * 10 == v * (10 * p)) by (nonlinear_arith);
        assert((seq!['.'] + d).drop_last() =~= seq!['.'] + d.drop_last());
    } else {
        assert(text::ten_to(0) == 1);
        assert(text::digits_value(kept) * 1 == text::digits_value(kept));
        if d.len() == 0 {
            assert(seq!['.'] + d =~= seq!['.']);
        } else {
            assert((seq!['.'] + d).last() == d.last());
        }
    }
}

/// A fraction of a second reads back as its microseconds, in the fewest digits:
/// there is nothing where there is no microsecond, and no zero at the end.
pub proof fn fractions_read_back(nanos: u32)
    requires
        nanos < 1_000_000_000,
    ensures
        ({
            let t = fraction_text(nanos);
            let digits = t.skip(1);
            &&& t.len() == 0 <==> nanos < 1000
            &&& t.len() > 0 ==> t[0] == '.' && 1 <= digits.len() <= 6 && text::all_digits(digits)
                && digits.last() != '0' && text::digits_value(digits) * text::ten_to(
                (6 - digits.len()) as nat,
            ) == nanos as int / 1000
        }),
{
    let micros = (nanos / 1000) as nat;
    if micros > 0 {
        assert(text::ten_to(6) == 1_000_000) by {
            reveal_with_fuel(text::ten_to, 7);
        }
        padding_keeps_value(micros, 6);
        let d = padded(micros, 6);
        dropped_zeros_scale(d);
        let kept = text::without_trailing(d, '0');
        let t = fraction_text(nanos);
        assert(t == seq!['.'] + kept);
        assert(t.skip(1) =~= kept);
        if kept.len() == 0 {
            assert(text::digits_value(kept) == 0);
            assert(0 * text::ten_to(6) == 0);
        }
    }
}

/// The seconds that a spelling such as `02`, `02:30` or `02:30:15` stands for, from
/// a position on.
pub open spec fn clock_read(t: Seq<char>, i: int) -> int {
    text::digits_value(t.subrange(i, i + 2)) * 3600 + (if t.len() >= i + 5 {
        text::digits_value(t.subrange(i + 3, i + 5)) * 60
    } else {
        0
    }) + (if t.len() >= i + 8 {
        text::digits_value(t.subrange(i + 6, i + 8)) as int
    } else {
        0
    })
}

/// An offset reads back as itself: its sign, and hours, minutes and seconds as far
/// as there is something to say.
pub proof fn offsets_read_back(seconds_east: i32)
    requires
        -86_400 < seconds_east < 86_400,
    ensures
        ({
            let t = offset_text(seconds_east);
            let total = if seconds_east < 0 {
                -seconds_east
            } else {
                seconds_east as int
            };
            &&& t[0] == (if seconds_east < 0 {
                '-'
            } else {
                '+'
            })
            &&& clock_read(t, 1) == total
            &&& t.len() == 3 || t.len() == 6 && t[3] == ':' || t.len() == 9 && t[3] == ':' && t[6]
                == ':'
            &&& t.len() == 3 <==> total % 3600 == 0
            &&& t.len() == 9 <==> total % 60 != 0
        }),
{
    let total = if seconds_east < 0 {
        (-seconds_east) as nat
    } else {
        seconds_east as nat
    };
    two_digits(total / 3600);
    two_digits((total % 3600) / 60);
    two_digits(total % 60);
    let t = offset_text(seconds_east);
    assert(t.subrange(1, 3) =~= padded(total / 3600, 2));
    if t.len() >= 6 {
        assert(t.subrange(4, 6) =~= padded((total % 3600) / 60, 2));
    }
    if t.len() >= 9 {
        assert(t.subrange(7, 9) =~= padded(total % 60, 2));
    }
}

/// A time of day reads back as its seconds since midnight; in a leap second it
/// shows one more.
pub proof fn clocks_read_back(t: TimeOfDay)
    requires
        t.valid(),
    ensures
        clock_text(t).len() == 8,
        clock_text(t)[2] == ':' && clock_text(t)[5] == ':',
        clock_read(clock_text(t), 0) == t.seconds + (if t.nanos >= 1_000_000_000 {
            1int
        } else {
            0int
        }),
{
    let second = (t.seconds % 60) as nat + (if t.nanos >= 1_000_000_000 {
        1nat
    } else {
        0nat
    });
    two_digits((t.seconds / 3600) as nat);
    two_digits(((t.seconds / 60) % 60) as nat);
    two_digits(second);
    let c = clock_text(t);
    assert(c.subrange(0, 2) =~= padded((t.seconds / 3600) as nat, 2));
    assert(c.subrange(3, 5) =~= padded(((t.seconds / 60) % 60) as nat, 2));
    assert(c.subrange(6, 8) =~= padded(second, 2));
}

/// A `timetz` shows its clock, its fraction and its offset in turn.
pub proof fn timetz_shows_its_parts(t: TimeTz)
    requires
        t.valid(),
    ensures
        clock_read(timetz_text(t).take(8), 0) == t.time.seconds + (if t.time.nanos
            >= 1_000_000_000 {
            1int
        } else {
            0int
        }),
        fraction_text(t.time.nanos).is_prefix_of(timetz_text(t).skip(8)),
        offset_text(t.offset_east_seconds).is_suffix_of(timetz_text(t)),
        timetz_text(t).len() == 8 + fraction_text(t.time.nanos).len() + offset_text(
            t.offset_east_seconds,
        ).len(),
{
    clocks_read_back(t.time);
    let whole = timetz_text(t);
    let fraction = fraction_text(t.time.nanos);
    let offset = offset_text(t.offset_east_seconds);
    assert(whole.take(8) =~= clock_text(t.time));
    assert(whole.skip(8).take(fraction.len() as int) =~= fraction);
    assert(whole.subrange(whole.len() - offset.len(), whole.len() as int) =~= offset);
}

/// An instant is shown on the clock of UTC, with its fraction, and says so.
pub proof fn instants_are_shown_in_utc(dt: DateTime)
    ensures
        timestamptz_text(dt) == civil_text(dt) + fraction_text(dt.nanos) + seq!['+', '0', '0'],
{
    reveal_strlit("+00");
    assert("+00"@ =~= seq!['+', '0', '0']);
}

/// A text with an offset stands for the instant in UTC; the clock it was written
/// with does not matter. The date and the time may have a space or a `T` between
/// them, and the offset a space before it.
pub proof fn offsets_are_taken_off(s: Seq<char>, dt: OffsetDateTime)
    requires
        ({
            let t = fraction_truncated(text::trimmed(s));
            ||| parsed_with_offset(t, "%Y-%m-%d %H:%M:%S%.f%#z"@) == Some(dt)
            ||| parsed_with_offset(t, "%Y-%m-%d %H:%M:%S%.f%#z"@) is None && parsed_with_offset(
                t,
                "%Y-%m-%d %H:%M:%S%.f %#z"@,
            ) == Some(dt)
            ||| parsed_with_offset(t, "%Y-%m-%d %H:%M:%S%.f%#z"@) is None && parsed_with_offset(
                t,
                "%Y-%m-%d %H:%M:%S%.f %#z"@,
            ) is None && parsed_with_offset(t, "%Y-%m-%dT%H:%M:%S%.f%#z"@) == Some(dt)
            ||| parsed_with_offset(t, "%Y-%m-%d %H:%M:%S%.f%#z"@) is None && parsed_with_offset(
                t,
                "%Y-%m-%d %H:%M:%S%.f %#z"@,
            ) is None && parsed_with_offset(t, "%Y-%m-%dT%H:%M:%S%.f%#z"@) is None
                && parsed_with_offset(t, "%Y-%m-%dT%H:%M:%S%.f %#z"@) == Some(dt)
        }),
    ensures
        timestamptz(s) == Some(dt.utc),
{
}

/// A text without an offset is read on the clock of the zone behind its last space,
/// and only there.
pub proof fn zones_are_looked_up(s: Seq<char>, at: int, local: DateTime)
    requires
        offset_instant(fraction_truncated(text::trimmed(s))) is None,
        text::rfind(fraction_truncated(text::trimmed(s)), ' ') == Some(at),
        naive_datetime(text::trimmed(fraction_truncated(text::trimmed(s)).take(at))) == Some(local),
    ensures
        timestamptz(s) == instant_in_zone(fraction_truncated(text::trimmed(s)).skip(at + 1), local),
{
}

/// A `timetz` keeps the clock and the offset that it was written with, not those of
/// UTC.
pub proof fn timetz_keeps_its_clock(s: Seq<char>, dt: OffsetDateTime)
    requires
        parsed_with_offset(
            "2000-01-01 "@ + fraction_truncated(text::trimmed(s)),
            "%Y-%m-%d %H:%M:%S%.f%#z"@,
        ) == Some(dt),
    ensures
        timetz(s) matches Some(t) && t.time.seconds == dt.local.seconds && t.time.nanos
            == dt.local.nanos && t.offset_east_seconds == dt.offset_east_seconds,
{
}

/// A date and time without a zone may have a space or a `T` between them; a date and a
/// time have one spelling each. White space around them makes no difference, and what
/// goes beyond nine digits of a fraction neither.
pub proof fn spellings_are_read(s: Seq<char>)
    ensures
        ({
            let t = fraction_truncated(s);
            match parsed_local(t, "%Y-%m-%d %H:%M:%S%.f"@) {
                Some(dt) => naive_datetime(s) == Some(dt),
                None => naive_datetime(s) == parsed_local(t, "%Y-%m-%dT%H:%M:%S%.f"@),
            }
        }),
        date(s) == parsed_date(text::trimmed(s), "%Y-%m-%d"@),
        time(s) == parsed_time(fraction_truncated(text::trimmed(s)), "%H:%M:%S%.f"@),
{
}

/// A date or a time is the same with white space around it.
pub proof fn white_space_makes_no_difference(before: Seq<char>, core: Seq<char>, after: Seq<char>)
    requires
        text::is_blank(before),
        text::is_blank(after),
        core.len() > 0 ==> !text::is_space(core[0]) && !text::is_space(core.last()),
    ensures
        date(before + core + after) == date(core),
        time(before + core + after) == time(core),
        timetz(before + core + after) == timetz(core),
        timestamptz(before + core + after) == timestamptz(core),
{
    text::trimming_finds_the_core(before, core, after);
    text::trimming_finds_the_core(Seq::empty(), core, Seq::empty());
    assert(Seq::<char>::empty() + core + Seq::<char>::empty() =~= core);
}

/// A `timetz` may have a space before its offset, and has none without an offset.
pub proof fn timetz_needs_an_offset(s: Seq<char>)
    ensures
        ({
            let dated = "2000-01-01 "@ + fraction_truncated(text::trimmed(s));
            let close = parsed_with_offset(dated, "%Y-%m-%d %H:%M:%S%.f%#z"@);
            let apart = parsed_with_offset(dated, "%Y-%m-%d %H:%M:%S%.f %#z"@);
            &&& close is None && apart is None ==> timetz(s) is None
            &&& close is None ==> (apart matches Some(dt) ==> (timetz(s) matches Some(t)
                && t.time.seconds == dt.local.seconds && t.time.nanos == dt.local.nanos
                && t.offset_east_seconds == dt.offset_east_seconds))
        }),
{
}

/// A text with neither an offset nor a space before a zone stands for no instant.
pub proof fn instants_need_a_zone(s: Seq<char>)
    requires
        offset_instant(fraction_truncated(text::trimmed(s))) is None,
    ensures
        (forall|i: int|
            0 <= i < fraction_truncated(text::trimmed(s)).len() ==> #[trigger] fraction_truncated(
                text::trimmed(s),
            )[i] != ' ') ==> timestamptz(s) is None,
{
    text::rfind_is_last(fraction_truncated(text::trimmed(s)), ' ');
}

/// A leap second is shown as the last microsecond of the second before it.
pub proof fn leap_seconds_are_held_back(nanos: u32)
    requires
        nanos >= 1_000_000_000,
    ensures
        fraction_text(nanos) == fraction_text(999_999_999),
{
}

} // verus!
