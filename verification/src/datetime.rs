//! Date-times with a fixed UTC offset: parsing of user and page input,
//! resolution of the year-less dates that list pages show, and the ordering
//! of instants.

use chrono::{Datelike, TimeZone, Timelike};
use vstd::prelude::*;

use crate::text::{
    byte_len, dec_int, is_ws, push_decimal_i64, push_str, string_from_chars, trim, trim_end,
    trim_start, trim_str, utf8_len,
};

verus! {

/// Offset of Asia/Shanghai from UTC, in seconds.
pub const SHANGHAI_OFFSET_SECS: i32 = 28800;

/// A calendar date and time of day, without an offset.
#[derive(Clone, Copy, Debug, PartialEq, Eq, Structural)]
pub struct LocalDateTime {
    pub year: i32,
    pub month: u32,
    pub day: u32,
    pub hour: u32,
    pub minute: u32,
    pub second: u32,
    pub nanosecond: u32,
}

/// A date and time at a fixed offset from UTC, with its RFC 3339 text.
#[derive(Clone, Debug)]
pub struct FixedDateTime {
    pub local: LocalDateTime,
    pub offset_secs: i32,
    pub rfc3339: String,
}

/// The plain content of a `FixedDateTime`.
pub struct FixedDateTimeView {
    pub local: LocalDateTime,
    pub offset_secs: i32,
    pub rfc3339: Seq<char>,
}

impl View for FixedDateTime {
    type V = FixedDateTimeView;

    open spec fn view(&self) -> FixedDateTimeView {
        FixedDateTimeView { local: self.local, offset_secs: self.offset_secs, rfc3339: self.rfc3339@ }
    }
}

/// The view of an optional date-time.
pub open spec fn opt_dt(o: Option<FixedDateTime>) -> Option<FixedDateTimeView> {
    match o {
        Some(d) => Some(d@),
        None => None,
    }
}

/// What `chrono::DateTime::parse_from_rfc3339` gives for a text.
pub uninterp spec fn rfc3339_parsed(text: Seq<char>) -> Option<FixedDateTimeView>;

/// What `chrono::NaiveDateTime::parse_from_str` gives for a text and a format.
pub uninterp spec fn naive_parsed(text: Seq<char>, format: Seq<char>) -> Option<LocalDateTime>;

/// What `chrono::NaiveDate::parse_from_str` gives for a text and a format, as
/// year, month and day.
pub uninterp spec fn date_parsed(text: Seq<char>, format: Seq<char>) -> Option<(i32, u32, u32)>;

/// What `FixedOffset::from_local_datetime(..).single()` gives for a local
/// date-time and an offset.
pub uninterp spec fn localized(local: LocalDateTime, offset_secs: i32) -> Option<FixedDateTimeView>;

/// A date-time that chrono renders as RFC 3339 text it can read back: a year
/// of four digits and an offset of whole minutes.
pub open spec fn in_rfc3339_range(d: FixedDateTimeView) -> bool {
    0 <= d.local.year <= 9999 && d.offset_secs % 60 == 0
}

/// The date-time's RFC 3339 text has no whitespace at either end and reads
/// back as the same date-time.
pub open spec fn reads_back(d: FixedDateTimeView) -> bool {
    &&& d.rfc3339.len() > 0
    &&& !is_ws(d.rfc3339[0])
    &&& !is_ws(d.rfc3339.last())
    &&& rfc3339_parsed(d.rfc3339) == Some(d)
}

/// Calls `chrono::DateTime::parse_from_rfc3339` and reads the result's local
/// fields, offset and RFC 3339 text. The result is named, not described;
/// the contract adds that, for a year from 0 to 9999 and an offset of whole
/// minutes, the text that `to_rfc3339` writes (four-digit year, seconds 60
/// for a leap second, the fraction only when not zero, the offset as
/// `±HH:MM`) starts with a digit, ends with one, and reads back through
/// `parse_from_rfc3339` as the same date-time.
#[verifier::external_body]
pub(crate) fn parse_rfc3339(text: &str) -> (r: Option<FixedDateTime>)
    ensures
        opt_dt(r) == rfc3339_parsed(text@),
        r matches Some(d) ==> (in_rfc3339_range(d@) ==> reads_back(d@)),
{
    let d = chrono::DateTime::parse_from_rfc3339(text).ok()?;
    Some(FixedDateTime {
        local: LocalDateTime {
            year: d.year(), month: d.month(), day: d.day(),
            hour: d.hour(), minute: d.minute(), second: d.second(), nanosecond: d.nanosecond(),
        },
        offset_secs: d.offset().local_minus_utc(),
        rfc3339: d.to_rfc3339(),
    })
}

/// Calls `chrono::NaiveDateTime::parse_from_str`; the result is named.
#[verifier::external_body]
fn parse_naive_datetime(text: &str, format: &str) -> (r: Option<LocalDateTime>)
    ensures
        r == naive_parsed(text@, format@),
{
    let l = chrono::NaiveDateTime::parse_from_str(text, format).ok()?;
    Some(LocalDateTime {
        year: l.year(), month: l.month(), day: l.day(),
        hour: l.hour(), minute: l.minute(), second: l.second(), nanosecond: l.nanosecond(),
    })
}

/// Calls `chrono::NaiveDate::parse_from_str`; the result is named.
#[verifier::external_body]
fn parse_naive_date(text: &str, format: &str) -> (r: Option<(i32, u32, u32)>)
    ensures
        r == date_parsed(text@, format@),
{
    chrono::NaiveDate::parse_from_str(text, format).ok().map(|d| (d.year(), d.month(), d.day()))
}

/// Builds the chrono date-time for `local` (`NaiveDate::from_ymd_opt`,
/// `and_hms_nano_opt`, `FixedOffset::east_opt`) and calls
/// `from_local_datetime(..).single()`. The result is named; the contract adds
/// that a result keeps the local fields and the offset it was given, which
/// `from_local_datetime` does by construction, and that its RFC 3339 text
/// reads back as `parse_rfc3339` states.
#[verifier::external_body]
fn localize(local: LocalDateTime, offset_secs: i32) -> (r: Option<FixedDateTime>)
    ensures
        opt_dt(r) == localized(local, offset_secs),
        r matches Some(d) ==> d.local == local && d.offset_secs == offset_secs,
        r matches Some(d) ==> (in_rfc3339_range(d@) ==> reads_back(d@)),
{
    let n = chrono::NaiveDate::from_ymd_opt(local.year, local.month, local.day)?
        .and_hms_nano_opt(local.hour, local.minute, local.second, local.nanosecond)?;
    let d = chrono::FixedOffset::east_opt(offset_secs)?.from_local_datetime(&n).single()?;
    Some(FixedDateTime { local, offset_secs, rfc3339: d.to_rfc3339() })
}

/// Calls `chrono::Utc::now()` and shifts it to the offset
/// (`FixedOffset::east_opt`, `with_timezone`). Nothing is said of which time
/// it is; the contract states that `east_opt` accepts exactly the offsets
/// strictly within one day, that the result carries the offset, and that it
/// is the date-time that `localized` gives for its own local fields at that
/// offset: a fixed offset maps every local time it reached from UTC back to
/// the same single instant (`offset_from_local_datetime` is always `Single`
/// and `checked_sub_offset` undoes the shift), so both sides are the same
/// `DateTime` and render the same RFC 3339 text; that text reads back as
/// `parse_rfc3339` states.
#[verifier::external_body]
fn now_in_offset(offset_secs: i32) -> (r: Option<FixedDateTime>)
    ensures
        r is Some <==> -86400 < offset_secs < 86400,
        r matches Some(d) ==> d.offset_secs == offset_secs,
        r matches Some(d) ==> localized(d.local, offset_secs) == Some(d@),
        r matches Some(d) ==> (in_rfc3339_range(d@) ==> reads_back(d@)),
{
    let d = chrono::Utc::now().with_timezone(&chrono::FixedOffset::east_opt(offset_secs)?);
    Some(FixedDateTime {
        local: LocalDateTime {
            year: d.year(), month: d.month(), day: d.day(),
            hour: d.hour(), minute: d.minute(), second: d.second(), nanosecond: d.nanosecond(),
        },
        offset_secs,
        rfc3339: d.to_rfc3339(),
    })
}

/// The offset of Asia/Shanghai, in seconds east of UTC.
pub fn shanghai_offset() -> (r: i32)
    ensures
        r == SHANGHAI_OFFSET_SECS,
{
    SHANGHAI_OFFSET_SECS
}

/// The current date and time in Asia/Shanghai.
pub fn now_shanghai() -> (r: FixedDateTime)
    ensures
        r.offset_secs == SHANGHAI_OFFSET_SECS,
        in_rfc3339_range(r@) ==> reads_back(r@),
{
    match now_in_offset(SHANGHAI_OFFSET_SECS) {
        Some(d) => d,
        None => {
            assert(false);
            FixedDateTime {
                local: LocalDateTime { year: 0, month: 1, day: 1, hour: 0, minute: 0, second: 0,
                    nanosecond: 0 },
                offset_secs: SHANGHAI_OFFSET_SECS,
                rfc3339: String::new(),
            }
        }
    }
}

/// Whether a text is the RFC 3339 rendering of a date-time in UTC.
pub open spec fn is_utc_rfc3339(text: Seq<char>) -> bool {
    exists|l: LocalDateTime| #[trigger] localized(l, 0) matches Some(v) && v.rfc3339 == text
}

/// The current time in UTC, as RFC 3339 text.
pub fn now_utc_rfc3339() -> (r: String)
    ensures
        is_utc_rfc3339(r@),
{
    match now_in_offset(0) {
        Some(d) => {
            assert(localized(d.local, 0) matches Some(v) && v.rfc3339 == d.rfc3339@);
            d.rfc3339
        },
        None => {
            assert(false);
            String::new()
        },
    }
}

/// Days from 1970-01-01 to the given day of the proleptic Gregorian calendar
/// (the civil-from-days inverse, with the era floored through a shift that
/// keeps every `i32` year non-negative).
pub open spec fn days_from_civil(y: int, m: int, d: int) -> int {
    let y2 = if m <= 2 { y - 1 } else { y };
    let era = (y2 + 2_400_000_000) / 400 - 6_000_000;
    let yoe = y2 - era * 400;
    let mp = (m + 9) % 12;
    let doy = (153 * mp + 2) / 5 + d - 1;
    let doe = yoe * 365 + yoe / 4 - yoe / 100 + doy;
    era * 146097 + doe - 719468
}

/// Whole seconds of the instant since the Unix epoch.
pub open spec fn instant_secs(l: LocalDateTime, offset_secs: int) -> int {
    days_from_civil(l.year as int, l.month as int, l.day as int) * 86400 + l.hour * 3600 + l.minute
        * 60 + l.second - offset_secs
}

/// `a` is not later than `b`, as instants: seconds first, then the fraction.
pub open spec fn not_later(a: FixedDateTimeView, b: FixedDateTimeView) -> bool {
    let sa = instant_secs(a.local, a.offset_secs as int);
    let sb = instant_secs(b.local, b.offset_secs as int);
    sa < sb || (sa == sb && a.local.nanosecond <= b.local.nanosecond)
}

/// Leap years of the Gregorian calendar.
pub open spec fn is_leap_year(y: int) -> bool {
    y % 4 == 0 && (y % 100 != 0 || y % 400 == 0)
}

/// The number of days of month `m` of year `y`.
pub open spec fn days_in_month(y: int, m: int) -> int {
    if m == 2 {
        if is_leap_year(y) { 29 } else { 28 }
    } else if m == 4 || m == 6 || m == 9 || m == 11 {
        30
    } else {
        31
    }
}

/// A day of the proleptic Gregorian calendar.
pub open spec fn valid_date(y: int, m: int, d: int) -> bool {
    1 <= m <= 12 && 1 <= d <= days_in_month(y, m)
}

/// The calendar day after `(y, m, d)`.
pub open spec fn next_day(y: int, m: int, d: int) -> (int, int, int) {
    if d < days_in_month(y, m) {
        (y, m, d + 1)
    } else if m < 12 {
        (y, m + 1, 1)
    } else {
        (y + 1, 1, 1)
    }
}

proof fn lemma_era_step(y2: int)
    ensures
        ({
            let era = (y2 + 2_400_000_000) / 400 - 6_000_000;
            let yoe = y2 - era * 400;
            let era1 = (y2 + 1 + 2_400_000_000) / 400 - 6_000_000;
            let yoe1 = y2 + 1 - era1 * 400;
            &&& 0 <= yoe < 400
            &&& yoe < 399 ==> era1 == era && yoe1 == yoe + 1
            &&& yoe == 399 ==> era1 == era + 1 && yoe1 == 0
            &&& (y2 + 1) % 400 == (yoe + 1) % 400
            &&& (y2 + 1) % 100 == (yoe + 1) % 100
            &&& (y2 + 1) % 4 == (yoe + 1) % 4
        }),
{
    let n = y2 + 2_400_000_000;
    let era = n / 400 - 6_000_000;
    let yoe = y2 - era * 400;
    assert(yoe == n % 400) by (nonlinear_arith)
        requires
            era == n / 400 - 6_000_000,
            yoe == y2 - era * 400,
            n == y2 + 2_400_000_000,
    ;
    assert(0 <= n % 400 < 400) by (nonlinear_arith);
    let era1 = (n + 1) / 400 - 6_000_000;
    let yoe1 = y2 + 1 - era1 * 400;
    assert(yoe1 == (n + 1) % 400) by (nonlinear_arith)
        requires
            era1 == (n + 1) / 400 - 6_000_000,
            yoe1 == y2 + 1 - era1 * 400,
            n == y2 + 2_400_000_000,
    ;
    assert(yoe < 399 ==> (n + 1) / 400 == n / 400 && (n + 1) % 400 == n % 400 + 1) by (nonlinear_arith)
        requires
            0 <= n % 400 < 400,
            yoe == n % 400,
    ;
    assert(yoe == 399 ==> (n + 1) / 400 == n / 400 + 1 && (n + 1) % 400 == 0) by (nonlinear_arith)
        requires
            yoe == n % 400,
    ;
    assert((y2 + 1) % 400 == (yoe + 1) % 400) by (nonlinear_arith)
        requires
            yoe == y2 - era * 400,
    ;
    assert((y2 + 1) % 100 == (yoe + 1) % 100) by (nonlinear_arith)
        requires
            yoe == y2 - era * 400,
    ;
    assert((y2 + 1) % 4 == (yoe + 1) % 4) by (nonlinear_arith)
        requires
            yoe == y2 - era * 400,
    ;
}

/// Day numbers count days: the day after any day of the proleptic Gregorian
/// calendar, across month and year ends and February 29 of leap years, has
/// the next number; and 1970-01-01 is day 0.
pub proof fn lemma_days_from_civil_counts_days(y: int, m: int, d: int)
    requires
        valid_date(y, m, d),
    ensures
        days_from_civil(next_day(y, m, d).0, next_day(y, m, d).1, next_day(y, m, d).2)
            == days_from_civil(y, m, d) + 1,
        days_from_civil(1970, 1, 1) == 0,
{
    assert(days_from_civil(1970, 1, 1) == 0) by (nonlinear_arith);
    if d < days_in_month(y, m) {
    } else if m == 2 {
        let y2 = y - 1;
        lemma_era_step(y2);
        let era = (y2 + 2_400_000_000) / 400 - 6_000_000;
        let yoe = y2 - era * 400;
        if yoe < 399 {
            assert((yoe + 1) / 4 == yoe / 4 + if (yoe + 1) % 4 == 0 { 1int } else { 0 }) by (nonlinear_arith)
                requires
                    0 <= yoe,
            ;
            assert((yoe + 1) / 100 == yoe / 100 + if (yoe + 1) % 100 == 0 { 1int } else { 0 }) by (nonlinear_arith)
                requires
                    0 <= yoe,
            ;
            assert((yoe + 1) * 365 == yoe * 365 + 365);
        } else {
            assert(yoe == 399);
        }
    } else if m < 12 {
        assert(m == 1 || 3 <= m <= 11);
    } else {
    }
}

proof fn lemma_day_in_month(y: int, m: int, d: int)
    ensures
        days_from_civil(y, m, d) == days_from_civil(y, m, 1) + d - 1,
{
}

proof fn lemma_month_step(y: int, m: int)
    requires
        1 <= m < 12,
    ensures
        days_from_civil(y, m + 1, 1) == days_from_civil(y, m, 1) + days_in_month(y, m),
{
    lemma_days_from_civil_counts_days(y, m, days_in_month(y, m));
    lemma_day_in_month(y, m, days_in_month(y, m));
}

proof fn lemma_months_increase(y: int, m: int, m2: int)
    requires
        1 <= m < m2 <= 12,
    ensures
        days_from_civil(y, m, 1) + days_in_month(y, m) <= days_from_civil(y, m2, 1),
    decreases m2 - m,
{
    lemma_month_step(y, m);
    if m + 1 < m2 {
        lemma_months_increase(y, m + 1, m2);
    }
}

proof fn lemma_year_bounds(y: int)
    ensures
        days_from_civil(y, 1, 1) < days_from_civil(y, 12, 31),
        days_from_civil(y, 12, 31) + 1 == days_from_civil(y + 1, 1, 1),
{
    lemma_months_increase(y, 1, 12);
    lemma_day_in_month(y, 12, 31);
    lemma_days_from_civil_counts_days(y, 12, 31);
}

proof fn lemma_years_increase(y: int, y2: int)
    requires
        y < y2,
    ensures
        days_from_civil(y, 12, 31) < days_from_civil(y2, 1, 1),
    decreases y2 - y,
{
    lemma_year_bounds(y);
    if y + 1 < y2 {
        lemma_year_bounds(y + 1);
        lemma_years_increase(y + 1, y2);
    }
}

/// Whether `(y, m, d)` comes before `(y2, m2, d2)` in calendar order.
pub open spec fn date_before(y: int, m: int, d: int, y2: int, m2: int, d2: int) -> bool {
    y < y2 || (y == y2 && (m < m2 || (m == m2 && d < d2)))
}

proof fn lemma_within_year(y: int, m: int, d: int)
    requires
        valid_date(y, m, d),
    ensures
        days_from_civil(y, 1, 1) <= days_from_civil(y, m, d) <= days_from_civil(y, 12, 31),
{
    lemma_day_in_month(y, m, d);
    lemma_day_in_month(y, 12, 31);
    if m > 1 {
        lemma_months_increase(y, 1, m);
    }
    if m < 12 {
        lemma_months_increase(y, m, 12);
    }
}

/// Calendar order is day-number order: of two days of the proleptic
/// Gregorian calendar, the earlier has the smaller number.
pub proof fn lemma_days_follow_calendar(y: int, m: int, d: int, y2: int, m2: int, d2: int)
    requires
        valid_date(y, m, d),
        valid_date(y2, m2, d2),
        date_before(y, m, d, y2, m2, d2),
    ensures
        days_from_civil(y, m, d) < days_from_civil(y2, m2, d2),
{
    if y < y2 {
        lemma_within_year(y, m, d);
        lemma_within_year(y2, m2, d2);
        lemma_years_increase(y, y2);
    } else if m < m2 {
        lemma_day_in_month(y, m, d);
        lemma_day_in_month(y2, m2, d2);
        lemma_months_increase(y, m, m2);
    } else {
        lemma_day_in_month(y, m, d);
        lemma_day_in_month(y2, m2, d2);
    }
}

/// A local date-time with a calendar day and a time of day below 24:00.
pub open spec fn valid_local(l: LocalDateTime) -> bool {
    valid_date(l.year as int, l.month as int, l.day as int) && l.hour < 24 && l.minute < 60 && l.second < 60
}

/// Lexicographic order of local date-times: year, month, day, hour, minute,
/// second, then fraction.
pub open spec fn local_not_after(a: LocalDateTime, b: LocalDateTime) -> bool {
    if a.year != b.year {
        a.year < b.year
    } else if a.month != b.month {
        a.month < b.month
    } else if a.day != b.day {
        a.day < b.day
    } else if a.hour != b.hour {
        a.hour < b.hour
    } else if a.minute != b.minute {
        a.minute < b.minute
    } else if a.second != b.second {
        a.second < b.second
    } else {
        a.nanosecond <= b.nanosecond
    }
}

/// At one offset, `not_later` is the calendar order of the local date-times:
/// one date-time is not later than another exactly when its year, month,
/// day, hour, minute, second and fraction, compared in that order, are not
/// after the other's.
pub proof fn lemma_not_later_is_calendar_order(a: FixedDateTimeView, b: FixedDateTimeView)
    requires
        a.offset_secs == b.offset_secs,
        valid_local(a.local),
        valid_local(b.local),
    ensures
        not_later(a, b) == local_not_after(a.local, b.local),
{
    let la = a.local;
    let lb = b.local;
    let (ya, ma, da) = (la.year as int, la.month as int, la.day as int);
    let (yb, mb, db) = (lb.year as int, lb.month as int, lb.day as int);
    if date_before(ya, ma, da, yb, mb, db) {
        lemma_days_follow_calendar(ya, ma, da, yb, mb, db);
    } else if date_before(yb, mb, db, ya, ma, da) {
        lemma_days_follow_calendar(yb, mb, db, ya, ma, da);
    } else {
        assert(ya == yb && ma == mb && da == db);
    }
}

fn instant_secs_exec(l: &LocalDateTime, offset_secs: i32) -> (r: i64)
    ensures
        r == instant_secs(*l, offset_secs as int),
{
    let y: i64 = l.year as i64;
    let m: i64 = l.month as i64;
    let d: i64 = l.day as i64;
    let y2: i64 = if m <= 2 { y - 1 } else { y };
    let era: i64 = (y2 + 2_400_000_000) / 400 - 6_000_000;
    let yoe: i64 = y2 - era * 400;
    assert(0 <= yoe < 400) by (nonlinear_arith)
        requires
            era == (y2 + 2_400_000_000) / 400 - 6_000_000,
            yoe == y2 - era * 400,
            y2 + 2_400_000_000 >= 0,
    ;
    let mp: i64 = (m + 9) % 12;
    let doy: i64 = (153 * mp + 2) / 5 + d - 1;
    let doe: i64 = yoe * 365 + yoe / 4 - yoe / 100 + doy;
    let days: i64 = era * 146097 + doe - 719468;
    days * 86400 + l.hour as i64 * 3600 + l.minute as i64 * 60 + l.second as i64 - offset_secs as i64
}

/// Whether `a` is not later than `b`.
pub fn is_not_later(a: &FixedDateTime, b: &FixedDateTime) -> (r: bool)
    ensures
        r == not_later(a@, b@),
{
    let sa = instant_secs_exec(&a.local, a.offset_secs);
    let sb = instant_secs_exec(&b.local, b.offset_secs);
    sa < sb || (sa == sb && a.local.nanosecond <= b.local.nanosecond)
}


/// Which way a date-time text failed to parse.
#[derive(Clone, Copy, Debug, PartialEq, Eq, Structural)]
pub enum DateErrorKind {
    /// A full date-time had no single instant at the Shanghai offset.
    Ambiguous,
    /// A month-day date-time, completed with the current year, had no single
    /// instant at the Shanghai offset.
    AmbiguousLegacy,
    /// No accepted form matched.
    Unsupported,
}

/// A date-time text that could not be parsed, with the trimmed text.
#[derive(Clone, Debug)]
pub struct DateTimeError {
    pub kind: DateErrorKind,
    pub value: String,
}

/// The message of a date-time error.
pub open spec fn date_error_message(kind: DateErrorKind, value: Seq<char>) -> Seq<char> {
    match kind {
        DateErrorKind::Ambiguous => "ambiguous datetime: "@ + value,
        DateErrorKind::AmbiguousLegacy => "ambiguous legacy datetime: "@ + value,
        DateErrorKind::Unsupported => "unsupported datetime '"@ + value
            + "'; use RFC3339 or YYYY-MM-DD HH:MM"@,
    }
}

impl DateTimeError {
    /// The error's message.
    pub fn message(&self) -> (r: String)
        ensures
            r@ == date_error_message(self.kind, self.value@),
    {
        let mut out: Vec<char> = Vec::new();
        match self.kind {
            DateErrorKind::Ambiguous => {
                push_str(&mut out, "ambiguous datetime: ");
                push_str(&mut out, self.value.as_str());
            },
            DateErrorKind::AmbiguousLegacy => {
                push_str(&mut out, "ambiguous legacy datetime: ");
                push_str(&mut out, self.value.as_str());
            },
            DateErrorKind::Unsupported => {
                push_str(&mut out, "unsupported datetime '");
                push_str(&mut out, self.value.as_str());
                push_str(&mut out, "'; use RFC3339 or YYYY-MM-DD HH:MM");
            },
        }
        string_from_chars(&out)
    }
}

/// Date and time with seconds.
pub open spec fn format_seconds() -> Seq<char> {
    "%Y-%m-%d %H:%M:%S"@
}

/// Date and time to the minute.
pub open spec fn format_minutes() -> Seq<char> {
    "%Y-%m-%d %H:%M"@
}

/// Date and time to the minute, `T`-separated.
pub open spec fn format_t_minutes() -> Seq<char> {
    "%Y-%m-%dT%H:%M"@
}

/// Date only.
pub open spec fn format_date() -> Seq<char> {
    "%Y-%m-%d"@
}

/// The outcome of parsing, as plain values.
pub open spec fn dt_result(r: Result<FixedDateTime, DateTimeError>) -> Result<FixedDateTimeView, (DateErrorKind, Seq<char>)> {
    match r {
        Ok(d) => Ok(d@),
        Err(e) => Err((e.kind, e.value@)),
    }
}

/// A local date-time placed at the Shanghai offset, or the given error.
pub open spec fn at_shanghai(n: LocalDateTime, kind: DateErrorKind, v: Seq<char>) -> Result<FixedDateTimeView, (DateErrorKind, Seq<char>)> {
    match localized(n, SHANGHAI_OFFSET_SECS) {
        Some(d) => Ok(d),
        None => Err((kind, v)),
    }
}

/// The text of a month-day date-time completed with a year: `<year>-<text>`.
pub open spec fn with_year(year: int, v: Seq<char>) -> Seq<char> {
    dec_int(year) + seq!['-'] + v
}

/// Parsing a user or page date-time, given the current year in Shanghai. The
/// text is trimmed; then, in order: RFC 3339; `YYYY-MM-DD HH:MM:SS`,
/// `YYYY-MM-DD HH:MM` and `YYYY-MM-DDTHH:MM` at the Shanghai offset; and last
/// `MM-DD HH:MM` in the current year.
pub open spec fn parse_datetime_spec(value: Seq<char>, year: int) -> Result<FixedDateTimeView, (DateErrorKind, Seq<char>)> {
    let v = trim(value);
    match rfc3339_parsed(v) {
        Some(d) => Ok(d),
        None => match naive_parsed(v, format_seconds()) {
            Some(n) => at_shanghai(n, DateErrorKind::Ambiguous, v),
            None => match naive_parsed(v, format_minutes()) {
                Some(n) => at_shanghai(n, DateErrorKind::Ambiguous, v),
                None => match naive_parsed(v, format_t_minutes()) {
                    Some(n) => at_shanghai(n, DateErrorKind::Ambiguous, v),
                    None => match naive_parsed(with_year(year, v), format_minutes()) {
                        Some(n) => at_shanghai(n, DateErrorKind::AmbiguousLegacy, v),
                        None => Err((DateErrorKind::Unsupported, v)),
                    },
                },
            },
        },
    }
}

fn shanghai_or(n: LocalDateTime, kind: DateErrorKind, v: &String) -> (r: Result<FixedDateTime, DateTimeError>)
    ensures
        dt_result(r) == at_shanghai(n, kind, v@),
        r matches Ok(d) ==> (in_rfc3339_range(d@) ==> reads_back(d@)),
{
    match localize(n, SHANGHAI_OFFSET_SECS) {
        Some(d) => Ok(d),
        None => Err(DateTimeError { kind, value: v.clone() }),
    }
}

/// Parses a date-time as `parse_datetime` does, with the current year given.
pub fn parse_datetime_in_year(value: &str, current_year: i32) -> (r: Result<FixedDateTime, DateTimeError>)
    ensures
        dt_result(r) == parse_datetime_spec(value@, current_year as int),
        r matches Ok(d) ==> (in_rfc3339_range(d@) ==> reads_back(d@)),
{
    let vc = trim_str(value);
    let v = string_from_chars(&vc);
    if let Some(d) = parse_rfc3339(v.as_str()) {
        return Ok(d);
    }
    if let Some(n) = parse_naive_datetime(v.as_str(), "%Y-%m-%d %H:%M:%S") {
        return shanghai_or(n, DateErrorKind::Ambiguous, &v);
    }
    if let Some(n) = parse_naive_datetime(v.as_str(), "%Y-%m-%d %H:%M") {
        return shanghai_or(n, DateErrorKind::Ambiguous, &v);
    }
    if let Some(n) = parse_naive_datetime(v.as_str(), "%Y-%m-%dT%H:%M") {
        return shanghai_or(n, DateErrorKind::Ambiguous, &v);
    }
    let mut legacy: Vec<char> = Vec::new();
    push_decimal_i64(&mut legacy, current_year as i64);
    legacy.push('-');
    push_str(&mut legacy, v.as_str());
    assert(legacy@ =~= with_year(current_year as int, v@));
    let legacy = string_from_chars(&legacy);
    if let Some(n) = parse_naive_datetime(legacy.as_str(), "%Y-%m-%d %H:%M") {
        return shanghai_or(n, DateErrorKind::AmbiguousLegacy, &v);
    }
    Err(DateTimeError { kind: DateErrorKind::Unsupported, value: v })
}

/// Parses a date-time given as RFC 3339, `YYYY-MM-DD HH:MM[:SS]`,
/// `YYYY-MM-DDTHH:MM` or `MM-DD HH:MM` (in the current year), the last three
/// at the Shanghai offset.
pub fn parse_datetime(value: &str) -> (r: Result<FixedDateTime, DateTimeError>)
    ensures
        exists|y: i32| dt_result(r) == parse_datetime_spec(value@, y as int),
        r matches Ok(d) ==> (in_rfc3339_range(d@) ==> reads_back(d@)),
{
    let now = now_shanghai();
    let r = parse_datetime_in_year(value, now.local.year);
    assert(dt_result(r) == parse_datetime_spec(value@, now.local.year as int));
    r
}

/// Whether every character of the text is whitespace.
pub open spec fn all_ws(s: Seq<char>) -> bool {
    forall|k: int| 0 <= k < s.len() ==> is_ws(#[trigger] s[k])
}

proof fn lemma_trim_start_skips(p: Seq<char>, x: Seq<char>)
    requires
        all_ws(p),
    ensures
        trim_start(p + x) == trim_start(x),
    decreases p.len(),
{
    if p.len() > 0 {
        assert((p + x)[0] == p[0]);
        assert((p + x).drop_first() == p.drop_first() + x);
        lemma_trim_start_skips(p.drop_first(), x);
    } else {
        assert(p + x == x);
    }
}

proof fn lemma_trim_end_skips(y: Seq<char>, p: Seq<char>)
    requires
        all_ws(p),
    ensures
        trim_end(y + p) == trim_end(y),
    decreases p.len(),
{
    if p.len() > 0 {
        assert((y + p).last() == p.last());
        assert(is_ws(p[p.len() - 1]));
        assert((y + p).drop_last() == y + p.drop_last());
        lemma_trim_end_skips(y, p.drop_last());
    } else {
        assert(y + p == y);
    }
}

/// The RFC 3339 text of a date-time that reads back, with any whitespace
/// around it, parses as that date-time, whatever the current year.
pub proof fn lemma_rfc3339_round_trip(d: FixedDateTimeView, lead: Seq<char>, trail: Seq<char>, year: int)
    requires
        reads_back(d),
        all_ws(lead),
        all_ws(trail),
    ensures
        parse_datetime_spec(lead + d.rfc3339 + trail, year) == Ok::<FixedDateTimeView, (DateErrorKind, Seq<char>)>(d),
{
    let t = d.rfc3339;
    assert(lead + t + trail == lead + (t + trail));
    lemma_trim_start_skips(lead, t + trail);
    assert((t + trail)[0] == t[0]);
    assert(trim_start(t + trail) == t + trail);
    lemma_trim_end_skips(t, trail);
    assert(trim_end(t) == t);
    assert(trim(lead + t + trail) == t);
}

/// The first year from `y` to `end` whose completion of `raw` falls within
/// `[from, to]` at the Shanghai offset, as RFC 3339 text.
pub open spec fn first_year_in_range(raw: Seq<char>, from: FixedDateTimeView, to: FixedDateTimeView, y: int, end: int) -> Option<Seq<char>>
    decreases end - y + 1,
{
    if y > end {
        None
    } else {
        match naive_parsed(with_year(y, raw), format_minutes()) {
            None => first_year_in_range(raw, from, to, y + 1, end),
            Some(n) => match localized(n, SHANGHAI_OFFSET_SECS) {
                None => first_year_in_range(raw, from, to, y + 1, end),
                Some(c) => if not_later(from, c) && not_later(c, to) {
                    Some(c.rfc3339)
                } else {
                    first_year_in_range(raw, from, to, y + 1, end)
                },
            },
        }
    }
}

/// The publication time of a list entry as RFC 3339 text: a trimmed text of
/// more than eleven bytes that parses as a full date-time is taken as it is;
/// otherwise the text is read as `MM-DD HH:MM` in the first year, from the
/// year before `from` to the year after `to`, that puts it within
/// `[from, to]`.
pub open spec fn resolve_published_spec(raw: Seq<char>, from: FixedDateTimeView, to: FixedDateTimeView, year: int) -> Option<Seq<char>> {
    let r = trim(raw);
    if r.len() == 0 {
        None
    } else if parse_datetime_spec(r, year) is Ok && utf8_len(r) as usize > 11 {
        Some(parse_datetime_spec(r, year)->Ok_0.rfc3339)
    } else {
        first_year_in_range(r, from, to, from.local.year - 1, to.local.year + 1)
    }
}

/// `resolve_published_at` with the current year given.
pub fn resolve_published_at_in_year(raw: &str, from: &FixedDateTime, to: &FixedDateTime, current_year: i32) -> (r: Option<String>)
    ensures
        r.deep_view() == resolve_published_spec(raw@, from@, to@, current_year as int),
{
    let rc = trim_str(raw);
    if rc.len() == 0 {
        return None;
    }
    let r = string_from_chars(&rc);
    let parsed = parse_datetime_in_year(r.as_str(), current_year);
    if let Ok(value) = parsed {
        if byte_len(r.as_str()) > 11 {
            return Some(value.rfc3339);
        }
    }
    let mut y: i64 = from.local.year as i64 - 1;
    let end: i64 = to.local.year as i64 + 1;
    while y <= end
        invariant
            r@ == trim(raw@),
            end == to.local.year as int + 1,
            from.local.year as int - 1 <= y,
            resolve_published_spec(raw@, from@, to@, current_year as int)
                == first_year_in_range(r@, from@, to@, y as int, end as int),
        decreases end - y + 1,
    {
        let mut text: Vec<char> = Vec::new();
        push_decimal_i64(&mut text, y);
        text.push('-');
        push_str(&mut text, r.as_str());
        assert(text@ =~= with_year(y as int, r@));
        let text = string_from_chars(&text);
        if let Some(n) = parse_naive_datetime(text.as_str(), "%Y-%m-%d %H:%M") {
            if let Some(c) = localize(n, SHANGHAI_OFFSET_SECS) {
                if is_not_later(from, &c) && is_not_later(&c, to) {
                    return Some(c.rfc3339);
                }
            }
        }
        y = y + 1;
    }
    None
}

/// Resolves the publication time of a list entry against the range
/// `[from, to]` (see `resolve_published_spec`); the current year matters only
/// to texts that parse through the month-day form.
pub fn resolve_published_at(raw: &str, from: FixedDateTime, to: FixedDateTime) -> (r: Option<String>)
    ensures
        exists|y: i32| r.deep_view() == resolve_published_spec(raw@, from@, to@, y as int),
{
    let now = now_shanghai();
    resolve_published_at_in_year(raw, &from, &to, now.local.year)
}

/// The publication time of a blog entry: a parsed date-time, or a bare
/// `YYYY-MM-DD` date at midnight in Shanghai, as RFC 3339 text.
pub open spec fn blog_date_spec(raw: Seq<char>, year: int) -> Option<Seq<char>> {
    match parse_datetime_spec(raw, year) {
        Ok(d) => Some(d.rfc3339),
        Err(_) => match date_parsed(raw, format_date()) {
            Some((y, m, d)) => match localized(
                LocalDateTime { year: y, month: m, day: d, hour: 0, minute: 0, second: 0, nanosecond: 0 },
                SHANGHAI_OFFSET_SECS,
            ) {
                Some(t) => Some(t.rfc3339),
                None => None,
            },
            None => None,
        },
    }
}

/// Parses the date of a blog entry, with the current year given.
pub fn parse_blog_date(raw: &str, current_year: i32) -> (r: Option<String>)
    ensures
        r.deep_view() == blog_date_spec(raw@, current_year as int),
{
    if let Ok(d) = parse_datetime_in_year(raw, current_year) {
        return Some(d.rfc3339);
    }
    if let Some((y, m, d)) = parse_naive_date(raw, "%Y-%m-%d") {
        let midnight = LocalDateTime { year: y, month: m, day: d, hour: 0, minute: 0, second: 0, nanosecond: 0 };
        return match localize(midnight, SHANGHAI_OFFSET_SECS) {
            Some(t) => Some(t.rfc3339),
            None => None,
        };
    }
    None
}

} // verus!
