//! Finding the host's local offset at an instant. Asking the operating system
//! is left to the caller, who hands over what the host reported; this module
//! decides what offset that report gives, and falls back to UTC or to an
//! error when it gives none.
use vstd::prelude::*;

use crate::offset::{option_view, UtcOffset};

verus! {

/// Earliest year the calendar arithmetic accepts.
pub const MIN_YEAR: i32 = -9999;

/// Latest year the calendar arithmetic accepts.
pub const MAX_YEAR: i32 = 9999;

/// Local calendar time as C's `struct tm` gives it.
#[derive(Debug, Clone, Copy, PartialEq, Eq, Structural, Hash)]
pub struct BrokenDownTime {
    /// Years since 1900 (`tm_year`).
    pub years_since_1900: i32,
    /// Days since January 1, from 0 (`tm_yday`).
    pub day_of_year: i32,
    /// `tm_hour`.
    pub hour: i32,
    /// `tm_min`.
    pub minute: i32,
    /// `tm_sec`; 60 stands for a leap second.
    pub second: i32,
}

/// A Windows `FILETIME`: 100-nanosecond ticks since 1601, in two halves.
#[derive(Debug, Clone, Copy, PartialEq, Eq, Structural, Hash)]
pub struct FileTime {
    pub high: u32,
    pub low: u32,
}

/// What the host said about local time at an instant.
#[derive(Debug, Clone, Copy, PartialEq, Eq, Structural, Hash)]
pub enum LocalTimeReport {
    /// The host has no way to tell.
    Unsupported,
    /// A call to the host failed.
    Failed,
    /// The offset in seconds, from the `tm_gmtoff` field.
    UtcOffsetField(i64),
    /// The local calendar time, with no offset field.
    BrokenDown(BrokenDownTime),
    /// The instant and its local time, both as `FILETIME`s.
    FileTimes { utc: FileTime, local: FileTime },
}

/// The instant could not be given a local offset.
#[derive(Debug, Clone, Copy, PartialEq, Eq, Structural, Hash)]
pub struct IndeterminateOffsetError;

pub open spec fn is_leap_year(year: int) -> bool {
    year % 4 == 0 && (year % 100 != 0 || year % 400 == 0)
}

pub open spec fn days_in_year(year: int) -> int {
    if is_leap_year(year) {
        366
    } else {
        365
    }
}

/// Days from 1970-01-01 to January 1 of `year`, in the proleptic Gregorian
/// calendar (negative before 1970).
pub open spec fn days_before_year(year: int) -> int {
    let p = year - 1;
    365 * (year - 1970) + (p / 4 - p / 100 + p / 400) - 477
}

/// The timestamp that the local calendar time `tm` would have if it were
/// UTC, when its fields make a valid time (a leap second counts as second 59).
pub open spec fn local_timestamp(tm: BrokenDownTime) -> Option<int> {
    let year = 1900 + tm.years_since_1900;
    let ordinal = tm.day_of_year + 1;
    let second: int = if tm.second == 60 {
        59
    } else {
        tm.second as int
    };
    if MIN_YEAR <= year <= MAX_YEAR && 1 <= ordinal <= days_in_year(year) && 0 <= tm.hour < 24
        && 0 <= tm.minute < 60 && 0 <= second < 60 {
        Some(
            (days_before_year(year) + ordinal - 1) * 86400 + tm.hour * 3600 + tm.minute * 60
                + second,
        )
    } else {
        None
    }
}

/// Whole seconds in a `FILETIME`.
pub open spec fn filetime_seconds(ft: FileTime) -> int {
    (ft.high * 4294967296 + ft.low) / 10_000_000
}

/// `d` seconds as an offset, when it is within 23:59:59 either way.
pub open spec fn bounded_offset(d: int) -> Option<int> {
    if -86399 <= d <= 86399 {
        Some(d)
    } else {
        None
    }
}

/// The offset, in seconds, that `report` gives for the instant `timestamp`
/// (seconds since 1970-01-01 UTC), if any.
pub open spec fn resolved_offset(timestamp: int, report: LocalTimeReport) -> Option<int> {
    match report {
        LocalTimeReport::Unsupported => None,
        LocalTimeReport::Failed => None,
        LocalTimeReport::UtcOffsetField(seconds) => bounded_offset(seconds as int),
        LocalTimeReport::BrokenDown(tm) => match local_timestamp(tm) {
            Some(local) => bounded_offset(local - timestamp),
            None => None,
        },
        LocalTimeReport::FileTimes { utc, local } => bounded_offset(
            filetime_seconds(local) - filetime_seconds(utc),
        ),
    }
}

/// The offset that a best-effort lookup gives: the resolved one, else UTC.
pub open spec fn offset_or_utc(resolved: Option<int>) -> int {
    match resolved {
        Some(v) => v,
        None => 0,
    }
}

fn is_leap(year: i32) -> (r: bool)
    requires
        MIN_YEAR <= year <= MAX_YEAR,
    ensures
        r == is_leap_year(year as int),
{
    let shifted = (year + 10_000) as u32;
    assert(shifted % 4 == year % 4 && shifted % 100 == year % 100 && shifted % 400 == year % 400);
    shifted % 4 == 0 && (shifted % 100 != 0 || shifted % 400 == 0)
}

fn days_before(year: i32) -> (r: i64)
    requires
        MIN_YEAR <= year <= MAX_YEAR,
    ensures
        r == days_before_year(year as int),
{
    let p = year as i64 - 1;
    let q = p + 10_000;
    assert(q / 4 == p / 4 + 2500 && q / 100 == p / 100 + 100 && q / 400 == p / 400 + 25);
    365 * (year as i64 - 1970) + (q / 4 - q / 100 + q / 400) - 2425 - 477
}

/// The timestamp of `tm` read as UTC, if its fields make a valid time.
pub fn local_timestamp_of(tm: &BrokenDownTime) -> (r: Option<i64>)
    ensures
        match r {
            Some(v) => local_timestamp(*tm) == Some(v as int),
            None => local_timestamp(*tm) is None,
        },
{
    let second = if tm.second == 60 {
        59
    } else {
        tm.second
    };
    if tm.years_since_1900 < MIN_YEAR - 1900 || tm.years_since_1900 > MAX_YEAR - 1900 {
        return None;
    }
    let year = 1900 + tm.years_since_1900;
    if tm.day_of_year < 0 || tm.hour < 0 || tm.hour >= 24 || tm.minute < 0 || tm.minute >= 60
        || second < 0 || second >= 60 {
        return None;
    }
    let length: i32 = if is_leap(year) {
        366
    } else {
        365
    };
    if tm.day_of_year >= length {
        return None;
    }
    let days = days_before(year) + tm.day_of_year as i64;
    Some(days * 86_400 + tm.hour as i64 * 3_600 + tm.minute as i64 * 60 + second as i64)
}

fn filetime_secs(ft: &FileTime) -> (r: i64)
    ensures
        r == filetime_seconds(*ft),
{
    let ticks = ft.high as u64 * 4_294_967_296 + ft.low as u64;
    (ticks / 10_000_000) as i64
}

fn bounded(d: i64) -> (r: Option<UtcOffset>)
    ensures
        option_view(r) == bounded_offset(d as int),
{
    if d < -86_399 || d > 86_399 {
        None
    } else {
        Some(UtcOffset::seconds_unchecked(d as i32))
    }
}

/// The offset that `report` gives for the instant `timestamp`, if any.
pub fn try_local_offset_at(timestamp: i64, report: &LocalTimeReport) -> (r: Option<UtcOffset>)
    ensures
        option_view(r) == resolved_offset(timestamp as int, *report),
{
    match report {
        LocalTimeReport::Unsupported => None,
        LocalTimeReport::Failed => None,
        LocalTimeReport::UtcOffsetField(seconds) => bounded(*seconds),
        LocalTimeReport::BrokenDown(tm) => match local_timestamp_of(tm) {
            Some(local) => {
                if timestamp < local - 86_399 || timestamp > local + 86_399 {
                    None
                } else {
                    bounded(local - timestamp)
                }
            },
            None => None,
        },
        LocalTimeReport::FileTimes { utc, local } => bounded(
            filetime_secs(local) - filetime_secs(utc),
        ),
    }
}


impl UtcOffset {
    /// The local offset at the instant `timestamp` (seconds since 1970-01-01
    /// UTC), given what the host reported of local time there; UTC when the
    /// report gives none.
    pub fn local_offset_at(timestamp: i64, report: &LocalTimeReport) -> (r: Self)
        ensures
            r@ == offset_or_utc(resolved_offset(timestamp as int, *report)),
    {
        match try_local_offset_at(timestamp, report) {
            Some(o) => o,
            None => UtcOffset::utc(),
        }
    }

    /// The local offset at the instant `timestamp`, given what the host
    /// reported of local time there, or an error when the report gives none.
    pub fn try_local_offset_at(timestamp: i64, report: &LocalTimeReport) -> (r: Result<
        Self,
        IndeterminateOffsetError,
    >)
        ensures
            match r {
                Ok(o) => resolved_offset(timestamp as int, *report) == Some(o@),
                Err(_) => resolved_offset(timestamp as int, *report) is None,
            },
    {
        match try_local_offset_at(timestamp, report) {
            Some(o) => Ok(o),
            None => Err(IndeterminateOffsetError),
        }
    }

    /// The local offset now, given the current instant `now` and what the
    /// host reported of local time at it; UTC when the report gives none.
    pub fn current_local_offset(now: i64, report: &LocalTimeReport) -> (r: Self)
        ensures
            r@ == offset_or_utc(resolved_offset(now as int, *report)),
    {
        UtcOffset::local_offset_at(now, report)
    }

    /// The local offset now, given the current instant `now` and what the
    /// host reported of local time at it, or an error when the report gives
    /// none.
    pub fn try_current_local_offset(now: i64, report: &LocalTimeReport) -> (r: Result<
        Self,
        IndeterminateOffsetError,
    >)
        ensures
            match r {
                Ok(o) => resolved_offset(now as int, *report) == Some(o@),
                Err(_) => resolved_offset(now as int, *report) is None,
            },
    {
        UtcOffset::try_local_offset_at(now, report)
    }
}

/// A UTC calendar date and time of day, as Windows' `SYSTEMTIME` wants it.
#[derive(Debug, Clone, Copy, PartialEq, Eq, Structural, Hash)]
pub struct CalendarTime {
    pub year: i32,
    /// 1 to 12.
    pub month: u8,
    /// 1 to the length of the month.
    pub day: u8,
    pub hour: u8,
    pub minute: u8,
    pub second: u8,
}

/// Days in `month` (1 to 12) of `year`.
pub open spec fn month_length(year: int, month: int) -> int {
    seq![31int, 28, 31, 30, 31, 30, 31, 31, 30, 31, 30, 31][month - 1] + if month == 2
        && is_leap_year(year) {
        1int
    } else {
        0
    }
}

/// Days in `year` before the first of `month` (1 to 12).
pub open spec fn days_before_month(year: int, month: int) -> int {
    seq![0int, 31, 59, 90, 120, 151, 181, 212, 243, 273, 304, 334][month - 1] + if month > 2
        && is_leap_year(year) {
        1int
    } else {
        0
    }
}

/// Whether `c` names a real moment in the years the calendar arithmetic
/// accepts.
pub open spec fn valid_calendar(c: CalendarTime) -> bool {
    &&& MIN_YEAR <= c.year <= MAX_YEAR
    &&& 1 <= c.month <= 12
    &&& 1 <= c.day <= month_length(c.year as int, c.month as int)
    &&& c.hour < 24
    &&& c.minute < 60
    &&& c.second < 60
}

/// The timestamp (seconds since 1970-01-01 UTC) of the calendar time `c`.
pub open spec fn calendar_timestamp(c: CalendarTime) -> int {
    (days_before_year(c.year as int) + days_before_month(c.year as int, c.month as int) + c.day
        - 1) * 86400 + c.hour * 3600 + c.minute * 60 + c.second
}

/// The first instant that the calendar arithmetic covers.
pub open spec fn first_timestamp() -> int {
    days_before_year(MIN_YEAR as int) * 86400
}

/// The first instant after those that the calendar arithmetic covers.
pub open spec fn end_timestamp() -> int {
    days_before_year(MAX_YEAR + 1) * 86400
}

proof fn lemma_div_step(x: int, d: int)
    requires
        d == 4 || d == 100 || d == 400,
    ensures
        (x + 1) / d - x / d == if (x + 1) % d == 0 {
            1int
        } else {
            0int
        },
{
    if d == 4 {
        assert((x + 1) / 4 - x / 4 == if (x + 1) % 4 == 0 {
            1int
        } else {
            0int
        });
    } else if d == 100 {
        assert((x + 1) / 100 - x / 100 == if (x + 1) % 100 == 0 {
            1int
        } else {
            0int
        });
    } else {
        assert((x + 1) / 400 - x / 400 == if (x + 1) % 400 == 0 {
            1int
        } else {
            0int
        });
    }
}

proof fn lemma_year_length(year: int)
    ensures
        days_before_year(year + 1) == days_before_year(year) + days_in_year(year),
{
    lemma_div_step(year - 1, 4);
    lemma_div_step(year - 1, 100);
    lemma_div_step(year - 1, 400);
    assert(year % 100 == 0 ==> year % 4 == 0);
    assert(year % 400 == 0 ==> year % 100 == 0);
}

proof fn lemma_month_step(year: int, month: int)
    requires
        1 <= month < 12,
    ensures
        days_before_month(year, month + 1) == days_before_month(year, month) + month_length(
            year,
            month,
        ),
{
    if month == 1 {
    } else if month == 2 {
    } else if month == 3 {
    } else if month == 4 {
    } else if month == 5 {
    } else if month == 6 {
    } else if month == 7 {
    } else if month == 8 {
    } else if month == 9 {
    } else if month == 10 {
    } else {
        assert(month == 11);
    }
}

fn month_length_of(leap: bool, month: u8) -> (r: i64)
    requires
        1 <= month <= 12,
    ensures
        forall|y: int| is_leap_year(y) == leap ==> r == month_length(y, month as int),
{
    if month == 2 {
        if leap {
            29
        } else {
            28
        }
    } else if month == 4 || month == 6 || month == 9 || month == 11 {
        30
    } else {
        31
    }
}

/// The year that holds the day `days` (counted from 1970-01-01).
fn year_of_day(days: i64, guess: i32) -> (year: i32)
    requires
        MIN_YEAR <= guess <= MAX_YEAR,
        days_before_year(MIN_YEAR as int) <= days < days_before_year(MAX_YEAR + 1),
    ensures
        MIN_YEAR <= year <= MAX_YEAR,
        days_before_year(year as int) <= days < days_before_year(year + 1),
{
    let mut year = guess;
    while days_before(year) > days
        invariant
            MIN_YEAR <= year <= MAX_YEAR,
            days_before_year(MIN_YEAR as int) <= days,
        decreases year - MIN_YEAR,
    {
        year = year - 1;
    }
    while year < MAX_YEAR && days_before(year + 1) <= days
        invariant
            MIN_YEAR <= year <= MAX_YEAR,
            days_before_year(year as int) <= days,
            days < days_before_year(MAX_YEAR + 1),
        decreases MAX_YEAR - year,
    {
        year = year + 1;
    }
    year
}

/// The month and day of the month of the day `day_of_year` (from 0) of `year`.
fn month_day(year: i32, day_of_year: i64) -> (r: (u8, u8))
    requires
        MIN_YEAR <= year <= MAX_YEAR,
        0 <= day_of_year < days_in_year(year as int),
    ensures
        1 <= r.0 <= 12,
        1 <= r.1 <= month_length(year as int, r.0 as int),
        days_before_month(year as int, r.0 as int) + r.1 - 1 == day_of_year,
{
    let leap = is_leap(year);
    let mut remaining = day_of_year;
    let mut month: u8 = 1;
    loop
        invariant
            MIN_YEAR <= year <= MAX_YEAR,
            leap == is_leap_year(year as int),
            1 <= month <= 12,
            0 <= remaining,
            days_before_month(year as int, month as int) + remaining == day_of_year,
            day_of_year < days_in_year(year as int),
        ensures
            1 <= month <= 12,
            0 <= remaining < month_length(year as int, month as int),
            days_before_month(year as int, month as int) + remaining == day_of_year,
        decreases 12 - month,
    {
        let length = month_length_of(leap, month);
        assert(length == month_length(year as int, month as int));
        if remaining < length {
            break;
        }
        proof {
            if month < 12 {
                lemma_month_step(year as int, month as int);
            } else {
                assert(days_before_month(year as int, 12) == days_in_year(year as int) - 31);
            }
        }
        remaining = remaining - length;
        month = month + 1;
    }
    assert(month_length(year as int, month as int) <= 31);
    (month, (remaining + 1) as u8)
}

/// The UTC calendar time of the instant `timestamp`, when it falls in the
/// years the calendar arithmetic accepts.
pub fn utc_calendar(timestamp: i64) -> (r: Option<CalendarTime>)
    ensures
        match r {
            Some(c) => valid_calendar(c) && calendar_timestamp(c) == timestamp,
            None => timestamp < first_timestamp() || timestamp >= end_timestamp(),
        },
{
    let first_day = days_before(MIN_YEAR);
    let last_day = days_before(MAX_YEAR);
    proof {
        lemma_year_length(MAX_YEAR as int);
        assert(!is_leap_year(MAX_YEAR as int));
    }
    let first = first_day * 86_400;
    let end = (last_day + 365) * 86_400;
    if timestamp < first || timestamp >= end {
        return None;
    }
    let since_first = timestamp - first;
    let whole_days = since_first / 86_400;
    let second_of_day = since_first % 86_400;
    let days = first_day + whole_days;
    let guess = (whole_days / 366) as i32;
    let guess = if guess > MAX_YEAR - MIN_YEAR {
        MAX_YEAR
    } else {
        MIN_YEAR + guess
    };
    let year = year_of_day(days, guess);
    proof {
        lemma_year_length(year as int);
    }
    let (month, day) = month_day(year, days - days_before(year));
    Some(
        CalendarTime {
            year,
            month,
            day,
            hour: (second_of_day / 3_600) as u8,
            minute: (second_of_day % 3_600 / 60) as u8,
            second: (second_of_day % 60) as u8,
        },
    )
}

/// On a host with no way to tell, whatever the instant, no offset is
/// resolved: the strict lookups fail and the best-effort ones give UTC.
pub proof fn lemma_unsupported_host_gives_utc(timestamp: int)
    ensures
        resolved_offset(timestamp, LocalTimeReport::Unsupported) is None,
        offset_or_utc(resolved_offset(timestamp, LocalTimeReport::Unsupported)) == 0,
{
}

/// Whatever the host reports, an offset it resolves to is within 23:59:59
/// either way.
pub proof fn lemma_resolved_offset_bounded(timestamp: int, report: LocalTimeReport)
    ensures
        resolved_offset(timestamp, report) matches Some(v) ==> -86399 <= v <= 86399,
        -86399 <= offset_or_utc(resolved_offset(timestamp, report)) <= 86399,
{
}

} // verus!
