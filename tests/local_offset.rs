use time::resolver::{
    utc_calendar, BrokenDownTime, CalendarTime, FileTime, IndeterminateOffsetError, LocalTimeReport,
};
use time::UtcOffset;

/// 2000-03-01T00:00:00Z.
const MARCH_2000: i64 = 951_868_800;

fn ticks(seconds: u64) -> FileTime {
    let t = seconds * 10_000_000;
    FileTime { high: (t >> 32) as u32, low: t as u32 }
}

#[test]
fn unsupported_host_gives_utc_or_error() {
    let report = LocalTimeReport::Unsupported;
    assert_eq!(UtcOffset::local_offset_at(0, &report), UtcOffset::utc());
    assert_eq!(UtcOffset::current_local_offset(MARCH_2000, &report), UtcOffset::utc());
    assert_eq!(UtcOffset::try_local_offset_at(0, &report), Err(IndeterminateOffsetError));
    assert_eq!(UtcOffset::try_current_local_offset(MARCH_2000, &report), Err(IndeterminateOffsetError));
}

#[test]
fn failed_host_call_gives_utc_or_error() {
    let report = LocalTimeReport::Failed;
    assert_eq!(UtcOffset::local_offset_at(5, &report).as_seconds(), 0);
    assert_eq!(UtcOffset::try_local_offset_at(5, &report), Err(IndeterminateOffsetError));
}

#[test]
fn offset_field_is_taken_when_in_range() {
    let report = LocalTimeReport::UtcOffsetField(-5 * 3_600);
    assert_eq!(UtcOffset::try_local_offset_at(0, &report), UtcOffset::hours(-5).map_err(|_| IndeterminateOffsetError));
    let report = LocalTimeReport::UtcOffsetField(86_400);
    assert_eq!(UtcOffset::try_current_local_offset(0, &report), Err(IndeterminateOffsetError));
    assert_eq!(UtcOffset::local_offset_at(0, &report), UtcOffset::utc());
}

#[test]
fn broken_down_time_gives_difference_from_instant() {
    // 2000-03-01 is day 60 (from 0) of the leap year 2000; local 01:30 at
    // midnight UTC is an offset of +1:30.
    let tm = BrokenDownTime { years_since_1900: 100, day_of_year: 60, hour: 1, minute: 30, second: 0 };
    let report = LocalTimeReport::BrokenDown(tm);
    assert_eq!(UtcOffset::local_offset_at(MARCH_2000, &report).as_seconds(), 5_400);
    // The day before, at 19:00 local: -5:00.
    let tm = BrokenDownTime { years_since_1900: 100, day_of_year: 59, hour: 19, minute: 0, second: 0 };
    let report = LocalTimeReport::BrokenDown(tm);
    assert_eq!(UtcOffset::try_local_offset_at(MARCH_2000, &report), Ok(UtcOffset::hours(-5).unwrap()));
}

#[test]
fn broken_down_epoch() {
    let tm = BrokenDownTime { years_since_1900: 70, day_of_year: 0, hour: 0, minute: 0, second: 0 };
    assert_eq!(UtcOffset::local_offset_at(0, &LocalTimeReport::BrokenDown(tm)), UtcOffset::utc());
    let tm = BrokenDownTime { years_since_1900: 69, day_of_year: 364, hour: 23, minute: 0, second: 0 };
    assert_eq!(UtcOffset::local_offset_at(0, &LocalTimeReport::BrokenDown(tm)).as_seconds(), -3_600);
}

#[test]
fn leap_second_counts_as_fifty_nine() {
    let tm = BrokenDownTime { years_since_1900: 70, day_of_year: 0, hour: 0, minute: 0, second: 60 };
    assert_eq!(UtcOffset::local_offset_at(0, &LocalTimeReport::BrokenDown(tm)).as_seconds(), 59);
}

#[test]
fn invalid_broken_down_fields_are_indeterminate() {
    let good = BrokenDownTime { years_since_1900: 70, day_of_year: 0, hour: 0, minute: 0, second: 0 };
    for tm in [
        BrokenDownTime { day_of_year: 365, ..good },
        BrokenDownTime { day_of_year: -1, ..good },
        BrokenDownTime { hour: 24, ..good },
        BrokenDownTime { minute: 60, ..good },
        BrokenDownTime { second: 61, ..good },
        BrokenDownTime { years_since_1900: 20_000, ..good },
    ] {
        assert_eq!(UtcOffset::try_local_offset_at(0, &LocalTimeReport::BrokenDown(tm)), Err(IndeterminateOffsetError));
    }
    // Local time two days away from the instant is no offset either.
    let tm = BrokenDownTime { years_since_1900: 70, day_of_year: 2, hour: 0, minute: 0, second: 0 };
    assert_eq!(UtcOffset::local_offset_at(0, &LocalTimeReport::BrokenDown(tm)), UtcOffset::utc());
}

#[test]
fn file_times_give_their_difference() {
    let utc = ticks(13_000_000_000);
    let local = ticks(13_000_000_000 + 9 * 3_600);
    let report = LocalTimeReport::FileTimes { utc, local };
    assert_eq!(UtcOffset::local_offset_at(0, &report), UtcOffset::hours(9).unwrap());
    let local = ticks(13_000_000_000 - 86_400);
    let report = LocalTimeReport::FileTimes { utc, local };
    assert_eq!(UtcOffset::try_local_offset_at(0, &report), Err(IndeterminateOffsetError));
}

#[test]
fn utc_calendar_of_known_instants() {
    let c = |year, month, day, hour, minute, second| CalendarTime { year, month, day, hour, minute, second };
    assert_eq!(utc_calendar(0), Some(c(1970, 1, 1, 0, 0, 0)));
    assert_eq!(utc_calendar(-1), Some(c(1969, 12, 31, 23, 59, 59)));
    assert_eq!(utc_calendar(MARCH_2000), Some(c(2000, 3, 1, 0, 0, 0)));
    assert_eq!(utc_calendar(MARCH_2000 - 1), Some(c(2000, 2, 29, 23, 59, 59)));
    assert_eq!(utc_calendar(1_700_000_000), Some(c(2023, 11, 14, 22, 13, 20)));
    assert_eq!(utc_calendar(-11_644_473_600), Some(c(1601, 1, 1, 0, 0, 0)));
    assert_eq!(utc_calendar(253_402_300_799), Some(c(9999, 12, 31, 23, 59, 59)));
    assert_eq!(utc_calendar(253_402_300_800), None);
    assert_eq!(utc_calendar(i64::MIN), None);
}
