//! Civil-calendar arithmetic for the scraper's date resolution: leap
//! years, month lengths, the previous day, and the unix timestamp of a
//! date anchored at midday UTC (anchoring at midday avoids classifying a
//! play into the wrong day at timezone boundaries).
//!
//! Years are kept within `0..=9999`, the range the scraper's `YYYY-MM-DD`
//! labels can denote.

use vstd::prelude::*;

verus! {

/// A calendar date, year `0..=9999`.
#[derive(Debug, Clone, Copy, PartialEq, Eq, Structural)]
pub struct CivilDate {
    pub year: i64,
    pub month: u8,
    pub day: u8,
}

/// Whether `y` is a leap year in the Gregorian calendar.
pub open spec fn is_leap_year(y: int) -> bool {
    (y % 4 == 0 && y % 100 != 0) || y % 400 == 0
}

/// How many days the month `m` of year `y` has.
pub open spec fn spec_days_in_month(y: int, m: int) -> int {
    if m == 2 {
        if is_leap_year(y) {
            29
        } else {
            28
        }
    } else if m == 4 || m == 6 || m == 9 || m == 11 {
        30
    } else {
        31
    }
}

/// A date the calendar has.
pub open spec fn date_valid(d: CivilDate) -> bool {
    &&& 0 <= d.year <= 9999
    &&& 1 <= d.month <= 12
    &&& 1 <= d.day <= spec_days_in_month(d.year as int, d.month as int)
}

/// How many days the month has.
pub fn days_in_month(year: i64, month: u8) -> (r: u8)
    requires
        1 <= month <= 12,
    ensures
        r == spec_days_in_month(year as int, month as int),
{
    if month == 2 {
        let leap = (year % 4 == 0 && year % 100 != 0) || year % 400 == 0;
        if leap {
            29
        } else {
            28
        }
    } else if month == 4 || month == 6 || month == 9 || month == 11 {
        30
    } else {
        31
    }
}

/// The day before `d` in the calendar.
pub open spec fn spec_prev_day(d: CivilDate) -> CivilDate {
    if d.day > 1 {
        CivilDate { year: d.year, month: d.month, day: (d.day - 1) as u8 }
    } else if d.month > 1 {
        CivilDate {
            year: d.year,
            month: (d.month - 1) as u8,
            day: spec_days_in_month(d.year as int, d.month - 1) as u8,
        }
    } else {
        CivilDate { year: (d.year - 1) as i64, month: 12, day: 31 }
    }
}

/// The day before `d`.
pub fn prev_day(d: CivilDate) -> (r: CivilDate)
    requires
        date_valid(d),
        d.year >= 1,
    ensures
        r == spec_prev_day(d),
        date_valid(r),
{
    if d.day > 1 {
        CivilDate { year: d.year, month: d.month, day: d.day - 1 }
    } else if d.month > 1 {
        CivilDate { year: d.year, month: d.month - 1, day: days_in_month(d.year, d.month - 1) }
    } else {
        CivilDate { year: d.year - 1, month: 12, day: 31 }
    }
}

/// How many days lie between the civil date and the unix epoch.
pub open spec fn spec_days_from_civil(year: int, month: int, day: int) -> int {
    let y = if month <= 2 {
        year - 1
    } else {
        year
    };
    let era = if y >= 0 {
        y / 400
    } else {
        -1
    };
    let yoe = y - era * 400;
    let mp = if month > 2 {
        month - 3
    } else {
        month + 9
    };
    let doy = (153 * mp + 2) / 5 + day - 1;
    let doe = yoe * 365 + yoe / 4 - yoe / 100 + doy;
    era * 146097 + doe - 719468
}

/// The unix timestamp of the date's midday, UTC.
pub open spec fn spec_midday_timestamp(d: CivilDate) -> int {
    spec_days_from_civil(d.year as int, d.month as int, d.day as int) * 86400 + 43200
}

/// The unix timestamp of the date's midday, UTC.
pub fn midday_timestamp(d: CivilDate) -> (r: i64)
    requires
        date_valid(d),
    ensures
        r == spec_midday_timestamp(d),
{
    let year: i64 = d.year;
    let month: i64 = d.month as i64;
    let day: i64 = d.day as i64;
    let y: i64 = if month <= 2 {
        year - 1
    } else {
        year
    };
    let era: i64 = if y >= 0 {
        y / 400
    } else {
        -1
    };
    let yoe: i64 = y - era * 400;
    proof {
        assert(0 <= yoe < 400) by (nonlinear_arith)
            requires
                era == (if y >= 0 { y / 400 } else { -1 }),
                yoe == y - era * 400,
                -1 <= y <= 9999,
        ;
    }
    let mp: i64 = if month > 2 {
        month - 3
    } else {
        month + 9
    };
    let doy: i64 = (153 * mp + 2) / 5 + day - 1;
    let doe: i64 = yoe * 365 + yoe / 4 - yoe / 100 + doy;
    let days: i64 = era * 146097 + doe - 719468;
    days * 86400 + 43200
}

} // verus!
