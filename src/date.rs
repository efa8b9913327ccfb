//! Calendar dates in the proleptic Gregorian calendar, as chrono accepts them.

use vstd::prelude::*;

verus! {

/// The earliest year that chrono's `NaiveDate` can hold.
pub const MIN_YEAR: i32 = -262143;

/// The latest year that chrono's `NaiveDate` can hold.
pub const MAX_YEAR: i32 = 262142;

pub open spec fn is_leap_year(year: int) -> bool {
    year % 400 == 0 || (year % 4 == 0 && year % 100 != 0)
}

/// The number of days in `month` (1 to 12) of `year`.
pub open spec fn days_in_month(year: int, month: int) -> int {
    if month == 2 {
        if is_leap_year(year) { 29 } else { 28 }
    } else if month == 4 || month == 6 || month == 9 || month == 11 {
        30
    } else {
        31
    }
}

/// Year, month and day name an existing day within chrono's range of years.
pub open spec fn is_valid_ymd(year: int, month: int, day: int) -> bool {
    &&& MIN_YEAR <= year <= MAX_YEAR
    &&& 1 <= month <= 12
    &&& 1 <= day <= days_in_month(year, month)
}

/// Relies on chrono's `NaiveDate::from_ymd_opt`, which returns `Some` exactly
/// when the calendar date exists and its year lies within `NaiveDate`'s range.
#[verifier::external_body]
fn chrono_accepts_ymd(year: i32, month: u32, day: u32) -> (r: bool)
    ensures
        r == is_valid_ymd(year as int, month as int, day as int),
{
    chrono::NaiveDate::from_ymd_opt(year, month, day).is_some()
}

/// A day of the calendar, in UTC.
#[derive(Clone, Copy, Debug, PartialEq, Eq, Structural, PartialOrd, Ord, Hash)]
pub struct ComicDate {
    pub year: i32,
    pub month: u32,
    pub day: u32,
}

impl ComicDate {
    /// The fields name an existing day.
    pub open spec fn wf(&self) -> bool {
        is_valid_ymd(self.year as int, self.month as int, self.day as int)
    }

    /// The date with these parts, or `None` where no such day exists.
    pub fn new(year: i32, month: u32, day: u32) -> (r: Option<ComicDate>)
        ensures
            r is Some <==> is_valid_ymd(year as int, month as int, day as int),
            r matches Some(d) ==> d.wf() && d.year == year && d.month == month && d.day == day,
    {
        if chrono_accepts_ymd(year, month, day) {
            Some(ComicDate { year, month, day })
        } else {
            None
        }
    }
}

} // verus!
