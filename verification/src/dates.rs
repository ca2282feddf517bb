//! Calendar dates with day precision.
//!
//! The portal reports dates as `DD-MM-YYYY` strings; the library keeps them
//! as plain year/month/day triples and compares them through a serial day
//! number that rises by one per calendar day.

use vstd::prelude::*;

verus! {

/// A calendar date in the proleptic Gregorian calendar.
#[derive(Clone, Copy, PartialEq, Eq, Structural, Debug)]
pub struct Date {
    pub year: u32,
    pub month: u32,
    pub day: u32,
}

/// Gregorian leap-year rule.
pub open spec fn is_leap_year(y: int) -> bool {
    (y % 4 == 0 && y % 100 != 0) || y % 400 == 0
}

/// Days in a month of a given year.
pub open spec fn days_in_month(y: int, m: int) -> int {
    if m == 2 {
        if is_leap_year(y) {
            29
        } else {
            28
        }
    } else if m == 4 || m == 6 || m == 9 || m == 11 {
        30
    } else {
        31
    }
}

/// Days in a month of a given year.
pub fn days_in_month_of(year: u32, month: u32) -> (d: u32)
    requires
        1 <= month <= 12,
    ensures
        d == days_in_month(year as int, month as int),
{
    if month == 2 {
        if (year % 4 == 0 && year % 100 != 0) || year % 400 == 0 {
            29
        } else {
            28
        }
    } else if month == 4 || month == 6 || month == 9 || month == 11 {
        30
    } else {
        31
    }
}

impl Date {
    /// A real calendar date within the supported year range.
    pub open spec fn valid(self) -> bool {
        &&& 1 <= self.year <= 9999
        &&& 1 <= self.month <= 12
        &&& 1 <= self.day <= days_in_month(self.year as int, self.month as int)
    }

    /// The date's serial day number, which rises by exactly one per calendar
    /// day (the standard civil-from-days formula over eras of 400 years).
    pub open spec fn spec_day_number(self) -> int {
        let y: int = if self.month <= 2 {
            self.year - 1
        } else {
            self.year as int
        };
        let era: int = y / 400;
        let yoe: int = y - era * 400;
        let mp: int = if self.month > 2 {
            self.month - 3
        } else {
            self.month + 9
        };
        let doy: int = (153 * mp + 2) / 5 + self.day - 1;
        let doe: int = yoe * 365 + yoe / 4 - yoe / 100 + doy;
        era * 146097 + doe
    }

    /// Compute the serial day number.
    pub fn day_number(&self) -> (n: u64)
        requires
            self.valid(),
        ensures
            n == self.spec_day_number(),
            n <= 3_700_000,
    {
        let y: u64 = if self.month <= 2 {
            (self.year - 1) as u64
        } else {
            self.year as u64
        };
        let era: u64 = y / 400;
        let yoe: u64 = y - era * 400;
        let mp: u64 = if self.month > 2 {
            (self.month - 3) as u64
        } else {
            (self.month + 9) as u64
        };
        let doy: u64 = (153 * mp + 2) / 5 + self.day as u64 - 1;
        let doe: u64 = yoe * 365 + yoe / 4 - yoe / 100 + doy;
        era * 146097 + doe
    }
}

} // verus!
