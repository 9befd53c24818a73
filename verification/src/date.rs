//! Calendar dates as plain year/month/day values.
//!
//! The log rotation logic only needs to know today's date, format it, and
//! step to the next calendar day.  A date is kept as three integers with a
//! well-formedness invariant; the only outside call is the one that reads
//! the local clock.

use chrono::Datelike;
use vstd::prelude::*;

verus! {

/// A calendar date in the proleptic Gregorian calendar, restricted to the
/// four-digit years the log file headers use.
#[derive(Clone, Copy, Debug, PartialEq, Eq, Structural)]
pub struct Date {
    pub year: u32,
    pub month: u32,
    pub day: u32,
}

/// Leap years of the Gregorian calendar.
pub open spec fn spec_is_leap_year(y: int) -> bool {
    y % 4 == 0 && (y % 100 != 0 || y % 400 == 0)
}

/// Number of days in month `m` of year `y`.
pub open spec fn spec_days_in_month(y: int, m: int) -> int {
    if m == 2 {
        if spec_is_leap_year(y) {
            29
        } else {
            28
        }
    } else if m == 4 || m == 6 || m == 9 || m == 11 {
        30
    } else {
        31
    }
}

impl Date {
    /// A valid date: a four-digit year and a day that exists in its month.
    pub open spec fn wf(self) -> bool {
        &&& 1 <= self.year <= 9999
        &&& 1 <= self.month <= 12
        &&& 1 <= self.day <= spec_days_in_month(self.year as int, self.month as int)
    }

    /// Whether the next calendar day still has a four-digit year.
    pub open spec fn has_next(self) -> bool {
        !(self.year == 9999 && self.month == 12 && self.day == 31)
    }

    /// The next calendar day, meaningful when `wf() && has_next()`.
    pub open spec fn spec_next(self) -> Date {
        if self.day < spec_days_in_month(self.year as int, self.month as int) {
            Date { year: self.year, month: self.month, day: (self.day + 1) as u32 }
        } else if self.month < 12 {
            Date { year: self.year, month: (self.month + 1) as u32, day: 1 }
        } else {
            Date { year: (self.year + 1) as u32, month: 1, day: 1 }
        }
    }

    /// Validate plain year/month/day values into a date.
    ///
    /// Returns `Some` exactly when the values form a well-formed date with
    /// a four-digit year.
    pub fn new(year: i64, month: u32, day: u32) -> (r: Option<Date>)
        ensures
            r is Some <==> {
                &&& 1 <= year <= 9999
                &&& 1 <= month <= 12
                &&& 1 <= day <= spec_days_in_month(year as int, month as int)
            },
            r matches Some(d) ==> {
                &&& d.wf()
                &&& d.year == year
                &&& d.month == month
                &&& d.day == day
            },
    {
        if 1 <= year && year <= 9999 && 1 <= month && month <= 12 {
            let y = year as u32;
            if 1 <= day && day <= days_in_month(y, month) {
                Some(Date { year: y, month, day })
            } else {
                None
            }
        } else {
            None
        }
    }

    /// Step to the next calendar day.
    ///
    /// Returns `None` only on the last representable day, 9999-12-31.
    pub fn next_day(self) -> (r: Option<Date>)
        requires
            self.wf(),
        ensures
            r is Some <==> self.has_next(),
            r matches Some(n) ==> n == self.spec_next() && n.wf(),
    {
        let dim = days_in_month(self.year, self.month);
        if self.day < dim {
            Some(Date { year: self.year, month: self.month, day: self.day + 1 })
        } else if self.month < 12 {
            Some(Date { year: self.year, month: self.month + 1, day: 1 })
        } else if self.year < 9999 {
            Some(Date { year: self.year + 1, month: 1, day: 1 })
        } else {
            None
        }
    }
}

/// Number of days in month `m` of year `y`.
pub fn days_in_month(y: u32, m: u32) -> (r: u32)
    requires
        1 <= m <= 12,
    ensures
        r == spec_days_in_month(y as int, m as int),
{
    if m == 2 {
        if (y % 4 == 0 && y % 100 != 0) || y % 400 == 0 {
            29
        } else {
            28
        }
    } else if m == 4 || m == 6 || m == 9 || m == 11 {
        30
    } else {
        31
    }
}

/// Relies on `chrono::Local::now` and the `chrono::Datelike` accessors
/// `year`, `month` and `day` to read the local calendar date.  chrono
/// documents `month()` as ranging over 1..=12 and `day()` over 1..=31;
/// nothing more is assumed of a clock reading.
#[verifier::external_body]
fn local_date_parts() -> (r: (i64, u32, u32))
    ensures
        1 <= r.1 <= 12,
        1 <= r.2 <= 31,
{
    let now = chrono::Local::now();
    (now.year() as i64, now.month(), now.day())
}

/// Today's date according to the local clock, validated into a
/// well-formed `Date`.  `None` only if the clock reports a year outside
/// 1..=9999 or an impossible day of month.
pub fn local_today() -> (r: Option<Date>)
    ensures
        r matches Some(d) ==> d.wf(),
{
    let (y, m, d) = local_date_parts();
    Date::new(y, m, d)
}

} // verus!
