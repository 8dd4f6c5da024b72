//! Calendar dates, as far as staleness needs them.

use vstd::prelude::*;

verus! {

/// The first and the last year that a date can have.
pub const MIN_YEAR: i32 = -9999;

pub const MAX_YEAR: i32 = 9999;

/// A date of the proleptic Gregorian calendar. Dates are ordered by year,
/// then month, then day.
#[derive(Debug, Clone, Copy, PartialEq, Eq, Structural)]
pub struct Date {
    pub year: i32,
    pub month: u8,
    pub day: u8,
}

/// Whether a year has a 29 February.
pub open spec fn spec_is_leap_year(year: int) -> bool {
    year % 4 == 0 && (year % 100 != 0 || year % 400 == 0)
}

/// The number of days of a month; of a month that does not exist, zero.
pub open spec fn spec_days_in_month(year: int, month: int) -> int {
    if month == 2 {
        if spec_is_leap_year(year) {
            29
        } else {
            28
        }
    } else if month == 4 || month == 6 || month == 9 || month == 11 {
        30
    } else if 1 <= month <= 12 {
        31
    } else {
        0
    }
}

/// The date that lies `seconds` of elapsed time after `date`, as
/// `time::Date::checked_add` computes it; `None` where that date cannot be
/// represented.
pub uninterp spec fn date_after(date: Date, seconds: i64) -> Option<Date>;

/// Whether a year has a 29 February.
pub fn is_leap_year(year: i32) -> (leap: bool)
    ensures
        leap == spec_is_leap_year(year as int),
{
    // 2_147_483_648 is a multiple of 400 no less than any negated year.
    let shifted: i64 = year as i64 + 2_147_483_600i64;
    assert(shifted == year + 400 * 5_368_709);
    assert(shifted % 4 == (year as int) % 4 && shifted % 100 == (year as int) % 100 && shifted
        % 400 == (year as int) % 400);
    shifted % 4 == 0 && (shifted % 100 != 0 || shifted % 400 == 0)
}

/// The number of days of a month; of a month that does not exist, zero.
pub fn days_in_month(year: i32, month: u8) -> (days: u8)
    ensures
        days == spec_days_in_month(year as int, month as int),
{
    if month == 2 {
        if is_leap_year(year) {
            29
        } else {
            28
        }
    } else if month == 4 || month == 6 || month == 9 || month == 11 {
        30
    } else if 1 <= month && month <= 12 {
        31
    } else {
        0
    }
}

impl Date {
    /// Whether the fields name a day that exists, in a year that can be
    /// represented.
    pub open spec fn wf(self) -> bool {
        &&& MIN_YEAR <= self.year <= MAX_YEAR
        &&& 1 <= self.month <= 12
        &&& 1 <= self.day <= spec_days_in_month(self.year as int, self.month as int)
    }

    /// The order of dates: by year, then month, then day.
    pub open spec fn spec_le(self, other: Date) -> bool {
        self.year < other.year || (self.year == other.year && (self.month < other.month || (
        self.month == other.month && self.day <= other.day)))
    }

    /// The same day of the given month and year, or the last day of that
    /// month where it is shorter; `None` past the last year.
    pub open spec fn spec_on(self, year: int, month: int) -> Option<Date> {
        if year > MAX_YEAR {
            None
        } else {
            let last = spec_days_in_month(year, month);
            Some(
                Date {
                    year: year as i32,
                    month: month as u8,
                    day: if self.day as int <= last {
                        self.day
                    } else {
                        last as u8
                    },
                },
            )
        }
    }

    /// The date one calendar month on.
    pub open spec fn spec_next_month(self) -> Option<Date> {
        if self.month >= 12 {
            self.spec_on(self.year + 1, 1)
        } else {
            self.spec_on(self.year as int, self.month + 1)
        }
    }

    /// The date one calendar year on.
    pub open spec fn spec_next_year(self) -> Option<Date> {
        self.spec_on(self.year + 1, self.month as int)
    }

    /// Makes a date from year, month and day, if that day exists.
    pub fn from_calendar_date(year: i32, month: u8, day: u8) -> (r: Option<Date>)
        ensures
            r == if (Date { year, month, day }).wf() {
                Some(Date { year, month, day })
            } else {
                None
            },
    {
        if MIN_YEAR <= year && year <= MAX_YEAR && 1 <= month && month <= 12 && 1 <= day && day
            <= days_in_month(year, month) {
            Some(Date { year, month, day })
        } else {
            None
        }
    }

    /// Whether this date is `other` or lies before it.
    pub fn le(&self, other: &Date) -> (r: bool)
        ensures
            r == self.spec_le(*other),
    {
        self.year < other.year || (self.year == other.year && (self.month < other.month || (
        self.month == other.month && self.day <= other.day)))
    }

    /// The same day of the given month, clamped to the month's length.
    fn on(&self, year: i32, month: u8) -> (r: Option<Date>)
        ensures
            r == self.spec_on(year as int, month as int),
    {
        if year > MAX_YEAR {
            None
        } else {
            let last = days_in_month(year, month);
            let day = if self.day <= last {
                self.day
            } else {
                last
            };
            Some(Date { year, month, day })
        }
    }

    /// The date one calendar month on: the same day of the next month, or
    /// that month's last day where it is shorter.
    pub fn next_month(&self) -> (r: Option<Date>)
        ensures
            r == self.spec_next_month(),
    {
        if self.month >= 12 {
            if self.year >= MAX_YEAR {
                None
            } else {
                self.on(self.year + 1, 1)
            }
        } else {
            self.on(self.year, self.month + 1)
        }
    }

    /// The date one calendar year on: the same day of the same month, or the
    /// 28th for a 29 February.
    pub fn next_year(&self) -> (r: Option<Date>)
        ensures
            r == self.spec_next_year(),
    {
        if self.year >= MAX_YEAR {
            None
        } else {
            self.on(self.year + 1, self.month)
        }
    }

    /// Stepping on the calendar keeps a date valid and moves it forward.
    pub proof fn lemma_calendar_step(self)
        requires
            self.wf(),
        ensures
            self.spec_next_month() matches Some(next) ==> next.wf() && self.spec_le(next) && next
                != self,
            self.spec_next_year() matches Some(next) ==> next.wf() && self.spec_le(next) && next
                != self,
    {
    }
}

/// Calls `time::Date::checked_add` on the date with a duration of `seconds`
/// seconds, of which it takes the whole days. The result is the named date.
/// A date that does not exist has no result.
#[verifier::external_body]
pub(crate) fn plus_seconds(date: Date, seconds: i64) -> (r: Option<Date>)
    ensures
        r == date_after(date, seconds),
{
    let month = time::Month::try_from(date.month).ok()?;
    let start = time::Date::from_calendar_date(date.year, month, date.day).ok()?;
    let end = start.checked_add(time::Duration::seconds(seconds))?;
    Some(Date { year: end.year(), month: u8::from(end.month()), day: end.day() })
}

} // verus!
