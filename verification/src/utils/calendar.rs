//! Days of the calendar, as far as a date of birth needs them.

use vstd::prelude::*;

verus! {

/// The first year that a date can lie in.
pub const MIN_YEAR: i32 = -262143;

/// The last year that a date can lie in.
pub const MAX_YEAR: i32 = 262142;

/// Whether `year` is a leap year of the Gregorian calendar, taken backwards
/// beyond its introduction as well.
pub open spec fn leap_year(year: int) -> bool {
    year % 4 == 0 && (year % 100 != 0 || year % 400 == 0)
}

/// The number of days of `month` in `year`, for months 1 to 12.
pub open spec fn days_in_month(year: int, month: int) -> int {
    if month == 2 {
        if leap_year(year) {
            29
        } else {
            28
        }
    } else if month == 4 || month == 6 || month == 9 || month == 11 {
        30
    } else {
        31
    }
}

/// Whether the calendar has the day `day` of `month` in `year`, within the
/// years that a date can lie in.
pub open spec fn calendar_date(year: int, month: int, day: int) -> bool {
    &&& MIN_YEAR <= year <= MAX_YEAR
    &&& 1 <= month <= 12
    &&& 1 <= day <= days_in_month(year, month)
}

/// `chrono::NaiveDate::from_ymd_opt` gives a date exactly for the days that
/// exist in the proleptic Gregorian calendar, in the years from `MIN_YEAR` to
/// `MAX_YEAR`; this says whether it gave one.
#[verifier::external_body]
fn on_calendar(year: i32, month: u32, day: u32) -> (r: bool)
    ensures
        r == calendar_date(year as int, month as int, day as int),
{
    match chrono::NaiveDate::from_ymd_opt(year, month, day) {
        Some(_) => true,
        None => false,
    }
}

/// A day of the calendar: year, month and day of the month.
#[derive(Clone, Copy, Debug, PartialEq, Eq)]
pub struct BirthDate {
    year: i32,
    month: u32,
    day: u32,
}

impl BirthDate {
    /// Every value is a day that the calendar has.
    #[verifier::type_invariant]
    spec fn on_calendar(self) -> bool {
        calendar_date(self.year as int, self.month as int, self.day as int)
    }

    /// The year.
    pub closed spec fn spec_year(&self) -> i32 {
        self.year
    }

    /// The month, 1 to 12.
    pub closed spec fn spec_month(&self) -> u32 {
        self.month
    }

    /// The day of the month, from 1.
    pub closed spec fn spec_day(&self) -> u32 {
        self.day
    }

    /// The day `day` of `month` in `year`, or `None` where the calendar has
    /// no such day.
    pub fn from_ymd_opt(year: i32, month: u32, day: u32) -> (r: Option<BirthDate>)
        ensures
            r is Some <==> calendar_date(year as int, month as int, day as int),
            r matches Some(date) ==> date.spec_year() == year && date.spec_month() == month
                && date.spec_day() == day,
    {
        if on_calendar(year, month, day) {
            Some(BirthDate { year, month, day })
        } else {
            None
        }
    }

    /// The year.
    #[verifier::when_used_as_spec(spec_year)]
    pub fn year(&self) -> (y: i32)
        ensures
            y == self.spec_year(),
    {
        self.year
    }

    /// The month, 1 to 12.
    #[verifier::when_used_as_spec(spec_month)]
    pub fn month(&self) -> (m: u32)
        ensures
            m == self.spec_month(),
            1 <= m <= 12,
    {
        proof {
            use_type_invariant(self);
        }
        self.month
    }

    /// The day of the month, 1 to 31.
    #[verifier::when_used_as_spec(spec_day)]
    pub fn day(&self) -> (d: u32)
        ensures
            d == self.spec_day(),
            1 <= d <= 31,
    {
        proof {
            use_type_invariant(self);
        }
        self.day
    }
}

} // verus!
