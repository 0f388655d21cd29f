//! Calendar vocabulary: years, months and days, and the length of a month.

use chrono::Datelike;
use chrono::NaiveDate;
use vstd::prelude::*;

verus! {

/// A calendar year, as chrono numbers it (year 0 is 1 BCE).
pub type Year = i32;

/// A day of a month, counted from 1.
pub type Day = u32;

/// The earliest year that chrono's dates can hold.
pub const MIN_YEAR: i32 = -262143;

/// The latest year that chrono's dates can hold.
pub const MAX_YEAR: i32 = 262142;

/// A month of the year.
#[derive(Debug, Clone, Copy, PartialEq, Eq, Structural)]
pub enum Month {
    January,
    February,
    March,
    April,
    May,
    June,
    July,
    August,
    September,
    October,
    November,
    December,
}

/// The month numbered `n`, where 1 is January and 12 is December.
pub open spec fn month_numbered(n: int) -> Month {
    if n == 1 {
        Month::January
    } else if n == 2 {
        Month::February
    } else if n == 3 {
        Month::March
    } else if n == 4 {
        Month::April
    } else if n == 5 {
        Month::May
    } else if n == 6 {
        Month::June
    } else if n == 7 {
        Month::July
    } else if n == 8 {
        Month::August
    } else if n == 9 {
        Month::September
    } else if n == 10 {
        Month::October
    } else if n == 11 {
        Month::November
    } else {
        Month::December
    }
}

/// The English name of a month.
pub open spec fn month_name(m: Month) -> Seq<char> {
    match m {
        Month::January => "January"@,
        Month::February => "February"@,
        Month::March => "March"@,
        Month::April => "April"@,
        Month::May => "May"@,
        Month::June => "June"@,
        Month::July => "July"@,
        Month::August => "August"@,
        Month::September => "September"@,
        Month::October => "October"@,
        Month::November => "November"@,
        Month::December => "December"@,
    }
}

/// Whether `year` is a leap year of the proleptic Gregorian calendar.
pub open spec fn is_leap_year(year: int) -> bool {
    (year % 4 == 0 && year % 100 != 0) || year % 400 == 0
}

/// The number of days of month `month` (1 to 12) of `year`.
pub open spec fn days_in_month(year: int, month: int) -> int {
    if month == 2 {
        if is_leap_year(year) {
            29
        } else {
            28
        }
    } else if month == 4 || month == 6 || month == 9 || month == 11 {
        30
    } else {
        31
    }
}

/// The number of leap years from year 0 up to, not including, `year` (negative
/// where `year` is below 0).
pub open spec fn leap_years_before(year: int) -> int {
    (year + 3) / 4 - (year + 99) / 100 + (year + 399) / 400
}

/// The number of days from 1 January of year 0 to 1 January of `year`.
pub open spec fn days_before_year(year: int) -> int {
    365 * year + leap_years_before(year)
}

/// The number of days of `year` before the first of month `month`.
pub open spec fn days_before_month(year: int, month: int) -> int {
    let leap_day: int = if month > 2 && is_leap_year(year) {
        1
    } else {
        0
    };
    let before: int = if month <= 1 {
        0
    } else if month == 2 {
        31
    } else if month == 3 {
        59
    } else if month == 4 {
        90
    } else if month == 5 {
        120
    } else if month == 6 {
        151
    } else if month == 7 {
        181
    } else if month == 8 {
        212
    } else if month == 9 {
        243
    } else if month == 10 {
        273
    } else if month == 11 {
        304
    } else {
        334
    };
    leap_day + before
}

/// The number of days from 1970-01-01 to the given date of the proleptic
/// Gregorian calendar, negative before it.
pub open spec fn days_from_epoch(year: int, month: int, day: int) -> int {
    days_before_year(year) + days_before_month(year, month) + day - 1 - 719_528
}

/// A year holds 366 days where it is a leap year and 365 where it is not.
pub proof fn lemma_year_length(year: int)
    ensures
        days_before_year(year + 1) - days_before_year(year) == if is_leap_year(year) {
            366int
        } else {
            365int
        },
{
    assert((year + 4) / 4 - (year + 3) / 4 == if year % 4 == 0 { 1int } else { 0int });
    assert((year + 100) / 100 - (year + 99) / 100 == if year % 100 == 0 { 1int } else { 0int });
    assert((year + 400) / 400 - (year + 399) / 400 == if year % 400 == 0 { 1int } else { 0int });
}

/// Later years start at least 365 days later for each year between.
pub proof fn lemma_days_before_year_grows(a: int, b: int)
    requires
        a <= b,
    ensures
        days_before_year(b) - days_before_year(a) >= 365 * (b - a),
    decreases b - a,
{
    if a < b {
        lemma_days_before_year_grows(a, b - 1);
        lemma_year_length(b - 1);
    }
}

/// A date lies within its year: on or after its first day, before the next
/// year's.
pub proof fn lemma_date_within_year(year: int, month: int, day: int)
    requires
        is_valid_date(year, month, day),
    ensures
        days_before_year(year) <= days_from_epoch(year, month, day) + 719_528 < days_before_year(
            year + 1,
        ),
{
    lemma_year_length(year);
}

/// Whether `year` lies in the span of years that chrono's dates can hold.
pub open spec fn supported_year(year: int) -> bool {
    MIN_YEAR <= year <= MAX_YEAR
}

/// Whether `year`, `month`, `day` name a day of the calendar.
pub open spec fn is_valid_date(year: int, month: int, day: int) -> bool {
    1 <= month <= 12 && 1 <= day <= days_in_month(year, month)
}

impl Month {
    /// The number of the month, 1 for January to 12 for December.
    pub open spec fn spec_number(self) -> int {
        match self {
            Month::January => 1,
            Month::February => 2,
            Month::March => 3,
            Month::April => 4,
            Month::May => 5,
            Month::June => 6,
            Month::July => 7,
            Month::August => 8,
            Month::September => 9,
            Month::October => 10,
            Month::November => 11,
            Month::December => 12,
        }
    }

    /// The number of the month, 1 for January to 12 for December.
    pub fn number(&self) -> (r: u32)
        ensures
            r == self.spec_number(),
            1 <= r <= 12,
            month_numbered(r as int) == *self,
    {
        match self {
            Month::January => 1,
            Month::February => 2,
            Month::March => 3,
            Month::April => 4,
            Month::May => 5,
            Month::June => 6,
            Month::July => 7,
            Month::August => 8,
            Month::September => 9,
            Month::October => 10,
            Month::November => 11,
            Month::December => 12,
        }
    }

    /// The English name of the month.
    pub fn name(&self) -> (r: &'static str)
        ensures
            r@ == month_name(*self),
    {
        match self {
            Month::January => "January",
            Month::February => "February",
            Month::March => "March",
            Month::April => "April",
            Month::May => "May",
            Month::June => "June",
            Month::July => "July",
            Month::August => "August",
            Month::September => "September",
            Month::October => "October",
            Month::November => "November",
            Month::December => "December",
        }
    }

    /// The month for any integer, wrapping round the year: `n` is read as
    /// `((n - 1) mod 12) + 1`, so 0 and 12 give December and 13 gives January.
    pub fn from_u32(month: u32) -> (r: Month)
        ensures
            r == month_numbered(((month as int - 1) % 12) + 1),
            month % 12 == 0 ==> r == Month::December,
            month % 12 != 0 ==> r.spec_number() == month % 12,
    {
        let rest: u32 = month % 12;
        if rest == 1 {
            Month::January
        } else if rest == 2 {
            Month::February
        } else if rest == 3 {
            Month::March
        } else if rest == 4 {
            Month::April
        } else if rest == 5 {
            Month::May
        } else if rest == 6 {
            Month::June
        } else if rest == 7 {
            Month::July
        } else if rest == 8 {
            Month::August
        } else if rest == 9 {
            Month::September
        } else if rest == 10 {
            Month::October
        } else if rest == 11 {
            Month::November
        } else {
            Month::December
        }
    }
}

/// Relies on chrono's `NaiveDate::from_ymd_opt`, which builds the first day
/// of the month, and `Datelike::num_days_in_month`, which gives the length of
/// that month in the proleptic Gregorian calendar. Both succeed for every
/// month of a year that chrono's dates hold.
#[verifier::external_body]
fn chrono_month_length(year: i32, month: u32) -> (r: u32)
    requires
        supported_year(year as int),
        1 <= month <= 12,
    ensures
        r == days_in_month(year as int, month as int),
{
    NaiveDate::from_ymd_opt(year, month, 1).unwrap().num_days_in_month() as u32
}

/// The number of days of `month` in `year`.
pub fn month_length(year: Year, month: Month) -> (r: Day)
    requires
        supported_year(year as int),
    ensures
        r == days_in_month(year as int, month.spec_number()),
        28 <= r <= 31,
{
    chrono_month_length(year, month.number())
}

} // verus!
