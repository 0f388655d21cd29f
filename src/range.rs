//! The range calendar engine: which years, months and days lie in an
//! inclusive range of instants, and the one fallback rule that picks a value
//! at each level.

use crate::calendar::{
    days_from_epoch, days_in_month, is_leap_year, lemma_date_within_year,
    lemma_days_before_year_grows, month_length, month_numbered, supported_year, Day, Month, Year,
};
use crate::instant::Instant;
use vstd::prelude::*;

verus! {

/// A value that can be picked at one level of a date: a year, a month or a day.
pub trait Choice: Copy {
    /// Whether the two values are the same.
    fn same(&self, other: &Self) -> (r: bool)
        ensures
            r == (*self == *other),
    ;
}

impl Choice for i32 {
    fn same(&self, other: &Self) -> (r: bool) {
        *self == *other
    }
}

impl Choice for u32 {
    fn same(&self, other: &Self) -> (r: bool) {
        *self == *other
    }
}

impl Choice for Month {
    fn same(&self, other: &Self) -> (r: bool) {
        self.number() == other.number()
    }
}

/// The fallback rule: the preferred value where `list` holds it, else the
/// last value of `list`, else nothing.
pub open spec fn pick_or_last<T>(list: Seq<T>, preferred: Option<T>) -> Option<T> {
    if preferred is Some && list.contains(preferred->0) {
        preferred
    } else if list.len() > 0 {
        Some(list.last())
    } else {
        None
    }
}

/// The fallback rule, the same at every level.
pub fn choose_or_last<T: Choice>(list: &Vec<T>, preferred: Option<T>) -> (r: Option<T>)
    ensures
        r == pick_or_last(list@, preferred),
{
    if preferred.is_some() {
        let p: T = preferred.unwrap();
        let mut i: usize = 0;
        while i < list.len()
            invariant
                0 <= i <= list@.len(),
                preferred == Some(p),
                forall|j: int| 0 <= j < i ==> list@[j] != p,
            decreases list@.len() - i,
        {
            let x: T = list[i];
            if x.same(&p) {
                assert(list@[i as int] == p);
                assert(list@.contains(p));
                return preferred;
            }
            i += 1;
        }
        assert(!list@.contains(p));
    }
    if list.len() > 0 {
        Some(list[list.len() - 1])
    } else {
        None
    }
}

/// The number of integers from `lo` to `hi`, both included.
pub open spec fn span_len(lo: int, hi: int) -> nat {
    if lo <= hi {
        (hi - lo + 1) as nat
    } else {
        0
    }
}

/// The years from `lo` to `hi`, both included.
pub open spec fn year_span(lo: int, hi: int) -> Seq<Year> {
    Seq::new(span_len(lo, hi), |i: int| (lo + i) as Year)
}

/// The months numbered `lo` to `hi`, both included.
pub open spec fn month_span(lo: int, hi: int) -> Seq<Month> {
    Seq::new(span_len(lo, hi), |i: int| month_numbered(lo + i))
}

/// The days from `lo` to `hi`, both included.
pub open spec fn day_span(lo: int, hi: int) -> Seq<Day> {
    Seq::new(span_len(lo, hi), |i: int| (lo + i) as Day)
}

/// An inclusive range of instants. A range whose start lies after its end
/// holds no date.
#[derive(Debug, Clone, Copy, PartialEq, Eq, Structural)]
pub struct DateTimeRange {
    pub start: Instant,
    pub end: Instant,
}

impl DateTimeRange {
    /// Whether the start lies after the end, so that no date is selectable.
    pub open spec fn is_inverted(&self) -> bool {
        self.start.spec_is_after(&self.end)
    }

    /// Whether `year` is one of the range's years.
    pub open spec fn has_year(&self, year: int) -> bool {
        !self.is_inverted() && self.start.spec_year() <= year <= self.end.spec_year()
    }

    /// The years of the range, in order.
    pub open spec fn years(&self) -> Seq<Year> {
        if self.is_inverted() {
            Seq::empty()
        } else {
            year_span(self.start.spec_year() as int, self.end.spec_year() as int)
        }
    }

    /// The number of the first month of `year` in the range.
    pub open spec fn first_month(&self, year: int) -> int {
        if year == self.start.spec_year() {
            self.start.spec_month() as int
        } else {
            1
        }
    }

    /// The number of the last month of `year` in the range.
    pub open spec fn last_month(&self, year: int) -> int {
        if year == self.end.spec_year() {
            self.end.spec_month() as int
        } else {
            12
        }
    }

    /// The months of `year` in the range, in order.
    pub open spec fn months_for_year(&self, year: int) -> Seq<Month> {
        if self.has_year(year) {
            month_span(self.first_month(year), self.last_month(year))
        } else {
            Seq::empty()
        }
    }

    /// Whether `month` of `year` is one of the range's months.
    pub open spec fn has_month(&self, year: int, month: int) -> bool {
        self.has_year(year) && self.first_month(year) <= month <= self.last_month(year)
    }

    /// The first day of `month` of `year` in the range.
    pub open spec fn first_day(&self, year: int, month: int) -> int {
        if year == self.start.spec_year() && month == self.start.spec_month() {
            self.start.spec_day() as int
        } else {
            1
        }
    }

    /// The last day of `month` of `year` in the range.
    pub open spec fn last_day(&self, year: int, month: int) -> int {
        if year == self.end.spec_year() && month == self.end.spec_month() {
            self.end.spec_day() as int
        } else {
            days_in_month(year, month)
        }
    }

    /// The days of `month` of `year` in the range, in order.
    pub open spec fn days_for_year_and_month(&self, year: int, month: int) -> Seq<Day> {
        if self.has_month(year, month) {
            day_span(self.first_day(year, month), self.last_day(year, month))
        } else {
            Seq::empty()
        }
    }

    /// The year picked from the range's years: `year` where it is one of
    /// them, else the last of them, else nothing.
    pub open spec fn year_or_last(&self, year: Option<Year>) -> Option<Year> {
        pick_or_last(self.years(), year)
    }

    /// The month picked from the months of `year`: `month` where it is one
    /// of them, else the last of them; nothing where there is no year.
    pub open spec fn month_or_last(&self, month: Option<Month>, year: Option<Year>) -> Option<
        Month,
    > {
        match year {
            Some(y) => pick_or_last(self.months_for_year(y as int), month),
            None => None,
        }
    }

    /// The day picked from the days of `month` of `year`: `day` where it is
    /// one of them, else the last of them; nothing where there is no year or
    /// no month.
    pub open spec fn day_or_last(&self, day: Option<Day>, month: Option<Month>, year: Option<Year>) -> Option<Day> {
        match (year, month) {
            (Some(y), Some(m)) => pick_or_last(
                self.days_for_year_and_month(y as int, m.spec_number()),
                day,
            ),
            _ => None,
        }
    }

    /// The range from `start` to `end`, both included.
    pub fn from(start: Instant, end: Instant) -> (r: DateTimeRange)
        ensures
            r.start == start,
            r.end == end,
    {
        DateTimeRange { start, end }
    }

    /// Whether the start lies after the end.
    pub fn is_inverted_range(&self) -> (r: bool)
        ensures
            r == self.is_inverted(),
    {
        self.start.is_after(&self.end)
    }

    /// The years of the range, in order; none where the range is inverted.
    pub fn list_years(&self) -> (r: Vec<Year>)
        ensures
            r@ == self.years(),
    {
        let mut years: Vec<Year> = Vec::new();
        if self.is_inverted_range() {
            return years;
        }
        let lo: Year = self.start.year();
        let hi: Year = self.end.year();
        let mut y: Year = lo;
        while y <= hi
            invariant
                supported_year(hi as int),
                lo <= y <= hi + 1 || (y == lo && lo > hi),
                years@ =~= year_span(lo as int, y - 1),
            decreases hi + 1 - y,
        {
            years.push(y);
            y = y + 1;
        }
        assert(years@ =~= year_span(lo as int, hi as int));
        years
    }

    /// The year `year` where it is one of the range's years, else the last
    /// of them, else nothing.
    pub fn get_year_or_last(&self, year: Option<Year>) -> (r: Option<Year>)
        ensures
            r == self.year_or_last(year),
    {
        let years = self.list_years();
        choose_or_last(&years, year)
    }

    /// The months of `year` in the range, in order; none where `year` is
    /// not one of the range's years.
    pub fn list_months_for_year(&self, year: Year) -> (r: Vec<Month>)
        ensures
            r@ == self.months_for_year(year as int),
    {
        let mut months: Vec<Month> = Vec::new();
        if self.is_inverted_range() || year < self.start.year() || year > self.end.year() {
            return months;
        }
        let lo: u32 = if year == self.start.year() {
            self.start.month()
        } else {
            1
        };
        let hi: u32 = if year == self.end.year() {
            self.end.month()
        } else {
            12
        };
        let mut m: u32 = lo;
        while m <= hi
            invariant
                1 <= lo,
                hi <= 12,
                lo <= m <= hi + 1 || (m == lo && lo > hi),
                months@ =~= month_span(lo as int, m - 1),
            decreases hi + 1 - m,
        {
            months.push(Month::from_u32(m));
            m = m + 1;
        }
        assert(months@ =~= month_span(lo as int, hi as int));
        months
    }

    /// The month `month` where it is one of the months of `year` in the
    /// range, else the last of them; nothing where there is no year.
    pub fn get_month_or_last_for_year(&self, month: Option<Month>, year: Option<Year>) -> (r:
        Option<Month>)
        ensures
            r == self.month_or_last(month, year),
    {
        match year {
            Some(y) => {
                let months = self.list_months_for_year(y);
                choose_or_last(&months, month)
            },
            None => None,
        }
    }

    /// The days of `month` of `year` in the range, in order; none where that
    /// month is not one of the range's months.
    pub fn list_days_for_year_and_month(&self, year: Year, month: Month) -> (r: Vec<Day>)
        ensures
            r@ == self.days_for_year_and_month(year as int, month.spec_number()),
    {
        let mut days: Vec<Day> = Vec::new();
        if self.is_inverted_range() || year < self.start.year() || year > self.end.year() {
            return days;
        }
        let m: u32 = month.number();
        let is_start_year = year == self.start.year();
        let is_end_year = year == self.end.year();
        if (is_start_year && m < self.start.month()) || (is_end_year && m > self.end.month()) {
            return days;
        }
        let lo: u32 = if is_start_year && m == self.start.month() {
            self.start.day()
        } else {
            1
        };
        let hi: u32 = if is_end_year && m == self.end.month() {
            self.end.day()
        } else {
            month_length(year, month)
        };
        let mut d: u32 = lo;
        while d <= hi
            invariant
                1 <= lo,
                hi <= 31,
                lo <= d <= hi + 1 || (d == lo && lo > hi),
                days@ =~= day_span(lo as int, d - 1),
            decreases hi + 1 - d,
        {
            days.push(d);
            d = d + 1;
        }
        assert(days@ =~= day_span(lo as int, hi as int));
        days
    }

    /// The day `day` where it is one of the days of `month` of `year` in the
    /// range, else the last of them; nothing where there is no year or no
    /// month.
    pub fn get_day_or_last_for_month_and_year(
        &self,
        day: Option<Day>,
        month: Option<Month>,
        year: Option<Year>,
    ) -> (r: Option<Day>)
        ensures
            r == self.day_or_last(day, month, year),
    {
        match (year, month) {
            (Some(y), Some(m)) => {
                let days = self.list_days_for_year_and_month(y, m);
                choose_or_last(&days, day)
            },
            _ => None,
        }
    }
}

/// Where the start does not lie after the end, the range holds one year for
/// each year from the start's to the end's, both included. (Read at different
/// offsets, the start may show the year after the end's; the range then holds
/// no year, and the count is zero as well.)
pub proof fn lemma_year_count(range: DateTimeRange)
    requires
        range.start.has_valid_parts(),
        range.end.has_valid_parts(),
        !range.is_inverted(),
    ensures
        range.years().len() == range.end.spec_year() - range.start.spec_year() + 1,
{
    let s = range.start;
    let e = range.end;
    let ys = s.spec_year() as int;
    let ye = e.spec_year() as int;
    let ds = days_from_epoch(ys, s.spec_month() as int, s.spec_day() as int);
    let de = days_from_epoch(ye, e.spec_month() as int, e.spec_day() as int);
    // Local days differ by less than three, the offsets and times of day
    // taken together spanning less than three days.
    assert(ds < de + 3);
    if ys >= ye + 2 {
        lemma_date_within_year(ys, s.spec_month() as int, s.spec_day() as int);
        lemma_date_within_year(ye, e.spec_month() as int, e.spec_day() as int);
        lemma_days_before_year_grows(ye + 1, ys);
    }
}

/// An inverted range holds no year, no month of any year and no day of any
/// month.
pub proof fn lemma_inverted_is_empty(range: DateTimeRange)
    requires
        range.is_inverted(),
    ensures
        range.years().len() == 0,
        forall|year: int| #[trigger] range.months_for_year(year).len() == 0,
        forall|year: int, month: int| #[trigger]
            range.days_for_year_and_month(year, month).len() == 0,
{
}

/// A month of the range that is neither the start's nor the end's holds
/// every day of its calendar month: 28 days for February of a common year and
/// 29 of a leap year, 30 for April, June, September and November, and 31 for
/// the others.
pub proof fn lemma_whole_month_days(range: DateTimeRange, year: int, month: Month)
    requires
        range.has_month(year, month.spec_number()),
        !(year == range.start.spec_year() && month.spec_number() == range.start.spec_month()),
        !(year == range.end.spec_year() && month.spec_number() == range.end.spec_month()),
    ensures
        range.days_for_year_and_month(year, month.spec_number()) == day_span(
            1,
            days_in_month(year, month.spec_number()),
        ),
        month == Month::February && is_leap_year(year) ==> range.days_for_year_and_month(
            year,
            month.spec_number(),
        ).len() == 29,
        month == Month::February && !is_leap_year(year) ==> range.days_for_year_and_month(
            year,
            month.spec_number(),
        ).len() == 28,
        (month == Month::April || month == Month::June || month == Month::September || month
            == Month::November) ==> range.days_for_year_and_month(
            year,
            month.spec_number(),
        ).len() == 30,
        (month == Month::January || month == Month::March || month == Month::May || month
            == Month::July || month == Month::August || month == Month::October || month
            == Month::December) ==> range.days_for_year_and_month(
            year,
            month.spec_number(),
        ).len() == 31,
{
}

/// What the fallback rule picks is a value of the list.
pub proof fn lemma_pick_or_last_is_listed<T>(list: Seq<T>, preferred: Option<T>)
    ensures
        pick_or_last(list, preferred) matches Some(v) ==> list.contains(v),
{
    if !(preferred is Some && list.contains(preferred->0)) && list.len() > 0 {
        assert(list[list.len() - 1] == list.last());
    }
}

/// Picking again from what the fallback rule picked gives the same value.
pub proof fn lemma_pick_or_last_idempotent<T>(list: Seq<T>, preferred: Option<T>)
    ensures
        pick_or_last(list, pick_or_last(list, preferred)) == pick_or_last(list, preferred),
{
    if !(preferred is Some && list.contains(preferred->0)) && list.len() > 0 {
        assert(list.contains(list.last()));
    }
}

/// At every level, falling back from the value that a fallback gave gives
/// that value again.
pub proof fn lemma_fallbacks_idempotent(
    range: DateTimeRange,
    year: Option<Year>,
    month: Option<Month>,
    day: Option<Day>,
)
    ensures
        range.year_or_last(range.year_or_last(year)) == range.year_or_last(year),
        range.month_or_last(range.month_or_last(month, year), year) == range.month_or_last(
            month,
            year,
        ),
        range.day_or_last(range.day_or_last(day, month, year), month, year) == range.day_or_last(
            day,
            month,
            year,
        ),
{
    lemma_pick_or_last_idempotent(range.years(), year);
    if let Some(y) = year {
        lemma_pick_or_last_idempotent(range.months_for_year(y as int), month);
        if let Some(m) = month {
            lemma_pick_or_last_idempotent(
                range.days_for_year_and_month(y as int, m.spec_number()),
                day,
            );
        }
    }
}

} // verus!
