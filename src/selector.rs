//! The cascading selection controller: the year, month and day chosen in a
//! range, kept consistent with each other and with the range as each level
//! changes, and the date they make.

use crate::calendar::{month_name, month_numbered, Day, Month, Year};
use crate::instant::{is_valid_instant, Instant};
use crate::range::{lemma_pick_or_last_is_listed, DateTimeRange};
use crate::select_option::{decimal, SelectOption};
use vstd::prelude::*;

verus! {

/// The value chosen at each level; a level with no value has nothing chosen.
#[derive(Debug, Clone, Copy, PartialEq, Eq, Structural)]
pub struct SelectionState {
    pub year: Option<Year>,
    pub month: Option<Month>,
    pub day: Option<Day>,
}

/// A choice made by the user at one level.
#[derive(Debug, Clone, Copy, PartialEq, Eq, Structural)]
pub enum Selection {
    Year(Year),
    Month(Month),
    Day(Day),
}

/// The state that a range and a preselected instant start with: each level
/// takes the preselected value where the level above allows it, else the
/// last value allowed.
pub open spec fn initial_selection(range: DateTimeRange, preselect: Instant) -> SelectionState {
    let year = range.year_or_last(Some(preselect.spec_year()));
    let month = range.month_or_last(Some(month_numbered(preselect.spec_month() as int)), year);
    let day = range.day_or_last(Some(preselect.spec_day()), month, year);
    SelectionState { year, month, day }
}

/// The state after one choice: the level chosen takes the value, then each
/// level below it, in order, keeps its value where the levels above allow it
/// and else falls back to the last value allowed.
pub open spec fn next_selection(
    range: DateTimeRange,
    state: SelectionState,
    selection: Selection,
) -> SelectionState {
    match selection {
        Selection::Year(y) => {
            let month = range.month_or_last(state.month, Some(y));
            let day = range.day_or_last(state.day, month, Some(y));
            SelectionState { year: Some(y), month, day }
        },
        Selection::Month(m) => {
            let day = range.day_or_last(state.day, Some(m), state.year);
            SelectionState { year: state.year, month: Some(m), day }
        },
        Selection::Day(d) => SelectionState { year: state.year, month: state.month, day: Some(d) },
    }
}

/// Whether the month chosen is one that the chosen year offers, and the day
/// chosen one that the chosen month offers.
pub open spec fn is_consistent(range: DateTimeRange, state: SelectionState) -> bool {
    &&& (state.month matches Some(m) ==> state.year matches Some(y)
        && range.months_for_year(y as int).contains(m))
    &&& (state.day matches Some(d) ==> (state.year, state.month) matches (Some(y), Some(m))
        && range.days_for_year_and_month(y as int, m.spec_number()).contains(d))
}

/// Whether a selector over `range` in `state` reports a date: only where the
/// range is not inverted and every level has a value.
pub open spec fn reports_date(range: DateTimeRange, state: SelectionState) -> bool {
    !range.is_inverted() && state.is_complete()
}

impl SelectionState {
    /// Whether every level has a value, so that the three may make a date.
    pub open spec fn is_complete(&self) -> bool {
        self.year is Some && self.month is Some && self.day is Some
    }

    /// The state that `range` and `preselect` start with.
    #[verifier::rlimit(40)]
    pub fn initial(range: &DateTimeRange, preselect: &Instant) -> (r: SelectionState)
        ensures
            r == initial_selection(*range, *preselect),
    {
        let year = range.get_year_or_last(Some(preselect.year()));
        let month = range.get_month_or_last_for_year(Some(Month::from_u32(preselect.month())), year);
        let day = range.get_day_or_last_for_month_and_year(Some(preselect.day()), month, year);
        SelectionState { year, month, day }
    }

    /// The state after `selection`, the year settled first, then the month,
    /// then the day.
    pub fn next(&self, range: &DateTimeRange, selection: Selection) -> (r: SelectionState)
        ensures
            r == next_selection(*range, *self, selection),
    {
        match selection {
            Selection::Year(y) => {
                let month = range.get_month_or_last_for_year(self.month, Some(y));
                let day = range.get_day_or_last_for_month_and_year(self.day, month, Some(y));
                SelectionState { year: Some(y), month, day }
            },
            Selection::Month(m) => {
                let day = range.get_day_or_last_for_month_and_year(self.day, Some(m), self.year);
                SelectionState { year: self.year, month: Some(m), day }
            },
            Selection::Day(d) => SelectionState { year: self.year, month: self.month, day: Some(d) },
        }
    }
}

/// A date selector over a range: the range, the instant it was opened at,
/// and what is chosen now.
#[derive(Debug, Clone, Copy, PartialEq, Eq, Structural)]
pub struct DateSelector {
    pub range: DateTimeRange,
    pub preselect: Instant,
    pub state: SelectionState,
}

impl DateSelector {
    /// A selector over `range`, opened at `preselect`.
    pub fn new(range: DateTimeRange, preselect: Instant) -> (r: DateSelector)
        ensures
            r.range == range,
            r.preselect == preselect,
            r.state == initial_selection(range, preselect),
    {
        let state = SelectionState::initial(&range, &preselect);
        DateSelector { range, preselect, state }
    }

    /// Applies one choice of the user.
    pub fn select(&mut self, selection: Selection)
        ensures
            final(self).range == old(self).range,
            final(self).preselect == old(self).preselect,
            final(self).state == next_selection(old(self).range, old(self).state, selection),
    {
        self.state = self.state.next(&self.range, selection);
    }

    /// The date chosen: the preselected instant with its year, month and day
    /// replaced by those chosen, its time of day and offset kept; nothing
    /// where the range is inverted, a level has no value or the three make no
    /// date.
    pub fn selected_date(&self) -> (r: Option<Instant>)
        ensures
            !reports_date(self.range, self.state) ==> r is None,
            self.range.is_inverted() ==> r is None,
            reports_date(self.range, self.state) ==> {
                let y = self.state.year->0;
                let m = self.state.month->0;
                let d = self.state.day->0;
                &&& (r is Some <==> is_valid_instant(
                    y as int,
                    m.spec_number(),
                    d as int,
                    self.preselect.spec_hour() as int,
                    self.preselect.spec_minute() as int,
                    self.preselect.spec_second() as int,
                    self.preselect.spec_nanosecond() as int,
                    self.preselect.spec_offset() as int,
                ))
                &&& (r matches Some(i) ==> {
                    &&& i.spec_year() == y
                    &&& i.spec_month() == m.spec_number()
                    &&& i.spec_day() == d
                    &&& i.spec_hour() == self.preselect.spec_hour()
                    &&& i.spec_minute() == self.preselect.spec_minute()
                    &&& i.spec_second() == self.preselect.spec_second()
                    &&& i.spec_nanosecond() == self.preselect.spec_nanosecond()
                    &&& i.spec_offset() == self.preselect.spec_offset()
                })
            },
    {
        if self.range.is_inverted_range() {
            return None;
        }
        match (self.state.year, self.state.month, self.state.day) {
            (Some(y), Some(m), Some(d)) => self.preselect.with_date(y, m, d),
            _ => None,
        }
    }

    /// The options of the year list: the range's years, the chosen one
    /// selected.
    pub fn year_options(&self) -> (r: Vec<SelectOption>)
        ensures
            r@.len() == self.range.years().len(),
            forall|i: int|
                0 <= i < r@.len() ==> {
                    let y = #[trigger] self.range.years()[i];
                    &&& r@[i].value@ == decimal(y as int)
                    &&& r@[i].inner_html@ == decimal(y as int)
                    &&& r@[i].selected == (self.state.year == Some(y))
                    &&& !r@[i].disabled
                },
    {
        let years = self.range.list_years();
        let mut options: Vec<SelectOption> = Vec::new();
        let mut i: usize = 0;
        while i < years.len()
            invariant
                years@ == self.range.years(),
                0 <= i <= years@.len(),
                options@.len() == i,
                forall|j: int|
                    0 <= j < i ==> {
                        let y = #[trigger] self.range.years()[j];
                        &&& options@[j].value@ == decimal(y as int)
                        &&& options@[j].inner_html@ == decimal(y as int)
                        &&& options@[j].selected == (self.state.year == Some(y))
                        &&& !options@[j].disabled
                    },
            decreases years@.len() - i,
        {
            let y = years[i];
            let chosen = match self.state.year {
                Some(c) => c == y,
                None => false,
            };
            options.push(SelectOption::from_year(y).selected(chosen));
            i += 1;
        }
        options
    }

    /// The options of the month list: the months of the chosen year, the
    /// chosen one selected; none where no year is chosen.
    pub fn month_options(&self) -> (r: Vec<SelectOption>)
        ensures
            self.state.year is None ==> r@.len() == 0,
            self.state.year matches Some(year) ==> {
                let months = self.range.months_for_year(year as int);
                &&& r@.len() == months.len()
                &&& forall|i: int|
                    0 <= i < r@.len() ==> {
                        let m = #[trigger] months[i];
                        &&& r@[i].value@ == decimal(m.spec_number())
                        &&& r@[i].inner_html@ == month_name(m)
                        &&& r@[i].selected == (self.state.month == Some(m))
                        &&& !r@[i].disabled
                    }
            },
    {
        let mut options: Vec<SelectOption> = Vec::new();
        match self.state.year {
            Some(year) => {
                let months = self.range.list_months_for_year(year);
                let mut i: usize = 0;
                while i < months.len()
                    invariant
                        self.state.year == Some(year),
                        months@ == self.range.months_for_year(year as int),
                        0 <= i <= months@.len(),
                        options@.len() == i,
                        forall|j: int|
                            0 <= j < i ==> {
                                let m = #[trigger] months@[j];
                                &&& options@[j].value@ == decimal(m.spec_number())
                                &&& options@[j].inner_html@ == month_name(m)
                                &&& options@[j].selected == (self.state.month == Some(m))
                                &&& !options@[j].disabled
                            },
                    decreases months@.len() - i,
                {
                    let m = months[i];
                    let chosen = match self.state.month {
                        Some(c) => c.number() == m.number(),
                        None => false,
                    };
                    options.push(SelectOption::from_month(m).selected(chosen));
                    i += 1;
                }
            },
            None => {},
        }
        options
    }

    /// The options of the day list: the days of the chosen month of the
    /// chosen year, the chosen one selected; none where no year or no month
    /// is chosen.
    pub fn day_options(&self) -> (r: Vec<SelectOption>)
        ensures
            (self.state.year is None || self.state.month is None) ==> r@.len() == 0,
            (self.state.year, self.state.month) matches (Some(year), Some(month)) ==> {
                let days = self.range.days_for_year_and_month(year as int, month.spec_number());
                &&& r@.len() == days.len()
                &&& forall|i: int|
                    0 <= i < r@.len() ==> {
                        let d = #[trigger] days[i];
                        &&& r@[i].value@ == decimal(d as int)
                        &&& r@[i].inner_html@ == decimal(d as int)
                        &&& r@[i].selected == (self.state.day == Some(d))
                        &&& !r@[i].disabled
                    }
            },
    {
        let mut options: Vec<SelectOption> = Vec::new();
        match (self.state.year, self.state.month) {
            (Some(year), Some(month)) => {
                let days = self.range.list_days_for_year_and_month(year, month);
                let mut i: usize = 0;
                while i < days.len()
                    invariant
                        self.state.year == Some(year),
                        self.state.month == Some(month),
                        days@ == self.range.days_for_year_and_month(
                            year as int,
                            month.spec_number(),
                        ),
                        0 <= i <= days@.len(),
                        options@.len() == i,
                        forall|j: int|
                            0 <= j < i ==> {
                                let d = #[trigger] days@[j];
                                &&& options@[j].value@ == decimal(d as int)
                                &&& options@[j].inner_html@ == decimal(d as int)
                                &&& options@[j].selected == (self.state.day == Some(d))
                                &&& !options@[j].disabled
                            },
                    decreases days@.len() - i,
                {
                    let d = days[i];
                    let chosen = match self.state.day {
                        Some(c) => c == d,
                        None => false,
                    };
                    options.push(SelectOption::from_day(d).selected(chosen));
                    i += 1;
                }
            },
            _ => {},
        }
        options
    }
}

/// An inverted range reports no date on any settle: not when the selector
/// opens, and not after any choice, whatever was chosen before.
pub proof fn lemma_inverted_range_reports_no_date(
    range: DateTimeRange,
    preselect: Instant,
    state: SelectionState,
    selection: Selection,
)
    requires
        range.is_inverted(),
    ensures
        !reports_date(range, initial_selection(range, preselect)),
        !reports_date(range, next_selection(range, state, selection)),
        !initial_selection(range, preselect).is_complete(),
{
}

/// A range within one year offers that year alone, and the selector opens on
/// it; within one month of one year it offers that month alone, opened on;
/// within one day, that day alone, opened on.
pub proof fn lemma_single_value_ranges(range: DateTimeRange, preselect: Instant)
    requires
        range.start.has_valid_parts(),
        !range.is_inverted(),
        range.start.spec_year() == range.end.spec_year(),
    ensures
        range.years() == seq![range.start.spec_year()],
        initial_selection(range, preselect).year == Some(range.start.spec_year()),
        range.start.spec_month() == range.end.spec_month() ==> {
            let month = month_numbered(range.start.spec_month() as int);
            &&& range.months_for_year(range.start.spec_year() as int) == seq![month]
            &&& initial_selection(range, preselect).month == Some(month)
        },
        range.start.spec_month() == range.end.spec_month() && range.start.spec_day()
            == range.end.spec_day() ==> {
            let month = month_numbered(range.start.spec_month() as int);
            &&& range.days_for_year_and_month(
                range.start.spec_year() as int,
                month.spec_number(),
            ) == seq![range.start.spec_day()]
            &&& initial_selection(range, preselect).day == Some(range.start.spec_day())
        },
{
}

/// The selector opens consistent, and stays so after every choice of a year,
/// and after every choice of a month or a day that the list of its level
/// offers: the cascade settles each level below the one chosen against the
/// levels above as they now stand.
pub proof fn lemma_settled_state_is_consistent(
    range: DateTimeRange,
    preselect: Instant,
    state: SelectionState,
    selection: Selection,
)
    ensures
        is_consistent(range, initial_selection(range, preselect)),
        selection is Year ==> is_consistent(range, next_selection(range, state, selection)),
        (selection matches Selection::Month(m) && state.year matches Some(y)
            && range.months_for_year(y as int).contains(m)) ==> is_consistent(
            range,
            next_selection(range, state, selection),
        ),
        (selection matches Selection::Day(d) && is_consistent(range, state) && state.year is Some
            && state.month is Some && range.days_for_year_and_month(
            state.year->0 as int,
            state.month->0.spec_number(),
        ).contains(d)) ==> is_consistent(range, next_selection(range, state, selection)),
{
    let init = initial_selection(range, preselect);
    lemma_pick_or_last_is_listed(range.years(), Some(preselect.spec_year()));
    if let Some(y) = init.year {
        lemma_pick_or_last_is_listed(
            range.months_for_year(y as int),
            Some(month_numbered(preselect.spec_month() as int)),
        );
        if let Some(m) = init.month {
            lemma_pick_or_last_is_listed(
                range.days_for_year_and_month(y as int, m.spec_number()),
                Some(preselect.spec_day()),
            );
        }
    }
    match selection {
        Selection::Year(y) => {
            lemma_pick_or_last_is_listed(range.months_for_year(y as int), state.month);
            let month = range.month_or_last(state.month, Some(y));
            if let Some(m) = month {
                lemma_pick_or_last_is_listed(
                    range.days_for_year_and_month(y as int, m.spec_number()),
                    state.day,
                );
            }
        },
        Selection::Month(m) => {
            if let Some(y) = state.year {
                lemma_pick_or_last_is_listed(
                    range.days_for_year_and_month(y as int, m.spec_number()),
                    state.day,
                );
            }
        },
        Selection::Day(_) => {},
    }
}

} // verus!
