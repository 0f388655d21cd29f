//! Options of a selection list, and the decimal text of their values.

use crate::calendar::{month_name, Day, Month, Year};
use vstd::prelude::*;

verus! {

/// The character of decimal digit `d`.
pub open spec fn digit_char(d: int) -> char {
    if d == 0 {
        '0'
    } else if d == 1 {
        '1'
    } else if d == 2 {
        '2'
    } else if d == 3 {
        '3'
    } else if d == 4 {
        '4'
    } else if d == 5 {
        '5'
    } else if d == 6 {
        '6'
    } else if d == 7 {
        '7'
    } else if d == 8 {
        '8'
    } else {
        '9'
    }
}

/// The decimal digits of `n`, most significant first, with no leading zero.
pub open spec fn decimal_digits(n: nat) -> Seq<char>
    decreases n,
{
    if n < 10 {
        seq![digit_char(n as int)]
    } else {
        decimal_digits(n / 10).push(digit_char(n as int % 10))
    }
}

/// The decimal text of `n`, with a minus sign where it is negative.
pub open spec fn decimal(n: int) -> Seq<char> {
    if n < 0 {
        seq!['-'] + decimal_digits((-n) as nat)
    } else {
        decimal_digits(n as nat)
    }
}

/// The text of one decimal digit.
pub fn digit_text(d: u64) -> (r: &'static str)
    requires
        d < 10,
    ensures
        r@ == seq![digit_char(d as int)],
{
    let r = if d == 0 {
        "0"
    } else if d == 1 {
        "1"
    } else if d == 2 {
        "2"
    } else if d == 3 {
        "3"
    } else if d == 4 {
        "4"
    } else if d == 5 {
        "5"
    } else if d == 6 {
        "6"
    } else if d == 7 {
        "7"
    } else if d == 8 {
        "8"
    } else {
        "9"
    };
    proof {
        reveal_strlit("0");
        reveal_strlit("1");
        reveal_strlit("2");
        reveal_strlit("3");
        reveal_strlit("4");
        reveal_strlit("5");
        reveal_strlit("6");
        reveal_strlit("7");
        reveal_strlit("8");
        reveal_strlit("9");
        assert(r@ =~= seq![digit_char(d as int)]);
    }
    r
}

/// Appends the decimal digits of `n` to `out`.
fn append_digits(out: &mut String, n: u64)
    ensures
        final(out)@ == old(out)@ + decimal_digits(n as nat),
    decreases n,
{
    if n >= 10 {
        append_digits(out, n / 10);
    }
    out.append(digit_text(n % 10));
    assert(final(out)@ =~= old(out)@ + decimal_digits(n as nat));
}

/// The decimal text of `n`.
pub fn decimal_text(n: i64) -> (r: String)
    ensures
        r@ == decimal(n as int),
{
    let mut out = String::new();
    if n < 0 {
        let minus = "-";
        proof {
            reveal_strlit("-");
        }
        out.append(minus);
        let magnitude: u64 = ((-(n + 1)) as u64) + 1;
        append_digits(&mut out, magnitude);
        assert(out@ =~= decimal(n as int));
    } else {
        append_digits(&mut out, n as u64);
        assert(out@ =~= decimal(n as int));
    }
    out
}

/// One option of a selection list: the value handed back when it is chosen,
/// the text shown for it, and whether it is selected or disabled.
#[derive(Debug, Clone, PartialEq, Eq, Default)]
pub struct SelectOption {
    pub value: String,
    pub inner_html: String,
    pub selected: bool,
    pub disabled: bool,
}

impl SelectOption {
    /// An option whose value and text are both `text`, neither selected nor
    /// disabled.
    pub fn from_text(text: &str) -> (r: SelectOption)
        ensures
            r.value@ == text@,
            r.inner_html@ == text@,
            !r.selected,
            !r.disabled,
    {
        SelectOption {
            value: String::from_str(text),
            inner_html: String::from_str(text),
            selected: false,
            disabled: false,
        }
    }

    /// An option for a year, shown and valued as its decimal number.
    pub fn from_year(year: Year) -> (r: SelectOption)
        ensures
            r.value@ == decimal(year as int),
            r.inner_html@ == decimal(year as int),
            !r.selected,
            !r.disabled,
    {
        SelectOption {
            value: decimal_text(year as i64),
            inner_html: decimal_text(year as i64),
            selected: false,
            disabled: false,
        }
    }

    /// An option for a month, valued as its number and shown by its name.
    pub fn from_month(month: Month) -> (r: SelectOption)
        ensures
            r.value@ == decimal(month.spec_number()),
            r.inner_html@ == month_name(month),
            !r.selected,
            !r.disabled,
    {
        SelectOption {
            value: decimal_text(month.number() as i64),
            inner_html: String::from_str(month.name()),
            selected: false,
            disabled: false,
        }
    }

    /// An option for a day, shown and valued as its decimal number.
    pub fn from_day(day: Day) -> (r: SelectOption)
        ensures
            r.value@ == decimal(day as int),
            r.inner_html@ == decimal(day as int),
            !r.selected,
            !r.disabled,
    {
        SelectOption {
            value: decimal_text(day as i64),
            inner_html: decimal_text(day as i64),
            selected: false,
            disabled: false,
        }
    }

    /// The same option, selected or not as `selected` says.
    pub fn selected(self, selected: bool) -> (r: SelectOption)
        ensures
            r.value == self.value,
            r.inner_html == self.inner_html,
            r.selected == selected,
            r.disabled == self.disabled,
    {
        let mut option = self;
        option.selected = selected;
        option
    }

    /// The same option, disabled or not as `disabled` says.
    pub fn disabled(self, disabled: bool) -> (r: SelectOption)
        ensures
            r.value == self.value,
            r.inner_html == self.inner_html,
            r.selected == self.selected,
            r.disabled == disabled,
    {
        let mut option = self;
        option.disabled = disabled;
        option
    }
}

} // verus!
