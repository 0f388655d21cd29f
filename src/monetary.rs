//! The text of a monetary amount typed digit by digit: the digits typed are
//! read as cents, capped so that the amount fits an `i64`, and shown with a
//! decimal point and thousands separators.

use vstd::prelude::*;

verus! {

/// Whether `c` is an ASCII decimal digit.
pub open spec fn is_digit(c: char) -> bool {
    '0' <= c && c <= '9'
}

/// The value of the digit `c`.
pub open spec fn digit_value(c: char) -> nat {
    (c as u32 - '0' as u32) as nat
}

/// The decimal digits of `s`, in order, every other character left out.
pub open spec fn digits_in(s: Seq<char>) -> Seq<char>
    decreases s.len(),
{
    if s.len() == 0 {
        Seq::empty()
    } else if is_digit(s.last()) {
        digits_in(s.drop_last()).push(s.last())
    } else {
        digits_in(s.drop_last())
    }
}

/// `s` without its leading zeros.
pub open spec fn without_leading_zeros(s: Seq<char>) -> Seq<char>
    decreases s.len(),
{
    if s.len() > 0 && s[0] == '0' {
        without_leading_zeros(s.drop_first())
    } else {
        s
    }
}

/// Ten to the power `n`.
pub open spec fn pow10(n: nat) -> nat
    decreases n,
{
    if n == 0 {
        1
    } else {
        10 * pow10((n - 1) as nat)
    }
}

/// The number that the digits `s` write.
pub open spec fn value_of(s: Seq<char>) -> nat
    decreases s.len(),
{
    if s.len() == 0 {
        0
    } else {
        value_of(s.drop_last()) * 10 + digit_value(s.last())
    }
}

/// The largest value of an `i64`.
pub const I64_MAX: u64 = 9223372036854775807;

/// The longest prefix of the digits `s`, of 19 digits at most, whose number
/// fits an `i64`.
pub open spec fn longest_i64_prefix(s: Seq<char>) -> Seq<char> {
    let t = if s.len() <= 19 {
        s
    } else {
        s.take(19)
    };
    if value_of(t) <= I64_MAX {
        t
    } else {
        t.take(t.len() - 1)
    }
}

/// The digits of `s`, without leading zeros (a lone zero where none is
/// left), cut to the longest prefix whose number fits an `i64`.
pub open spec fn i64_digits(s: Seq<char>) -> Seq<char> {
    let d = without_leading_zeros(digits_in(s));
    longest_i64_prefix(
        if d.len() == 0 {
            seq!['0']
        } else {
            d
        },
    )
}

/// `s` with a comma between each group of three characters, counted from
/// the right.
pub open spec fn grouped(s: Seq<char>) -> Seq<char>
    decreases s.len(),
{
    if s.len() <= 3 {
        s
    } else {
        grouped(s.take(s.len() - 3)) + seq![','] + s.skip(s.len() - 3)
    }
}

/// The amount text of the digits `t`, read as cents.
pub open spec fn amount_text(t: Seq<char>) -> Seq<char> {
    if t.len() == 0 {
        seq!['0', '.', '0', '0']
    } else if t.len() == 1 {
        seq!['0', '.', '0'] + t
    } else if t.len() == 2 {
        seq!['0', '.'] + t
    } else {
        grouped(t.take(t.len() - 2)) + seq!['.'] + t.skip(t.len() - 2)
    }
}

proof fn lemma_digits_in_are_digits(s: Seq<char>)
    ensures
        forall|i: int| 0 <= i < digits_in(s).len() ==> is_digit(#[trigger] digits_in(s)[i]),
    decreases s.len(),
{
    if s.len() > 0 {
        lemma_digits_in_are_digits(s.drop_last());
        let p = digits_in(s.drop_last());
        if is_digit(s.last()) {
            assert forall|i: int| 0 <= i < digits_in(s).len() implies is_digit(
                #[trigger] digits_in(s)[i],
            ) by {
                if i < p.len() {
                    assert(digits_in(s)[i] == p[i]);
                }
            }
        }
    }
}

proof fn lemma_without_leading_zeros_suffix(s: Seq<char>, i: int)
    requires
        0 <= i <= s.len(),
        forall|j: int| 0 <= j < i ==> s[j] == '0',
    ensures
        without_leading_zeros(s) == without_leading_zeros(s.skip(i)),
    decreases i,
{
    if i > 0 {
        assert(s.drop_first().skip(i - 1) =~= s.skip(i));
        lemma_without_leading_zeros_suffix(s.drop_first(), i - 1);
    } else {
        assert(s.skip(0) =~= s);
    }
}

proof fn lemma_value_bound(s: Seq<char>)
    requires
        forall|i: int| 0 <= i < s.len() ==> is_digit(#[trigger] s[i]),
    ensures
        value_of(s) < pow10(s.len()),
    decreases s.len(),
{
    if s.len() > 0 {
        let p = s.drop_last();
        assert forall|i: int| 0 <= i < p.len() implies is_digit(#[trigger] p[i]) by {
            assert(p[i] == s[i]);
        }
        lemma_value_bound(p);
        let v = value_of(p);
        let b = pow10(p.len());
        let d = digit_value(s.last());
        assert(d < 10);
        assert(v * 10 + d < 10 * b) by (nonlinear_arith)
            requires
                v < b,
                d < 10,
        ;
    }
}

proof fn lemma_pow10_monotone(a: nat, b: nat)
    requires
        a <= b,
    ensures
        pow10(a) <= pow10(b),
    decreases b,
{
    if a < b {
        lemma_pow10_monotone(a, (b - 1) as nat);
    }
}

proof fn lemma_pow10_18()
    ensures
        pow10(18) == 1_000_000_000_000_000_000,
{
    reveal_with_fuel(pow10, 19);
}

/// Appends the character `s[i]` to `out`.
fn append_char_at(out: &mut String, s: &str, i: usize)
    requires
        i < s@.len() <= usize::MAX,
    ensures
        final(out)@ == old(out)@.push(s@[i as int]),
{
    let c = s.substring_char(i, i + 1);
    out.append(c);
    assert(final(out)@ =~= old(out)@.push(s@[i as int]));
}

/// The decimal digits of `string`, in order.
pub fn filter_digits(string: &str) -> (r: String)
    ensures
        r@ == digits_in(string@),
{
    let n = string.unicode_len();
    let mut out = String::new();
    let mut i: usize = 0;
    while i < n
        invariant
            n == string@.len(),
            0 <= i <= n,
            out@ == digits_in(string@.take(i as int)),
        decreases n - i,
    {
        let c = string.get_char(i);
        assert(string@.take(i + 1).drop_last() =~= string@.take(i as int));
        if '0' <= c && c <= '9' {
            append_char_at(&mut out, string, i);
        }
        i += 1;
    }
    assert(string@.take(n as int) =~= string@);
    out
}

/// The digits of `string`, without leading zeros ("0" where none is left),
/// cut to the longest prefix, of 19 digits at most, whose number fits an
/// `i64`.
pub fn truncate_to_valid_i64(string: &str) -> (r: String)
    ensures
        r@ == i64_digits(string@),
{
    let digits = filter_digits(string);
    let d = digits.as_str();
    let n = d.unicode_len();
    proof {
        lemma_digits_in_are_digits(string@);
    }
    let mut k: usize = 0;
    while k < n && d.get_char(k) == '0'
        invariant
            n == d@.len(),
            0 <= k <= n,
            forall|j: int| 0 <= j < k ==> d@[j] == '0',
        decreases n - k,
    {
        k += 1;
    }
    proof {
        lemma_without_leading_zeros_suffix(d@, k as int);
        assert(without_leading_zeros(d@.skip(k as int)) == d@.skip(k as int));
    }
    let trimmed: &str = if k == n {
        let zero = "0";
        proof {
            reveal_strlit("0");
            assert(zero@ =~= seq!['0']);
        }
        zero
    } else {
        let rest = d.substring_char(k, n);
        assert(rest@ =~= d@.skip(k as int));
        rest
    };
    let ghost t = trimmed@;
    assert(forall|i: int| 0 <= i < t.len() ==> is_digit(#[trigger] t[i]));
    let len = trimmed.unicode_len();
    let cut: usize = if len <= 19 {
        len
    } else {
        19
    };
    let head = trimmed.substring_char(0, cut);
    assert(head@ =~= (if t.len() <= 19 {
        t
    } else {
        t.take(19)
    }));
    let mut value: u64 = 0;
    let mut i: usize = 0;
    while i < cut
        invariant
            cut <= 19,
            cut == head@.len(),
            forall|j: int| 0 <= j < head@.len() ==> is_digit(#[trigger] head@[j]),
            0 <= i <= cut,
            value == value_of(head@.take(i as int)),
        decreases cut - i,
    {
        let c = head.get_char(i);
        let ghost p = head@.take(i as int);
        assert(head@.take(i + 1).drop_last() =~= p);
        assert forall|j: int| 0 <= j < p.len() implies is_digit(#[trigger] p[j]) by {
            assert(p[j] == head@[j]);
        }
        proof {
            lemma_value_bound(p);
            lemma_pow10_monotone(i as nat, 18);
            lemma_pow10_18();
        }
        value = value * 10 + ((c as u32) - ('0' as u32)) as u64;
        i += 1;
    }
    assert(head@.take(cut as int) =~= head@);
    if value <= I64_MAX {
        String::from_str(head)
    } else {
        let shorter = head.substring_char(0, cut - 1);
        assert(shorter@ =~= head@.take(head@.len() - 1));
        String::from_str(shorter)
    }
}

proof fn lemma_grouped_two_steps(s: Seq<char>)
    requires
        s.len() > 6,
    ensures
        grouped(s) == grouped(s.take(s.len() - 6)) + seq![','] + grouped(s.skip(s.len() - 6)),
{
    let n = s.len();
    let a = s.take(n - 3);
    assert(a.take(a.len() - 3) =~= s.take(n - 6));
    assert(a.skip(a.len() - 3) =~= s.subrange(n - 6, n - 3));
    let b = s.skip(n - 6);
    assert(b.take(b.len() - 3) =~= s.subrange(n - 6, n - 3));
    assert(b.skip(b.len() - 3) =~= s.skip(n - 3));
    assert(grouped(b.take(b.len() - 3)) == b.take(b.len() - 3));
    assert(grouped(s) == grouped(a) + seq![','] + s.skip(n - 3));
    assert(grouped(a) == grouped(a.take(a.len() - 3)) + seq![','] + a.skip(a.len() - 3));
    assert(grouped(b) == grouped(b.take(b.len() - 3)) + seq![','] + b.skip(b.len() - 3));
    assert(grouped(s) =~= grouped(s.take(n - 6)) + seq![','] + grouped(b));
}

/// `string` with a comma between each group of three characters, counted
/// from the right.
pub fn add_thousands_separator(string: &str) -> (r: String)
    ensures
        r@ == grouped(string@),
    decreases string@.len(),
{
    let n = string.unicode_len();
    let comma = ",";
    proof {
        reveal_strlit(",");
        assert(comma@ =~= seq![',']);
    }
    if n <= 3 {
        String::from_str(string)
    } else if n <= 6 {
        let a = string.substring_char(0, n - 3);
        let b = string.substring_char(n - 3, n);
        let mut out = String::from_str(a);
        out.append(comma);
        out.append(b);
        assert(a@ =~= string@.take(n - 3));
        assert(b@ =~= string@.skip(n - 3));
        assert(grouped(a@) == a@);
        assert(grouped(string@) == grouped(a@) + seq![','] + b@);
        assert(out@ =~= grouped(string@));
        out
    } else {
        let a = string.substring_char(0, n - 6);
        let b = string.substring_char(n - 6, n);
        assert(a@ =~= string@.take(n - 6));
        assert(b@ =~= string@.skip(n - 6));
        let mut out = add_thousands_separator(a);
        let tail = add_thousands_separator(b);
        out.append(comma);
        out.append(tail.as_str());
        proof {
            lemma_grouped_two_steps(string@);
        }
        assert(out@ =~= grouped(string@));
        out
    }
}

/// The amount text of the digits typed in `string`, read as cents: "0.00"
/// for none, then the whole units with thousands separators, a point and
/// two digits of cents.
pub fn convert_digit_string_to_monetary(string: &str) -> (r: String)
    ensures
        r@ == amount_text(i64_digits(string@)),
{
    let digits = truncate_to_valid_i64(string);
    let t = digits.as_str();
    let n = t.unicode_len();
    if n == 0 {
        let zero = "0.00";
        proof {
            reveal_strlit("0.00");
        }
        let r = String::from_str(zero);
        assert(r@ =~= amount_text(t@));
        r
    } else if n == 1 {
        let prefix = "0.0";
        proof {
            reveal_strlit("0.0");
        }
        let mut r = String::from_str(prefix);
        r.append(t);
        assert(r@ =~= amount_text(t@));
        r
    } else if n == 2 {
        let prefix = "0.";
        proof {
            reveal_strlit("0.");
        }
        let mut r = String::from_str(prefix);
        r.append(t);
        assert(r@ =~= amount_text(t@));
        r
    } else {
        let units = t.substring_char(0, n - 2);
        let cents = t.substring_char(n - 2, n);
        let point = ".";
        proof {
            reveal_strlit(".");
        }
        let mut r = add_thousands_separator(units);
        r.append(point);
        r.append(cents);
        assert(units@ =~= t@.take(n - 2));
        assert(cents@ =~= t@.skip(n - 2));
        assert(r@ =~= amount_text(t@));
        r
    }
}

} // verus!
