//! Where the currency stands in the amount fields of statements: after the
//! mark and the date of a balance (60F, 62F, 64, 65), after the number of
//! entries of a sum (90C, 90D), first in a floor limit (34F).

use vstd::prelude::*;
use crate::text::{slice_chars, string_chars};

verus! {

/// `s` from `a` to `b`, each cut to the length of `s`.
pub open spec fn cut(s: Seq<char>, a: int, b: int) -> Seq<char> {
    let x = if a < s.len() {
        a
    } else {
        s.len() as int
    };
    let y = if b < s.len() {
        b
    } else {
        s.len() as int
    };
    if x < y {
        s.subrange(x, y)
    } else {
        Seq::empty()
    }
}

/// The text from `a` to `b`, each cut to its length.
pub fn cut_exec(s: &Vec<char>, a: usize, b: usize) -> (r: Vec<char>)
    ensures
        r@ == cut(s@, a as int, b as int),
{
    let x = if a < s.len() {
        a
    } else {
        s.len()
    };
    let y = if b < s.len() {
        b
    } else {
        s.len()
    };
    if x < y {
        slice_chars(s, x, y)
    } else {
        Vec::new()
    }
}

/// The currency of a balance: after the mark and the date.
pub open spec fn balance_currency(v: Seq<char>) -> Seq<char> {
    cut(v, 7, 10)
}

/// The number of leading ASCII digits of `v`.
pub open spec fn leading_digits(v: Seq<char>) -> int
    decreases v.len(),
{
    if v.len() > 0 && crate::text::is_ascii_digit(v[0]) {
        1 + leading_digits(v.drop_first())
    } else {
        0
    }
}

/// The currency of a sum of entries: after the number of entries.
pub open spec fn sum_currency(v: Seq<char>) -> Seq<char> {
    let n = leading_digits(v);
    cut(v, n, n + 3)
}

/// The currency of a floor limit: its first three characters.
pub open spec fn floor_currency(v: Seq<char>) -> Seq<char> {
    cut(v, 0, 3)
}

/// The first two characters of a currency.
pub open spec fn prefix2(c: Seq<char>) -> Seq<char> {
    cut(c, 0, 2)
}

/// The debit/credit indicator of a floor limit, if it has one.
pub open spec fn floor_indicator(v: Seq<char>) -> Option<char> {
    if v.len() > 3 && (v[3] == 'D' || v[3] == 'C') {
        Some(v[3])
    } else {
        None
    }
}

proof fn lemma_leading_digits(v: Seq<char>)
    ensures
        0 <= leading_digits(v) <= v.len(),
        forall|i: int| 0 <= i < leading_digits(v) ==> crate::text::is_ascii_digit(#[trigger] v[i]),
        leading_digits(v) < v.len() ==> !crate::text::is_ascii_digit(v[leading_digits(v)]),
    decreases v.len(),
{
    if v.len() > 0 && crate::text::is_ascii_digit(v[0]) {
        lemma_leading_digits(v.drop_first());
        assert forall|i: int| 0 <= i < leading_digits(v) implies crate::text::is_ascii_digit(
            #[trigger] v[i],
        ) by {
            if i > 0 {
                assert(v[i] == v.drop_first()[i - 1]);
            }
        }
    }
}

/// The currency of a balance.
pub fn balance_currency_exec(v: &String) -> (r: Vec<char>)
    ensures
        r@ == balance_currency(v@),
{
    cut_exec(&string_chars(v), 7, 10)
}

/// The currency of a sum of entries.
pub fn sum_currency_exec(v: &String) -> (r: Vec<char>)
    ensures
        r@ == sum_currency(v@),
{
    let s = string_chars(v);
    let mut n: usize = 0;
    proof {
        lemma_leading_digits(s@);
    }
    while n < s.len() && '0' <= s[n] && s[n] <= '9'
        invariant
            n <= s.len(),
            n <= leading_digits(s@),
            forall|i: int| 0 <= i < leading_digits(s@) ==> crate::text::is_ascii_digit(#[trigger] s@[i]),
            leading_digits(s@) <= s@.len(),
            leading_digits(s@) < s@.len() ==> !crate::text::is_ascii_digit(s@[leading_digits(s@)]),
        decreases s.len() - n,
    {
        n = n + 1;
    }
    assert(n == leading_digits(s@));
    if s.len() >= 3 && n <= s.len() - 3 {
        cut_exec(&s, n, n + 3)
    } else {
        cut_exec(&s, n, s.len())
    }
}

/// The currency of a floor limit.
pub fn floor_currency_exec(v: &String) -> (r: Vec<char>)
    ensures
        r@ == floor_currency(v@),
{
    cut_exec(&string_chars(v), 0, 3)
}

/// The first two characters of a currency.
pub fn prefix2_exec(c: &Vec<char>) -> (r: Vec<char>)
    ensures
        r@ == prefix2(c@),
{
    cut_exec(c, 0, 2)
}

/// The indicator of a floor limit.
pub fn floor_indicator_exec(v: &String) -> (r: Option<char>)
    ensures
        r == floor_indicator(v@),
{
    let s = string_chars(v);
    if s.len() > 3 && (s[3] == 'D' || s[3] == 'C') {
        Some(s[3])
    } else {
        None
    }
}

} // verus!
