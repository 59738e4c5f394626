//! Date format checks for SWIFT fields.

use vstd::prelude::*;
use crate::numeric::{all_digits, digits_value, parse_usize};
use crate::text::{slice_chars, to_chars};

verus! {

/// Month in `1..=12` and day in `1..=31`, read from two-digit groups.
pub open spec fn plausible_month_day(month: Seq<char>, day: Seq<char>) -> bool {
    1 <= digits_value(month) <= 12 && 1 <= digits_value(day) <= 31
}

/// Six ASCII digits `YYMMDD` with a plausible month and day.
pub open spec fn valid_yymmdd(d: Seq<char>) -> bool {
    d.len() == 6 && all_digits(d) && plausible_month_day(d.subrange(2, 4), d.subrange(4, 6))
}

/// Eight ASCII digits `YYYYMMDD` with a plausible month and day.
pub open spec fn valid_yyyymmdd(d: Seq<char>) -> bool {
    d.len() == 8 && all_digits(d) && plausible_month_day(d.subrange(4, 6), d.subrange(6, 8))
}

fn all_digits_exec(v: &Vec<char>) -> (r: bool)
    ensures
        r == all_digits(v@),
{
    let mut i: usize = 0;
    while i < v.len()
        invariant
            i <= v.len(),
            forall|j: int| 0 <= j < i ==> crate::text::is_ascii_digit(#[trigger] v@[j]),
        decreases v.len() - i,
    {
        if !('0' <= v[i] && v[i] <= '9') {
            assert(!crate::text::is_ascii_digit(v@[i as int]));
            return false;
        }
        i = i + 1;
    }
    true
}

/// The value of two digits at `at`.
fn two_digit_value(d: &Vec<char>, at: usize) -> (r: usize)
    requires
        at + 2 <= d.len(),
        all_digits(d@),
    ensures
        r as int == digits_value(d@.subrange(at as int, at + 2)),
{
    let g = slice_chars(d, at, at + 2);
    proof {
        assert(crate::numeric::unsigned_part(g@) == g@);
        let x = g@;
        assert(x.drop_last().drop_last() =~= Seq::<char>::empty());
        assert(digits_value(x.drop_last().drop_last()) == 0);
        assert(digits_value(x.drop_last()) == digits_value(x.drop_last().drop_last()) * 10 + crate::numeric::digit_value(x.drop_last().last()));
        assert(digits_value(x) == digits_value(x.drop_last()) * 10 + crate::numeric::digit_value(x.last()));
        assert(x.drop_last().last() == d@[at as int]);
        assert(x.last() == d@[at + 1]);
        assert(digits_value(x) <= 99);
        assert(all_digits(x)) by {
            assert forall|i: int| 0 <= i < x.len() implies crate::text::is_ascii_digit(#[trigger] x[i]) by {
                assert(x[i] == d@[at + i]);
            }
        }
    }
    match parse_usize(&g) {
        Some(n) => n,
        None => 0,
    }
}

/// Validate YYMMDD format
pub fn is_valid_yymmdd(date: &str) -> (r: bool)
    ensures
        r == valid_yymmdd(date@),
{
    let d = to_chars(date);
    if d.len() != 6 || !all_digits_exec(&d) {
        return false;
    }
    let month = two_digit_value(&d, 2);
    if !(1 <= month && month <= 12) {
        return false;
    }
    let day = two_digit_value(&d, 4);
    if !(1 <= day && day <= 31) {
        return false;
    }
    true
}

/// Validate YYYYMMDD format
pub fn is_valid_yyyymmdd(date: &str) -> (r: bool)
    ensures
        r == valid_yyyymmdd(date@),
{
    let d = to_chars(date);
    if d.len() != 8 || !all_digits_exec(&d) {
        return false;
    }
    let month = two_digit_value(&d, 4);
    if !(1 <= month && month <= 12) {
        return false;
    }
    let day = two_digit_value(&d, 6);
    if !(1 <= day && day <= 31) {
        return false;
    }
    true
}

} // verus!
