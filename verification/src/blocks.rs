//! The blocks of a SWIFT message, `{1:...}` to `{5:...}`: their markers,
//! nested braces, and where each block's content ends.

use vstd::prelude::*;
use crate::numeric::{decimal, usize_to_decimal};
use crate::text::{find_exec, find_from, lemma_find_from, occurs_at, slice_chars};

verus! {

/// `+1` for an opening brace, `-1` for a closing one, `0` otherwise.
pub open spec fn brace_step(c: char) -> int {
    if c == '{' {
        1
    } else if c == '}' {
        -1
    } else {
        0
    }
}

/// Opening minus closing braces in `s`.
pub open spec fn brace_balance(s: Seq<char>) -> int
    decreases s.len(),
{
    if s.len() == 0 {
        0
    } else {
        brace_balance(s.drop_last()) + brace_step(s.last())
    }
}

/// The first index `i >= from` at which the braces of `t[..=i]` balance.
pub open spec fn first_balanced_from(t: Seq<char>, from: int) -> Option<int>
    decreases t.len() - from,
{
    if from < 0 || from >= t.len() {
        None
    } else if brace_balance(t.take(from + 1)) == 0 {
        Some(from)
    } else {
        first_balanced_from(t, from + 1)
    }
}

/// The index of the brace that closes the one `t` starts with.
pub open spec fn matching_brace(t: Seq<char>) -> Option<int> {
    if t.len() > 0 && t[0] == '{' {
        first_balanced_from(t, 1)
    } else {
        None
    }
}

/// The marker that opens block `index`: `{`, the index, `:`.
pub open spec fn block_marker(index: u8) -> Seq<char> {
    seq!['{'] + decimal(index as nat) + seq![':']
}

/// `"}"`
pub open spec fn close_brace() -> Seq<char> {
    seq!['}']
}

/// `"-}"`: the end of block 4.
pub open spec fn block4_end() -> Seq<char> {
    seq!['-', '}']
}

/// The content of a block that ends at the first `}` after its marker.
pub open spec fn simple_block(raw: Seq<char>, start: int, cs: int) -> Option<Seq<char>> {
    match find_from(raw, close_brace(), start) {
        Some(e) => Some(raw.subrange(cs, e)),
        None => None,
    }
}

/// The content of a block whose braces nest: it ends at the brace that
/// closes its own.
pub open spec fn nested_block(raw: Seq<char>, start: int, cs: int) -> Option<Seq<char>> {
    match matching_brace(raw.skip(start)) {
        Some(e) => Some(raw.subrange(cs, start + e)),
        None => None,
    }
}

/// The content of block 4, which ends at `-}`.
pub open spec fn text_block(raw: Seq<char>, start: int, cs: int) -> Option<Seq<char>> {
    match find_from(raw, block4_end(), start) {
        Some(e) => Some(raw.subrange(cs, e)),
        None => None,
    }
}

/// The balance of the first `i + 1` characters, step by step.
proof fn lemma_balance_take_step(t: Seq<char>, i: int)
    requires
        0 <= i < t.len(),
    ensures
        brace_balance(t.take(i + 1)) == (if i == 0 {
            0
        } else {
            brace_balance(t.take(i))
        }) + brace_step(t[i]),
{
    assert(t.take(i + 1).drop_last() =~= t.take(i));
    assert(t.take(i + 1).last() == t[i]);
    assert(brace_balance(t.take(i + 1)) == brace_balance(t.take(i + 1).drop_last()) + brace_step(
        t.take(i + 1).last(),
    ));
    if i == 0 {
        assert(t.take(0) =~= Seq::<char>::empty());
        assert(brace_balance(t.take(0)) == 0);
    }
}

proof fn lemma_first_balanced_intro(t: Seq<char>, from: int, k: int)
    requires
        0 <= from <= k < t.len(),
        brace_balance(t.take(k + 1)) == 0,
        forall|j: int| from <= j < k ==> brace_balance(#[trigger] t.take(j + 1)) != 0,
    ensures
        first_balanced_from(t, from) == Some(k),
    decreases k - from,
{
    if from < k {
        lemma_first_balanced_intro(t, from + 1, k);
    }
}

proof fn lemma_first_balanced_none(t: Seq<char>, from: int)
    requires
        0 <= from,
        forall|j: int| from <= j < t.len() ==> brace_balance(#[trigger] t.take(j + 1)) != 0,
    ensures
        first_balanced_from(t, from) is None,
    decreases t.len() - from,
{
    if from < t.len() {
        lemma_first_balanced_none(t, from + 1);
    }
}

/// What `matching_brace` finds: a balanced prefix, and none shorter.
pub proof fn lemma_first_balanced(t: Seq<char>, from: int)
    requires
        0 <= from,
    ensures
        first_balanced_from(t, from) matches Some(k) ==> from <= k < t.len() && brace_balance(
            t.take(k + 1),
        ) == 0 && forall|j: int| from <= j < k ==> brace_balance(#[trigger] t.take(j + 1)) != 0,
    decreases t.len() - from,
{
    if from < t.len() && brace_balance(t.take(from + 1)) != 0 {
        lemma_first_balanced(t, from + 1);
    }
}

/// Find the matching closing brace for a block that starts with an opening brace
pub fn find_matching_brace_chars(t: &Vec<char>, from: usize) -> (r: Option<usize>)
    requires
        from <= t.len(),
    ensures
        match r {
            Some(k) => matching_brace(t@.skip(from as int)) == Some(k as int),
            None => matching_brace(t@.skip(from as int)) is None,
        },
{
    let ghost u = t@.skip(from as int);
    if from >= t.len() || t[from] != '{' {
        return None;
    }
    let mut count: usize = 1;
    let mut i: usize = from + 1;
    proof {
        lemma_balance_take_step(u, 0);
        assert(u[0] == '{');
    }
    while i < t.len()
        invariant
            from < i <= t.len(),
            u == t@.skip(from as int),
            u.len() > 0 && u[0] == '{',
            count >= 1,
            count as int == brace_balance(u.take(i - from)),
            count <= i - from,
            forall|j: int| 1 <= j < i - from ==> brace_balance(#[trigger] u.take(j + 1)) != 0,
        decreases t.len() - i,
    {
        let c = t[i];
        proof {
            lemma_balance_take_step(u, i - from);
            assert(u[i - from] == c);
        }
        if c == '{' {
            count = count + 1;
        } else if c == '}' {
            count = count - 1;
            if count == 0 {
                proof {
                    lemma_first_balanced_intro(u, 1, i - from);
                }
                return Some(i - from);
            }
        }
        i = i + 1;
    }
    proof {
        lemma_first_balanced_none(u, 1);
    }
    None
}

/// The marker that opens block `index`.
pub fn block_marker_chars(index: u8) -> (m: Vec<char>)
    ensures
        m@ == block_marker(index),
{
    let mut m: Vec<char> = vec!['{'];
    let d = usize_to_decimal(index as usize);
    crate::text::append_chars(&mut m, &d);
    m.push(':');
    assert(m@ =~= block_marker(index));
    m
}

/// A block marker has no `}` and no `-}` before its end.
pub proof fn lemma_marker_free(raw: Seq<char>, index: u8, start: int)
    requires
        occurs_at(raw, block_marker(index), start),
        index < 10,
    ensures
        find_from(raw, close_brace(), start) matches Some(e) ==> e >= start + 3,
        find_from(raw, block4_end(), start) matches Some(e) ==> e >= start + 3,
        block_marker(index).len() == 3,
{
    let m = block_marker(index);
    let d = decimal(index as nat);
    assert(d.len() == 1);
    assert(m.len() == 3);
    assert(m[0] == '{');
    assert(m[1] == d[0]);
    assert(m[2] == ':');
    assert(raw.subrange(start, start + 3) == m);
    assert(raw.subrange(start, start + 3)[0] == raw[start]);
    assert(raw.subrange(start, start + 3)[1] == raw[start + 1]);
    assert(raw.subrange(start, start + 3)[2] == raw[start + 2]);
    assert(raw[start] == '{');
    assert(raw[start + 1] == decimal(index as nat)[0]);
    assert(raw[start + 2] == ':');
    assert(decimal(index as nat)[0] != '}' && decimal(index as nat)[0] != '-');
    lemma_find_from(raw, close_brace(), start);
    lemma_find_from(raw, block4_end(), start);
    if let Some(e) = find_from(raw, close_brace(), start) {
        assert(raw.subrange(e, e + 1)[0] == raw[e]);
    }
    if let Some(e) = find_from(raw, block4_end(), start) {
        assert(raw.subrange(e, e + 2)[0] == raw[e]);
        assert(raw.subrange(e, e + 2)[1] == raw[e + 1]);
    }
}

/// The brace that closes a block marker's own comes after the marker.
pub proof fn lemma_marker_nested(raw: Seq<char>, index: u8, start: int)
    requires
        occurs_at(raw, block_marker(index), start),
        index < 10,
    ensures
        matching_brace(raw.skip(start)) matches Some(e) ==> e >= 3 && start + e < raw.len(),
{
    let u = raw.skip(start);
    let m = block_marker(index);
    let d = decimal(index as nat);
    assert(d.len() == 1);
    assert(m[0] == '{');
    assert(m[1] == d[0]);
    assert(m[2] == ':');
    assert(raw.subrange(start, start + 3) == m);
    assert(raw.subrange(start, start + 3)[0] == u[0]);
    assert(raw.subrange(start, start + 3)[1] == u[1]);
    assert(raw.subrange(start, start + 3)[2] == u[2]);
    assert(u[0] == '{');
    assert(u[1] == decimal(index as nat)[0]);
    assert(u[2] == ':');
    assert(decimal(index as nat)[0] != '{' && decimal(index as nat)[0] != '}');
    lemma_first_balanced(u, 1);
    if let Some(e) = matching_brace(u) {
        lemma_balance_take_step(u, 0);
        lemma_balance_take_step(u, 1);
        lemma_balance_take_step(u, 2);
        if e < 3 {
            assert(brace_balance(u.take(e + 1)) != 0);
        }
    }
}

} // verus!
