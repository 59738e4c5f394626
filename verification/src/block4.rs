//! The text block (block 4) of a SWIFT message: splitting it into fields,
//! and the forms of field tags.

use vstd::prelude::*;
use crate::field_map::{map_from_pairs, FieldMap, PosValue};
use crate::text::{
    append_chars, ends_with, find_char, find_exec, find_from, from_chars, is_ascii_digit,
    is_ascii_upper, lemma_find_from, slice_chars, to_chars, trim, trim_chars, trim_end,
};

verus! {

pub open spec fn colon() -> Seq<char> {
    seq![':']
}

pub open spec fn newline_colon() -> Seq<char> {
    seq!['\n', ':']
}

/// Where the value that starts at `vs` ends: at the next line that starts
/// with `:`, or at the end of the text.
pub open spec fn value_end(c: Seq<char>, vs: int) -> int {
    match find_from(c, newline_colon(), vs) {
        Some(k) => k,
        None => c.len() as int,
    }
}

/// The fields of a block 4 text from `pos` on, as (tag, value) pairs: a
/// field starts at the next `:`, its tag runs to the following `:`, and its
/// value (trimmed) runs to the next line that starts with `:`, or to the end.
pub open spec fn fields_from(c: Seq<char>, pos: int) -> Seq<(Seq<char>, Seq<char>)>
    decreases c.len() - pos,
{
    if pos < 0 || pos >= c.len() {
        Seq::empty()
    } else {
        match find_from(c, colon(), pos) {
            None => Seq::empty(),
            Some(fs) => match find_from(c, colon(), fs + 1) {
                None => Seq::empty(),
                Some(te) => {
                    let ve = value_end(c, te + 1);
                    proof {
                        lemma_find_from(c, colon(), pos);
                        lemma_find_from(c, colon(), fs + 1);
                        lemma_find_from(c, newline_colon(), te + 1);
                    }
                    seq![(c.subrange(fs + 1, te), trim(c.subrange(te + 1, ve)))] + fields_from(
                        c,
                        ve,
                    )
                },
            },
        }
    }
}

/// The fields of a block 4 text.
pub open spec fn block4_fields(c: Seq<char>) -> Seq<(Seq<char>, Seq<char>)> {
    fields_from(c, 0)
}

/// The leading ASCII digits of a tag.
pub open spec fn numeric_prefix_len(t: Seq<char>) -> int
    decreases t.len(),
{
    if t.len() == 0 {
        0
    } else if is_ascii_digit(t.last()) && numeric_prefix_len(t.drop_last()) == t.len() - 1 {
        t.len() as int
    } else {
        numeric_prefix_len(t.drop_last())
    }
}

/// Field numbers whose option letter is kept when tags are normalised.
pub open spec fn keeps_option_letter(n: Seq<char>) -> bool {
    seq![
        "11"@, "13"@, "23"@, "26"@, "32"@, "33"@, "52"@, "53"@, "54"@, "55"@, "56"@, "57"@,
        "58"@, "71"@, "77"@,
    ].contains(n)
}

/// A tag without its option letters: `50K` becomes `50`; the fields listed
/// in `keeps_option_letter` keep theirs, and a tag whose rest is not all
/// upper-case letters stays as it is.
pub open spec fn normalized_tag(t: Seq<char>) -> Seq<char> {
    let n = numeric_prefix_len(t);
    let num = t.take(n);
    if n < t.len() && !keeps_option_letter(num) && (forall|i: int|
        n <= i < t.len() ==> is_ascii_upper(#[trigger] t[i])) {
        num
    } else {
        t
    }
}

/// A tag without its `#` index suffix: `50#1` becomes `50`.
pub open spec fn base_tag(t: Seq<char>) -> Seq<char> {
    match find_from(t, seq!['#'], 0) {
        Some(k) => t.take(k),
        None => t,
    }
}

/// The last line of a block 4 text is the terminator `-`: the text without it.
pub open spec fn without_terminator(c: Seq<char>) -> Seq<char> {
    let t = trim_end(c);
    if t == seq!['-'] {
        Seq::empty()
    } else if ends_with(t, seq!['\n', '-']) {
        t.take(t.len() - 1)
    } else {
        c
    }
}

/// The pairs that a message parser files: each field under its own tag,
/// with its value and its position among the fields.
pub open spec fn positioned_pairs(f: Seq<(Seq<char>, Seq<char>)>) -> Seq<(Seq<char>, PosValue)> {
    Seq::new(f.len(), |i: int| (f[i].0, (f[i].1, i as usize)))
}

/// The field map of a block 4 text, by raw tag, for message parsing.
pub open spec fn raw_field_map(block4: Seq<char>) -> Seq<crate::field_map::TagGroup> {
    map_from_pairs(positioned_pairs(block4_fields(trim(without_terminator(block4)))))
}

pub proof fn lemma_fields_from_step(c: Seq<char>, pos: int)
    requires
        0 <= pos < c.len(),
        find_from(c, colon(), pos) is Some,
        find_from(c, colon(), find_from(c, colon(), pos)->0 + 1) is Some,
    ensures
        ({
            let fs = find_from(c, colon(), pos)->0;
            let te = find_from(c, colon(), fs + 1)->0;
            let ve = value_end(c, te + 1);
            &&& pos <= fs < te < ve <= c.len()
            &&& fields_from(c, pos) == seq![(c.subrange(fs + 1, te), trim(c.subrange(te + 1, ve)))]
                + fields_from(c, ve)
        }),
{
    lemma_find_from(c, colon(), pos);
    let fs = find_from(c, colon(), pos)->0;
    lemma_find_from(c, colon(), fs + 1);
    let te = find_from(c, colon(), fs + 1)->0;
    lemma_find_from(c, newline_colon(), te + 1);
}

/// Split a block 4 text into its fields, as (tag, value) pairs.
pub fn split_fields(c: &Vec<char>) -> (r: Vec<(Vec<char>, Vec<char>)>)
    ensures
        r@.len() == block4_fields(c@).len(),
        forall|i: int|
            0 <= i < r@.len() ==> (#[trigger] r@[i]).0@ == block4_fields(c@)[i].0 && r@[i].1@
                == block4_fields(c@)[i].1,
{
    let mut out: Vec<(Vec<char>, Vec<char>)> = Vec::new();
    let mut pos: usize = 0;
    let nc: Vec<char> = vec!['\n', ':'];
    assert(nc@ =~= newline_colon());
    while pos < c.len()
        invariant
            pos <= c.len(),
            nc@ == newline_colon(),
            out@.len() + fields_from(c@, pos as int).len() == block4_fields(c@).len(),
            forall|i: int|
                0 <= i < out@.len() ==> (#[trigger] out@[i]).0@ == block4_fields(c@)[i].0
                    && out@[i].1@ == block4_fields(c@)[i].1,
            forall|i: int|
                0 <= i < fields_from(c@, pos as int).len() ==> block4_fields(c@)[out@.len() + i]
                    == #[trigger] fields_from(c@, pos as int)[i],
        ensures
            out@.len() == block4_fields(c@).len(),
            forall|i: int|
                0 <= i < out@.len() ==> (#[trigger] out@[i]).0@ == block4_fields(c@)[i].0
                    && out@[i].1@ == block4_fields(c@)[i].1,
        decreases c.len() - pos,
    {
        let fs = match find_char(c, ':', pos) {
            Some(k) => k,
            None => {
                assert(colon() =~= seq![':']);
                assert(fields_from(c@, pos as int) =~= Seq::empty());
                break ;
            },
        };
        assert(colon() =~= seq![':']);
        let te = match find_char(c, ':', fs + 1) {
            Some(k) => k,
            None => {
                assert(fields_from(c@, pos as int) =~= Seq::empty());
                break ;
            },
        };
        let ve = match find_exec(c, &nc, te + 1) {
            Some(k) => k,
            None => c.len(),
        };
        proof {
            lemma_fields_from_step(c@, pos as int);
        }
        let tag = slice_chars(c, fs + 1, te);
        let raw_value = slice_chars(c, te + 1, ve);
        let value = trim_chars(&raw_value);
        let ghost rest = fields_from(c@, ve as int);
        let ghost here = fields_from(c@, pos as int);
        assert(here == seq![(tag@, value@)] + rest);
        assert(here[0] == (tag@, value@));
        assert forall|i: int| 0 <= i < rest.len() implies block4_fields(c@)[out@.len() + 1 + i]
            == #[trigger] rest[i] by {
            assert(here[i + 1] == rest[i]);
        }
        out.push((tag, value));
        pos = ve;
    }
    proof {
        if pos >= c.len() {
            assert(fields_from(c@, pos as int).len() == 0);
        }
    }
    out
}

/// The leading ASCII digits of `t`.
fn numeric_prefix(t: &Vec<char>) -> (n: usize)
    ensures
        n == numeric_prefix_len(t@),
        n <= t.len(),
{
    let mut n: usize = 0;
    while n < t.len() && '0' <= t[n] && t[n] <= '9'
        invariant
            n <= t.len(),
            numeric_prefix_len(t@.take(n as int)) == n,
        decreases t.len() - n,
    {
        proof {
            assert(t@.take(n + 1).drop_last() =~= t@.take(n as int));
            assert(t@.take(n + 1).last() == t@[n as int]);
        }
        n = n + 1;
    }
    proof {
        lemma_numeric_prefix_stops(t@, n as int);
    }
    n
}

/// Once a non-digit follows a run of digits, the run is the whole numeric prefix.
proof fn lemma_numeric_prefix_stops(t: Seq<char>, n: int)
    requires
        0 <= n <= t.len(),
        numeric_prefix_len(t.take(n)) == n,
        n < t.len() ==> !is_ascii_digit(t[n]),
    ensures
        numeric_prefix_len(t) == n,
    decreases t.len() - n,
{
    if n == t.len() {
        assert(t.take(n) =~= t);
    } else {
        lemma_numeric_prefix_le(t.drop_last());
        if n == t.len() - 1 {
            assert(t.drop_last() =~= t.take(n));
        } else {
            assert(t.drop_last().take(n) =~= t.take(n));
            lemma_numeric_prefix_stops(t.drop_last(), n);
        }
    }
}

proof fn lemma_numeric_prefix_le(t: Seq<char>)
    ensures
        0 <= numeric_prefix_len(t) <= t.len(),
    decreases t.len(),
{
    if t.len() > 0 {
        lemma_numeric_prefix_le(t.drop_last());
    }
}

/// Normalize field tag by removing option letters (A, F, K, etc.)
pub fn normalize_field_tag(raw_tag: &str) -> (r: String)
    ensures
        r@ == normalized_tag(raw_tag@),
{
    let t = to_chars(raw_tag);
    let n = normalize_tag_chars(&t);
    from_chars(&n)
}

/// `normalize_field_tag` on characters.
pub fn normalize_tag_chars(t: &Vec<char>) -> (r: Vec<char>)
    ensures
        r@ == normalized_tag(t@),
{
    let n = numeric_prefix(t);
    let num = slice_chars(t, 0, n);
    if n < t.len() {
        let keep: Vec<&str> = vec![
            "11", "13", "23", "26", "32", "33", "52", "53", "54", "55", "56", "57", "58", "71", "77",
        ];
        assert(crate::text::str_views(keep@) =~= seq![
            "11"@, "13"@, "23"@, "26"@, "32"@, "33"@, "52"@, "53"@, "54"@, "55"@, "56"@, "57"@,
            "58"@, "71"@, "77"@,
        ]);
        if crate::text::in_str_list(&num, &keep) {
            return slice_chars(t, 0, t.len());
        }
        let mut i = n;
        while i < t.len()
            invariant
                n <= i <= t.len(),
                n == numeric_prefix_len(t@),
                num@ == t@.take(n as int),
                !keeps_option_letter(num@),
                forall|j: int| n <= j < i ==> is_ascii_upper(#[trigger] t@[j]),
            decreases t.len() - i,
        {
            if !('A' <= t[i] && t[i] <= 'Z') {
                assert(!is_ascii_upper(t@[i as int]));
                return slice_chars(t, 0, t.len());
            }
            i = i + 1;
        }
        return num;
    }
    slice_chars(t, 0, t.len())
}

/// A tag without its `#` index suffix.
pub fn extract_base_tag(tag: &str) -> (r: String)
    ensures
        r@ == base_tag(tag@),
{
    let t = to_chars(tag);
    match find_char(&t, '#', 0) {
        Some(k) => from_chars(&slice_chars(&t, 0, k)),
        None => from_chars(&t),
    }
}

/// The text without its terminator line `-`.
pub fn strip_terminator(c: &Vec<char>) -> (r: Vec<char>)
    ensures
        r@ == without_terminator(c@),
{
    let mut b = c.len();
    assert(c@.take(c.len() as int) =~= c@);
    while b > 0 && crate::text::is_ws_exec(c[b - 1])
        invariant
            b <= c.len(),
            trim_end(c@) == trim_end(c@.take(b as int)),
        decreases b,
    {
        proof {
            assert(c@.take(b as int).drop_last() =~= c@.take(b - 1));
            assert(c@.take(b as int).last() == c@[b - 1]);
        }
        b = b - 1;
    }
    proof {
        assert(c@.take(c.len() as int) =~= c@);
        if b > 0 {
            assert(c@.take(b as int).last() == c@[b - 1]);
        }
    }
    let t = slice_chars(c, 0, b);
    assert(t@ == c@.take(b as int));
    assert(trim_end(c@) == t@);
    if b == 1 && c[0] == '-' {
        assert(t@ =~= seq!['-']);
        return Vec::new();
    }
    if b >= 2 && c[b - 1] == '-' && c[b - 2] == '\n' {
        assert(t@.subrange(t@.len() - 2, t@.len() as int) =~= seq!['\n', '-']);
        return slice_chars(c, 0, b - 1);
    }
    proof {
        if b >= 2 {
            if ends_with(t@, seq!['\n', '-']) {
                assert(t@.subrange(t@.len() - 2, t@.len() as int)[1] == c@[b - 1]);
                assert(t@.subrange(t@.len() - 2, t@.len() as int)[0] == c@[b - 2]);
            }
        }
        if t@ == seq!['-'] {
            assert(t@[0] == c@[0]);
        }
    }
    slice_chars(c, 0, c.len())
}

/// The fields of a block 4 text, filed under their raw tags with their
/// positions, ready for a message parser.
pub fn parse_block4_fields(block4: &str) -> (m: FieldMap)
    ensures
        m@ == raw_field_map(block4@),
{
    let c = to_chars(block4);
    let body = strip_terminator(&c);
    let content = trim_chars(&body);
    let fields = split_fields(&content);
    let ghost pairs = positioned_pairs(block4_fields(content@));
    let mut m = FieldMap::new();
    let mut i: usize = 0;
    while i < fields.len()
        invariant
            i <= fields.len(),
            fields@.len() == block4_fields(content@).len(),
            pairs.len() == fields@.len(),
            pairs == positioned_pairs(block4_fields(content@)),
            forall|j: int|
                0 <= j < fields@.len() ==> (#[trigger] fields@[j]).0@ == block4_fields(
                    content@,
                )[j].0 && fields@[j].1@ == block4_fields(content@)[j].1,
            m@ == map_from_pairs(pairs.take(i as int)),
        decreases fields.len() - i,
    {
        let value = from_chars(&fields[i].1);
        m.insert(&fields[i].0, value, i);
        proof {
            assert(pairs.take(i + 1).drop_last() =~= pairs.take(i as int));
            assert(pairs.take(i + 1).last() == pairs[i as int]);
        }
        i = i + 1;
    }
    assert(pairs.take(fields.len() as int) =~= pairs);
    m
}

} // verus!
