//! JSON text for the data that business rules see: strings with their
//! special characters escaped, and objects of string members.

use vstd::prelude::*;
use crate::message_parser::FieldView;
use crate::text::{append_chars, from_chars, string_chars, to_chars};

verus! {

/// The hexadecimal digit of `d` (below 16), in lower case.
pub open spec fn hex_digit(d: u32) -> char {
    seq!['0', '1', '2', '3', '4', '5', '6', '7', '8', '9', 'a', 'b', 'c', 'd', 'e', 'f'][d as int]
}

/// One character as it stands inside a JSON string.
pub open spec fn escape_char(c: char) -> Seq<char> {
    if c == '"' {
        seq!['\\', '"']
    } else if c == '\\' {
        seq!['\\', '\\']
    } else if c == '\n' {
        seq!['\\', 'n']
    } else if c == '\r' {
        seq!['\\', 'r']
    } else if c == '\t' {
        seq!['\\', 't']
    } else if (c as u32) < 0x20 {
        seq!['\\', 'u', '0', '0', hex_digit((c as u32) / 16), hex_digit((c as u32) % 16)]
    } else {
        seq![c]
    }
}

/// The characters of `s` as they stand inside a JSON string.
pub open spec fn json_escape(s: Seq<char>) -> Seq<char>
    decreases s.len(),
{
    if s.len() == 0 {
        Seq::empty()
    } else {
        json_escape(s.drop_last()) + escape_char(s.last())
    }
}

/// `s` as a JSON string.
pub open spec fn json_str(s: Seq<char>) -> Seq<char> {
    seq!['"'] + json_escape(s) + seq!['"']
}

/// The member `"k":"v"` of a JSON object.
pub open spec fn json_member(k: Seq<char>, v: Seq<char>) -> Seq<char> {
    json_str(k) + seq![':'] + json_str(v)
}

/// The members of the fields, one per field, separated by commas.
pub open spec fn field_members(fs: Seq<FieldView>) -> Seq<char>
    decreases fs.len(),
{
    if fs.len() == 0 {
        Seq::empty()
    } else if fs.len() == 1 {
        json_member(fs[0].0, fs[0].1)
    } else {
        field_members(fs.drop_last()) + seq![','] + json_member(fs.last().0, fs.last().1)
    }
}

/// The fields as a JSON object of strings, tag to content.
pub open spec fn fields_object(fs: Seq<FieldView>) -> Seq<char> {
    seq!['{'] + field_members(fs) + seq!['}']
}

/// The hexadecimal digit of `d`.
fn hex_digit_exec(d: u32) -> (c: char)
    requires
        d < 16,
    ensures
        c == hex_digit(d),
{
    if d == 0 {
        '0'
    } else if d == 1 {
        '1'
    } else if d == 2 {
        '2'
    } else if d == 3 {
        '3'
    } else if d == 4 {
        '4'
    } else if d == 5 {
        '5'
    } else if d == 6 {
        '6'
    } else if d == 7 {
        '7'
    } else if d == 8 {
        '8'
    } else if d == 9 {
        '9'
    } else if d == 10 {
        'a'
    } else if d == 11 {
        'b'
    } else if d == 12 {
        'c'
    } else if d == 13 {
        'd'
    } else if d == 14 {
        'e'
    } else {
        'f'
    }
}

/// One character as it stands inside a JSON string.
fn escape_char_exec(c: char, out: &mut Vec<char>)
    ensures
        final(out)@ == old(out)@ + escape_char(c),
{
    let ghost before = out@;
    if c == '"' {
        out.push('\\');
        out.push('"');
    } else if c == '\\' {
        out.push('\\');
        out.push('\\');
    } else if c == '\n' {
        out.push('\\');
        out.push('n');
    } else if c == '\r' {
        out.push('\\');
        out.push('r');
    } else if c == '\t' {
        out.push('\\');
        out.push('t');
    } else if (c as u32) < 0x20 {
        let n = c as u32;
        out.push('\\');
        out.push('u');
        out.push('0');
        out.push('0');
        out.push(hex_digit_exec(n / 16));
        out.push(hex_digit_exec(n % 16));
    } else {
        out.push(c);
    }
    assert(out@ =~= before + escape_char(c));
}

/// `s` as a JSON string, added to `out`.
pub fn push_json_str(out: &mut Vec<char>, s: &Vec<char>)
    ensures
        final(out)@ == old(out)@ + json_str(s@),
{
    let ghost before = out@;
    out.push('"');
    let mut i: usize = 0;
    while i < s.len()
        invariant
            i <= s.len(),
            out@ == before + seq!['"'] + json_escape(s@.take(i as int)),
        decreases s.len() - i,
    {
        proof {
            assert(s@.take(i + 1).drop_last() =~= s@.take(i as int));
            assert(s@.take(i + 1).last() == s@[i as int]);
        }
        escape_char_exec(s[i], out);
        i = i + 1;
    }
    assert(s@.take(s.len() as int) =~= s@);
    out.push('"');
    assert(out@ =~= before + json_str(s@));
}

/// The member `"k":"v"`, added to `out`.
pub fn push_json_member(out: &mut Vec<char>, k: &Vec<char>, v: &Vec<char>)
    ensures
        final(out)@ == old(out)@ + json_member(k@, v@),
{
    let ghost before = out@;
    push_json_str(out, k);
    out.push(':');
    push_json_str(out, v);
    assert(out@ =~= before + json_member(k@, v@));
}

/// The fields as a JSON object of strings, tag to content.
pub fn fields_object_text(fields: &Vec<(String, String)>) -> (s: Vec<char>)
    ensures
        s@ == fields_object(crate::parsing_utils::pair_views(fields@)),
{
    let ghost fs = crate::parsing_utils::pair_views(fields@);
    let mut out: Vec<char> = vec!['{'];
    let mut i: usize = 0;
    while i < fields.len()
        invariant
            i <= fields.len(),
            fs == crate::parsing_utils::pair_views(fields@),
            out@ == seq!['{'] + field_members(fs.take(i as int)),
        decreases fields.len() - i,
    {
        let ghost before = out@;
        if i > 0 {
            out.push(',');
        }
        let k = string_chars(&fields[i].0);
        let v = string_chars(&fields[i].1);
        push_json_member(&mut out, &k, &v);
        proof {
            assert(fs[i as int] == (k@, v@));
            assert(fs.take(i + 1).drop_last() =~= fs.take(i as int));
            assert(fs.take(i + 1).last() == fs[i as int]);
            if i == 0 {
                assert(fs.take(1)[0] == fs[0]);
            }
            assert(out@ =~= seq!['{'] + field_members(fs.take(i + 1)));
        }
        i = i + 1;
    }
    assert(fs.take(fields.len() as int) =~= fs);
    out.push('}');
    assert(out@ =~= fields_object(fs));
    out
}

} // verus!
