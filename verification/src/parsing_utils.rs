//! Helpers shared by the message types: finding block 4, writing fields
//! back in SWIFT form, and checking that a parser took every field.

use vstd::prelude::*;
use crate::errors::ParseError;
use crate::message_parser::{
    error_is, field_views, leftover, many_slot, opt_slot, swift_text, ErrView, FieldView,
    MessageParser, RawField,
};
use crate::parser::swift_parser::{block_content, SwiftParser};
use crate::text::{append_chars, ends_with, from_chars, join, starts_with, string_chars, to_chars};

verus! {

/// Block 4 of `input`: the content of block 4 when the input starts with
/// `{`, the input itself otherwise; `None` when a block structure has no
/// block 4.
pub open spec fn block4_of(input: Seq<char>) -> Option<Seq<char>> {
    if starts_with(input, seq!['{']) {
        block_content(input, 4)
    } else {
        Some(input)
    }
}

/// Extract Block 4 content from SWIFT message input.
/// If input starts with "{", attempts to extract Block 4.
/// Otherwise, assumes input is already Block 4 content.
pub fn extract_block4(input: &str) -> (r: Result<String, ParseError>)
    ensures
        match block4_of(input@) {
            Some(b) => r matches Ok(s) && s@ == b,
            None => r matches Err(ParseError::InvalidFormat { message }) && message@
                == "Block 4 not found"@,
        },
{
    let c = to_chars(input);
    let brace: Vec<char> = vec!['{'];
    if crate::text::starts_with_exec(&c, &brace) {
        assert(brace@ =~= seq!['{']);
        match SwiftParser::extract_block(input, 4) {
            Ok(Some(b)) => Ok(b),
            Ok(None) => Err(ParseError::InvalidFormat { message: "Block 4 not found".to_string() }),
            Err(e) => Err(e),
        }
    } else {
        assert(brace@ =~= seq!['{']);
        Ok(input.to_string())
    }
}

/// A field in SWIFT form followed by CRLF.
pub open spec fn field_line(f: FieldView) -> Seq<char> {
    swift_text(f) + seq!['\r', '\n']
}

/// The fields of a slot, each on its own CRLF-terminated line.
pub open spec fn slot_text(s: Seq<FieldView>) -> Seq<char>
    decreases s.len(),
{
    if s.len() == 0 {
        Seq::empty()
    } else {
        slot_text(s.drop_last()) + field_line(s.last())
    }
}

/// Appends `tail` to `result`.
fn push_chars(result: &mut String, tail: &Vec<char>)
    ensures
        final(result)@ == old(result)@ + tail@,
{
    let mut c = string_chars(result);
    append_chars(&mut c, tail);
    *result = from_chars(&c);
}

/// Append a mandatory field to the result string with CRLF.
pub fn append_field(result: &mut String, field: &RawField)
    ensures
        final(result)@ == old(result)@ + field_line(field@),
{
    let mut line = string_chars(&field.to_swift_string());
    line.push('\r');
    line.push('\n');
    assert(line@ =~= field_line(field@));
    push_chars(result, &line);
}

/// Append an optional field to the result string with CRLF if present.
pub fn append_optional_field(result: &mut String, field: &Option<RawField>)
    ensures
        final(result)@ == old(result)@ + slot_text(opt_slot(*field)),
{
    match field {
        Some(f) => {
            let ghost sl = opt_slot(*field);
            assert(sl.drop_last() =~= Seq::<FieldView>::empty());
            assert(sl.last() == f@);
            assert(slot_text(sl.drop_last()) =~= Seq::<char>::empty());
            assert(Seq::<char>::empty() + field_line(f@) =~= field_line(f@));
            assert(slot_text(sl) == field_line(f@));
            append_field(result, f);
        },
        None => {
            assert(old(result)@ + slot_text(opt_slot(*field)) =~= old(result)@);
        },
    }
}

/// Appends each field of `fields`, each with CRLF.
pub fn append_fields(result: &mut String, fields: &Vec<RawField>)
    ensures
        final(result)@ == old(result)@ + slot_text(field_views(fields@)),
{
    let ghost start = result@;
    let mut i: usize = 0;
    assert(field_views(fields@).take(0) =~= Seq::<FieldView>::empty());
    assert(start + slot_text(Seq::<FieldView>::empty()) =~= start);
    while i < fields.len()
        invariant
            i <= fields.len(),
            result@ == start + slot_text(field_views(fields@).take(i as int)),
        decreases fields.len() - i,
    {
        proof {
            let fv = field_views(fields@);
            assert(fv.take(i + 1).drop_last() =~= fv.take(i as int));
            assert(fv.take(i + 1).last() == fields@[i as int]@);
            assert(start + slot_text(fv.take(i as int)) + field_line(fields@[i as int]@) =~= start
                + slot_text(fv.take(i + 1)));
        }
        append_field(result, &fields[i]);
        i = i + 1;
    }
    assert(field_views(fields@).take(fields.len() as int) =~= field_views(fields@));
}

/// Append a vector of fields to the result string, each with CRLF.
pub fn append_vec_field(result: &mut String, fields: &Option<Vec<RawField>>)
    ensures
        final(result)@ == old(result)@ + slot_text(many_slot(*fields)),
{
    match fields {
        Some(v) => append_fields(result, v),
        None => {
            assert(old(result)@ + slot_text(many_slot(*fields)) =~= old(result)@);
        },
    }
}

/// Parse repeated fields and return as Option<Vec<T>>.
/// Returns None if no fields found, Some(vec) otherwise.
pub fn parse_repeated_field(parser: &mut MessageParser, tag: &str) -> (r: Result<
    Option<Vec<RawField>>,
    ParseError,
>)
    ensures
        final(parser).map() == old(parser).map(),
        final(parser).duplicates() == old(parser).duplicates(),
        final(parser).kind() == old(parser).kind(),
        crate::message_parser::step_done(
            old(parser).map(),
            old(parser).consumed(),
            old(parser).duplicates(),
            crate::message_parser::RuleView::Repeated(tag@),
            match r {
                Ok(f) => Ok(many_slot(f)),
                Err(e) => Err(e),
            },
            final(parser).consumed(),
        ),
        r matches Ok(Some(v)) ==> v.len() > 0,
{
    let fields = parser.parse_repeated(tag);
    if fields.len() == 0 {
        assert(field_views(fields@) =~= Seq::<FieldView>::empty());
        Ok(None)
    } else {
        Ok(Some(fields))
    }
}

/// Verify that all content in the parser has been consumed.
/// Returns error if unparsed content remains.
pub fn verify_parser_complete(parser: &MessageParser) -> (r: Result<(), ParseError>)
    ensures
        leftover(parser.map(), parser.consumed()).len() == 0 ==> r is Ok,
        leftover(parser.map(), parser.consumed()).len() != 0 ==> (r matches Err(pe) && error_is(
            pe,
            ErrView::Leftover(leftover(parser.map(), parser.consumed())),
        )),
{
    if !parser.is_complete() {
        let mut m = to_chars("Unparsed content remaining in message: ");
        append_chars(&mut m, &string_chars(&parser.remaining()));
        return Err(ParseError::InvalidFormat { message: from_chars(&m) });
    }
    Ok(())
}

/// `s` without a final CRLF, if it ends with one.
pub open spec fn without_crlf(s: Seq<char>) -> Seq<char> {
    if ends_with(s, seq!['\r', '\n']) {
        s.take(s.len() - 2)
    } else {
        s
    }
}

/// Remove trailing CRLF from result string if present.
pub fn remove_trailing_crlf(result: &mut String)
    ensures
        final(result)@ == without_crlf(old(result)@),
{
    let c = string_chars(result);
    let crlf: Vec<char> = vec!['\r', '\n'];
    assert(crlf@ =~= seq!['\r', '\n']);
    if crate::text::ends_with_exec(&c, &crlf) {
        *result = from_chars(&crate::text::slice_chars(&c, 0, c.len() - 2));
    }
}

/// Finalize MT string by removing trailing CRLF and optionally adding terminator.
pub fn finalize_mt_string(result: String, add_terminator: bool) -> (r: String)
    ensures
        r@ == if add_terminator {
            without_crlf(result@).push('-')
        } else {
            without_crlf(result@)
        },
{
    let mut result = result;
    remove_trailing_crlf(&mut result);
    if add_terminator {
        let dash: Vec<char> = vec!['-'];
        push_chars(&mut result, &dash);
        assert(dash@ =~= seq!['-']);
    }
    result
}

/// The views of (tag, content) pairs.
pub open spec fn pair_views(v: Seq<(String, String)>) -> Seq<FieldView> {
    v.map_values(|p: (String, String)| (p.0@, p.1@))
}

/// A message body in SWIFT form: each field on its own CRLF-terminated
/// line, then the terminator `-`.
pub open spec fn mt_text(fields: Seq<FieldView>) -> Seq<char> {
    slot_text(fields) + seq!['-']
}

/// Adds a field to a list of (tag, content) pairs.
pub fn push_field(v: &mut Vec<(String, String)>, f: &RawField)
    ensures
        pair_views(final(v)@) == pair_views(old(v)@) + seq![f@],
{
    v.push((f.tag.clone(), f.value.clone()));
    assert(pair_views(v@) =~= pair_views(old(v)@) + seq![f@]);
}

/// Adds an optional field to a list of (tag, content) pairs.
pub fn push_optional(v: &mut Vec<(String, String)>, f: &Option<RawField>)
    ensures
        pair_views(final(v)@) == pair_views(old(v)@) + opt_slot(*f),
{
    match f {
        Some(x) => push_field(v, x),
        None => {
            assert(pair_views(v@) =~= pair_views(v@) + opt_slot(*f));
        },
    }
}

/// Adds the fields of a list to a list of (tag, content) pairs.
pub fn push_fields(v: &mut Vec<(String, String)>, fields: &Vec<RawField>)
    ensures
        pair_views(final(v)@) == pair_views(old(v)@) + field_views(fields@),
{
    let ghost start = pair_views(v@);
    let mut i: usize = 0;
    assert(start + field_views(fields@).take(0) =~= start);
    while i < fields.len()
        invariant
            i <= fields.len(),
            pair_views(v@) == start + field_views(fields@).take(i as int),
        decreases fields.len() - i,
    {
        push_field(v, &fields[i]);
        assert(field_views(fields@).take(i + 1) =~= field_views(fields@).take(i as int).push(
            fields@[i as int]@,
        ));
        assert(start + field_views(fields@).take(i + 1) =~= start + field_views(fields@).take(
            i as int,
        ) + seq![fields@[i as int]@]);
        i = i + 1;
    }
    assert(field_views(fields@).take(fields.len() as int) =~= field_views(fields@));
}

/// Adds a repeated field to a list of (tag, content) pairs.
pub fn push_repeated(v: &mut Vec<(String, String)>, f: &Option<Vec<RawField>>)
    ensures
        pair_views(final(v)@) == pair_views(old(v)@) + many_slot(*f),
{
    match f {
        Some(x) => push_fields(v, x),
        None => {
            assert(pair_views(v@) =~= pair_views(v@) + many_slot(*f));
        },
    }
}

/// The fields in SWIFT form, each on its own CRLF-terminated line, then
/// the terminator `-`.
pub fn render_mt(fields: &Vec<(String, String)>) -> (r: String)
    ensures
        r@ == mt_text(pair_views(fields@)),
{
    let mut out = String::new();
    let mut i: usize = 0;
    let ghost pv = pair_views(fields@);
    assert(out@ =~= slot_text(pv.take(0)));
    while i < fields.len()
        invariant
            i <= fields.len(),
            pv == pair_views(fields@),
            out@ == slot_text(pv.take(i as int)),
        decreases fields.len() - i,
    {
        let f = RawField { tag: fields[i].0.clone(), value: fields[i].1.clone() };
        append_field(&mut out, &f);
        assert(pv.take(i + 1).drop_last() =~= pv.take(i as int));
        i = i + 1;
    }
    assert(pv.take(fields.len() as int) =~= pv);
    let dash: Vec<char> = vec!['-'];
    push_chars(&mut out, &dash);
    assert(dash@ =~= seq!['-']);
    out
}

} // verus!
