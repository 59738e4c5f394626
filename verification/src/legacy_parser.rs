//! The first-generation parser: block extraction where a block 5 ends at
//! its first `}`, and a field map keyed by normalised tags.

use vstd::prelude::*;
use crate::block4::{block4_fields, normalize_tag_chars, normalized_tag, positioned_pairs, split_fields};
use crate::blocks::{
    block_marker, block_marker_chars, close_brace, block4_end, find_matching_brace_chars,
    lemma_marker_free, lemma_marker_nested, matching_brace, nested_block, simple_block,
    text_block,
};
use crate::errors::ParseError;
use crate::field_map::{map_from_pairs, FieldMap, PosValue, TagGroup};
use crate::numeric::usize_to_decimal;
use crate::parsed_message::{auto_parsed_legacy, parse_any_legacy, ParsedSwiftMessage};
use crate::parser::swift_parser::{message_parsed, opt_view};
use crate::swift_message::SwiftMessage;
use crate::traits::SwiftMessageBody;
use crate::text::{
    append_chars, find_char, find_exec, find_from, from_chars, join, lemma_find_from,
    lemma_join_push, lines, lines_exec, slice_chars, to_chars, trim, trim_chars, views,
};

verus! {

/// The content of block `index` as this parser reads it: blocks 1, 2 and 5
/// end at their first `}`, block 3 at the brace that closes its own, block 4
/// at `-}`.
pub open spec fn legacy_block_content(raw: Seq<char>, index: u8) -> Option<Seq<char>> {
    match find_from(raw, block_marker(index), 0) {
        None => None,
        Some(start) => {
            let cs = start + 3;
            if index == 1 || index == 2 || index == 5 {
                simple_block(raw, start, cs)
            } else if index == 3 {
                nested_block(raw, start, cs)
            } else {
                text_block(raw, start, cs)
            }
        },
    }
}

/// A field as this parser files it: `:TAG:VALUE`.
pub open spec fn tagged(tag: Seq<char>, value: Seq<char>) -> Seq<char> {
    seq![':'] + tag + seq![':'] + value
}

/// The pairs that this parser files for the fields of a block 4 text: each
/// under its normalised tag, written in full, with its position.
pub open spec fn normalized_pairs(f: Seq<(Seq<char>, Seq<char>)>) -> Seq<(Seq<char>, PosValue)> {
    Seq::new(f.len(), |i: int| (normalized_tag(f[i].0), (tagged(f[i].0, f[i].1), i as usize)))
}

/// The field map of a block 4 text, by normalised tag.
pub open spec fn legacy_field_map(block4: Seq<char>) -> Seq<TagGroup> {
    map_from_pairs(normalized_pairs(block4_fields(trim(block4))))
}

/// A line `...:TAG:VALUE`: its tag and the text from the tag on.
pub open spec fn line_field(line: Seq<char>) -> Option<(Seq<char>, Seq<char>)> {
    if trim(line).len() == 0 {
        None
    } else {
        match find_from(line, seq![':'], 0) {
            None => None,
            Some(c1) => match find_from(line, seq![':'], c1 + 1) {
                None => None,
                Some(c2) => Some((line.subrange(c1 + 1, c2), seq![':'] + line.skip(c1 + 1))),
            },
        }
    }
}

/// The fields of the lines of `s`, in order.
pub open spec fn line_fields(ls: Seq<Seq<char>>) -> Seq<(Seq<char>, Seq<char>)>
    decreases ls.len(),
{
    if ls.len() == 0 {
        Seq::empty()
    } else {
        match line_field(ls.last()) {
            Some(f) => line_fields(ls.drop_last()).push(f),
            None => line_fields(ls.drop_last()),
        }
    }
}

/// Those fields filed with their positions among them.
pub open spec fn line_pairs(f: Seq<(Seq<char>, Seq<char>)>) -> Seq<(Seq<char>, PosValue)> {
    Seq::new(f.len(), |i: int| (f[i].0, (f[i].1, i as usize)))
}

/// All values of a map, group after group.
pub open spec fn all_values(m: Seq<TagGroup>) -> Seq<Seq<char>>
    decreases m.len(),
{
    if m.len() == 0 {
        Seq::empty()
    } else {
        all_values(m.drop_last()) + m.last().1.map_values(|v: PosValue| v.0)
    }
}

/// Main parser for SWIFT MT messages
pub struct SwiftParser;

impl SwiftParser {
    /// Parse a raw message as type `T`; a type mismatch is a
    /// `WrongMessageType` error.
    pub fn parse<T: SwiftMessageBody>(raw_message: &str) -> (r: Result<SwiftMessage<T>, ParseError>)
        ensures
            message_parsed(raw_message@, r, false),
    {
        crate::parser::swift_parser::SwiftParser::parse_whole(raw_message, false)
    }

    /// Parse a raw message with the type read from its application header.
    pub fn parse_auto(raw_message: &str) -> (r: Result<ParsedSwiftMessage, ParseError>)
        ensures
            auto_parsed_legacy(raw_message@, r),
    {
        parse_any_legacy(raw_message)
    }

    /// Extract a specific message block from raw SWIFT message
    pub fn extract_block(raw_message: &str, block_index: u8) -> (r: Result<Option<String>, ParseError>)
        ensures
            find_from(raw_message@, block_marker(block_index), 0) is None ==> (r matches Ok(o)
                && o is None),
            find_from(raw_message@, block_marker(block_index), 0) is Some ==> if 1 <= block_index
                <= 5 {
                r matches Ok(o) && opt_view(o) == legacy_block_content(raw_message@, block_index)
            } else {
                r matches Err(ParseError::InvalidBlockStructure { .. })
            },
    {
        let raw = to_chars(raw_message);
        let marker = block_marker_chars(block_index);
        match find_exec(&raw, &marker, 0) {
            None => Ok(None),
            Some(start) => {
                if !(1 <= block_index && block_index <= 5) {
                    let mut msg = to_chars("Invalid block index: ");
                    let d = usize_to_decimal(block_index as usize);
                    append_chars(&mut msg, &d);
                    return Err(ParseError::InvalidBlockStructure { message: from_chars(&msg) });
                }
                proof {
                    lemma_find_from(raw@, block_marker(block_index), 0);
                    lemma_marker_free(raw@, block_index, start as int);
                    lemma_marker_nested(raw@, block_index, start as int);
                }
                let cs = start + 3;
                if block_index == 1 || block_index == 2 || block_index == 5 {
                    assert(close_brace() =~= seq!['}']);
                    match find_char(&raw, '}', start) {
                        Some(e) => Ok(Some(from_chars(&slice_chars(&raw, cs, e)))),
                        None => Ok(None),
                    }
                } else if block_index == 3 {
                    match find_matching_brace_chars(&raw, start) {
                        Some(e) => Ok(Some(from_chars(&slice_chars(&raw, cs, start + e)))),
                        None => Ok(None),
                    }
                } else {
                    let end: Vec<char> = vec!['-', '}'];
                    assert(end@ =~= block4_end());
                    match find_exec(&raw, &end, start) {
                        Some(e) => {
                            proof {
                                lemma_find_from(raw@, block4_end(), start as int);
                            }
                            Ok(Some(from_chars(&slice_chars(&raw, cs, e))))
                        },
                        None => Ok(None),
                    }
                }
            },
        }
    }

    /// Parse block 4 fields into a field map
    pub fn parse_block4_fields(block4: &str) -> (r: Result<FieldMap, ParseError>)
        ensures
            r matches Ok(m) && m@ == legacy_field_map(block4@),
    {
        let c = to_chars(block4);
        let content = trim_chars(&c);
        let fields = split_fields(&content);
        let ghost pairs = normalized_pairs(block4_fields(content@));
        let mut m = FieldMap::new();
        let mut i: usize = 0;
        while i < fields.len()
            invariant
                i <= fields.len(),
                fields@.len() == block4_fields(content@).len(),
                pairs.len() == fields@.len(),
                pairs == normalized_pairs(block4_fields(content@)),
                forall|j: int|
                    0 <= j < fields@.len() ==> (#[trigger] fields@[j]).0@ == block4_fields(
                        content@,
                    )[j].0 && fields@[j].1@ == block4_fields(content@)[j].1,
                m@ == map_from_pairs(pairs.take(i as int)),
            decreases fields.len() - i,
        {
            let tag = normalize_tag_chars(&fields[i].0);
            let mut full: Vec<char> = vec![':'];
            append_chars(&mut full, &fields[i].0);
            full.push(':');
            append_chars(&mut full, &fields[i].1);
            assert(full@ =~= tagged(fields@[i as int].0@, fields@[i as int].1@));
            let value = from_chars(&full);
            m.insert(&tag, value, i);
            proof {
                assert(pairs.take(i + 1).drop_last() =~= pairs.take(i as int));
                assert(pairs.take(i + 1).last() == pairs[i as int]);
            }
            i = i + 1;
        }
        assert(pairs.take(fields.len() as int) =~= pairs);
        Ok(m)
    }

    /// Normalize field tag by removing option letters (A, F, K, etc.)
    pub fn normalize_field_tag(raw_tag: &str) -> (r: String)
        ensures
            r@ == normalized_tag(raw_tag@),
    {
        crate::block4::normalize_field_tag(raw_tag)
    }

    /// Find the matching closing brace for a block that starts with an opening brace
    pub fn find_matching_brace(text: &str) -> (r: Option<usize>)
        ensures
            match r {
                Some(k) => matching_brace(text@) == Some(k as int),
                None => matching_brace(text@) is None,
            },
    {
        crate::parser::swift_parser::SwiftParser::find_matching_brace(text)
    }
}

/// The field of one line, if it has one.
fn line_field_exec(line: &Vec<char>) -> (r: Option<(Vec<char>, Vec<char>)>)
    ensures
        match r {
            Some(f) => line_field(line@) == Some((f.0@, f.1@)),
            None => line_field(line@) is None,
        },
{
    let t = trim_chars(line);
    if t.len() == 0 {
        return None;
    }
    match find_char(line, ':', 0) {
        None => None,
        Some(c1) => match find_char(line, ':', c1 + 1) {
            None => None,
            Some(c2) => {
                proof {
                    lemma_find_from(line@, seq![':'], c1 + 1);
                }
                let tag = slice_chars(line, c1 + 1, c2);
                let mut rest: Vec<char> = vec![':'];
                let tail = slice_chars(line, c1 + 1, line.len());
                append_chars(&mut rest, &tail);
                assert(rest@ =~= seq![':'] + line@.skip(c1 + 1));
                Some((tag, rest))
            },
        },
    }
}

/// Parse a SwiftMessage from a string representation: each line
/// `...:TAG:VALUE` files `:TAG:VALUE` under `TAG`.
pub fn parse_swift_message_from_string(value: &str) -> (r: Result<FieldMap, ParseError>)
    ensures
        r matches Ok(m) && m@ == map_from_pairs(line_pairs(line_fields(lines(value@)))),
{
    let c = to_chars(value);
    let ls = lines_exec(&c);
    let ghost lv = views(ls@);
    let mut m = FieldMap::new();
    let mut n: usize = 0;
    let mut i: usize = 0;
    while i < ls.len()
        invariant
            i <= ls.len(),
            lv == views(ls@),
            lv == lines(c@),
            n == line_fields(lv.take(i as int)).len(),
            n <= i,
            m@ == map_from_pairs(line_pairs(line_fields(lv.take(i as int)))),
        decreases ls.len() - i,
    {
        let ghost prev = line_fields(lv.take(i as int));
        proof {
            assert(lv.take(i + 1).drop_last() =~= lv.take(i as int));
            assert(lv.take(i + 1).last() == ls@[i as int]@);
        }
        match line_field_exec(&ls[i]) {
            Some(f) => {
                let (tag, full) = f;
                let value = from_chars(&full);
                m.insert(&tag, value, n);
                proof {
                    let next = prev.push((tag@, full@));
                    assert(line_fields(lv.take(i + 1)) == next);
                    assert(line_pairs(next).drop_last() =~= line_pairs(prev));
                    assert(line_pairs(next).last() == (tag@, (full@, n)));
                }
                n = n + 1;
            },
            None => {},
        }
        i = i + 1;
    }
    assert(lv.take(ls.len() as int) =~= lv);
    Ok(m)
}

/// Serialize a SwiftMessage field map to a string representation: all
/// values, group after group, one per line.
pub fn serialize_swift_message_to_string(fields: &FieldMap) -> (r: String)
    ensures
        r@ == join(all_values(fields@), seq!['\n']),
{
    let mut out: Vec<char> = Vec::new();
    let mut any = false;
    let nl: Vec<char> = vec!['\n'];
    let mut g: usize = 0;
    while g < fields.len()
        invariant
            g <= fields@.len(),
            nl@ == seq!['\n'],
            out@ == join(all_values(fields@.take(g as int)), seq!['\n']),
            any == (all_values(fields@.take(g as int)).len() > 0),
        decreases fields@.len() - g,
    {
        let (_, values) = fields.group(g);
        let ghost base = all_values(fields@.take(g as int));
        let ghost gv = fields@[g as int].1.map_values(|v: PosValue| v.0);
        proof {
            assert(fields@.take(g + 1).drop_last() =~= fields@.take(g as int));
            assert(fields@.take(g + 1).last() == fields@[g as int]);
        }
        let mut k: usize = 0;
        while k < values.len()
            invariant
                k <= values.len(),
                nl@ == seq!['\n'],
                gv.len() == values@.len(),
                forall|j: int| 0 <= j < gv.len() ==> gv[j] == (#[trigger] values@[j]).0@,
                out@ == join(base + gv.take(k as int), seq!['\n']),
                any == ((base + gv.take(k as int)).len() > 0),
            decreases values.len() - k,
        {
            let v = crate::text::string_chars(&values[k].0);
            proof {
                lemma_join_push(base + gv.take(k as int), seq!['\n'], v@);
                assert(base + gv.take(k + 1) =~= (base + gv.take(k as int)).push(v@));
            }
            if any {
                append_chars(&mut out, &nl);
            }
            append_chars(&mut out, &v);
            any = true;
            k = k + 1;
        }
        assert(gv.take(values.len() as int) =~= gv);
        g = g + 1;
    }
    assert(fields@.take(fields@.len() as int) =~= fields@);
    from_chars(&out)
}


// ---------------------------------------------------------------------------
// Writing a field map as lines and reading it back
// ---------------------------------------------------------------------------

/// A value that the line format carries: `:TAG:` first, and no line break.
pub open spec fn line_value(t: Seq<char>, x: Seq<char>) -> bool {
    &&& x.len() >= t.len() + 2int
    &&& x.subrange(0, t.len() + 2int) == seq![':'] + t + seq![':']
    &&& forall|i: int| 0 <= i < x.len() ==> #[trigger] x[i] != '\r' && x[i] != '\n'
}

/// A map that the line format writes and reads back: each tag non-empty and
/// free of `:` and line breaks, with at least one value, each value a line
/// value of its tag.
pub open spec fn line_writable(m: Seq<TagGroup>) -> bool {
    forall|g: int|
        0 <= g < m.len() ==> {
            &&& (#[trigger] m[g]).0.len() > 0
            &&& forall|i: int| 0 <= i < m[g].0.len() ==> #[trigger] m[g].0[i] != ':'
            &&& m[g].1.len() > 0
            &&& forall|v: int| 0 <= v < m[g].1.len() ==> line_value(m[g].0, #[trigger] m[g].1[v].0)
        }
}

/// The texts of positioned values.
pub open spec fn value_texts(vs: Seq<PosValue>) -> Seq<Seq<char>> {
    vs.map_values(|v: PosValue| v.0)
}

/// The values of the map with their tags, group after group.
pub open spec fn tag_pairs(m: Seq<TagGroup>) -> Seq<(Seq<char>, Seq<char>)>
    decreases m.len(),
{
    if m.len() == 0 {
        Seq::empty()
    } else {
        tag_pairs(m.drop_last()) + m.last().1.map_values(|v: PosValue| (m.last().0, v.0))
    }
}

/// The values of the map are the texts of its tagged values.
proof fn lemma_all_values_pairs(m: Seq<TagGroup>)
    ensures
        all_values(m) == tag_pairs(m).map_values(|p: (Seq<char>, Seq<char>)| p.1),
    decreases m.len(),
{
    if m.len() > 0 {
        lemma_all_values_pairs(m.drop_last());
        assert(all_values(m) =~= tag_pairs(m).map_values(|p: (Seq<char>, Seq<char>)| p.1));
    }
}

/// Each tagged value of a writable map is a line value of its tag.
proof fn lemma_pairs_lines(m: Seq<TagGroup>)
    requires
        line_writable(m),
    ensures
        forall|k: int|
            0 <= k < tag_pairs(m).len() ==> line_value((#[trigger] tag_pairs(m)[k]).0, tag_pairs(m)[k].1)
                && tag_pairs(m)[k].0.len() > 0 && forall|i: int|
                0 <= i < tag_pairs(m)[k].0.len() ==> tag_pairs(m)[k].0[i] != ':',
        tag_pairs(m).len() == 0 <==> m.len() == 0,
    decreases m.len(),
{
    if m.len() > 0 {
        let p = m.drop_last();
        assert forall|g: int| 0 <= g < p.len() implies #[trigger] p[g] == m[g] by {}
        lemma_pairs_lines(p);
        let l = m.len() - 1;
        assert(m[l].1.len() > 0);
        let a = tag_pairs(p);
        let b = m.last().1.map_values(|v: PosValue| (m.last().0, v.0));
        assert forall|k: int| 0 <= k < tag_pairs(m).len() implies line_value((#[trigger] tag_pairs(m)[k]).0, tag_pairs(m)[k].1)
            && tag_pairs(m)[k].0.len() > 0 && forall|i: int|
            0 <= i < tag_pairs(m)[k].0.len() ==> tag_pairs(m)[k].0[i] != ':' by {
            if k < a.len() {
                assert(tag_pairs(m)[k] == a[k]);
            } else {
                assert(tag_pairs(m)[k] == b[k - a.len()]);
                assert(line_value(m[l].0, m[l].1[k - a.len()].0));
            }
        }
    }
}

/// A line value is read back as a field under its tag, in full.
proof fn lemma_line_field(t: Seq<char>, x: Seq<char>)
    requires
        line_value(t, x),
        t.len() > 0,
        forall|i: int| 0 <= i < t.len() ==> t[i] != ':',
    ensures
        line_field(x) == Some((t, x)),
{
    let c = seq![':'];
    assert(x[0] == ':') by {
        assert(x.subrange(0, t.len() + 2int)[0] == x[0]);
    }
    assert(x[t.len() + 1int] == ':') by {
        assert(x.subrange(0, t.len() + 2int)[t.len() + 1int] == x[t.len() + 1int]);
    }
    assert forall|i: int| 0 <= i < t.len() implies x[i + 1] == t[i] by {
        assert(x.subrange(0, t.len() + 2int)[i + 1] == x[i + 1]);
    }
    assert(crate::text::trim_start(x) == x);
    lemma_trim_end_keeps_first(x);
    assert(crate::text::occurs_at(x, c, 0)) by {
        assert(x.subrange(0, 1) =~= c);
    }
    crate::text::lemma_find_from_intro(x, c, 0, 0);
    assert(crate::text::occurs_at(x, c, t.len() + 1int)) by {
        assert(x.subrange(t.len() + 1int, t.len() + 2int) =~= c);
    }
    assert forall|j: int| 1 <= j < t.len() + 1int implies !crate::text::occurs_at(x, c, j) by {
        assert(x.subrange(j, j + 1)[0] == x[j]);
        assert(x[j] == t[j - 1]);
    }
    crate::text::lemma_find_from_intro(x, c, 1, t.len() + 1int);
    assert(x.subrange(1, t.len() + 1int) =~= t);
    assert(c + x.skip(1) =~= x);
}

/// Trimming the end of a text that starts with no space leaves something.
proof fn lemma_trim_end_keeps_first(s: Seq<char>)
    requires
        s.len() > 0,
        !crate::text::is_ws(s[0]),
    ensures
        crate::text::trim_end(s).len() > 0,
    decreases s.len(),
{
    if s.len() > 1 && crate::text::is_ws(s.last()) {
        lemma_trim_end_keeps_first(s.drop_last());
    }
}

/// The fields of lines that each read back as a field: those fields.
proof fn lemma_line_fields(ls: Seq<Seq<char>>, f: Seq<(Seq<char>, Seq<char>)>)
    requires
        ls.len() == f.len(),
        forall|k: int| 0 <= k < ls.len() ==> line_field(#[trigger] ls[k]) == Some(f[k]),
    ensures
        line_fields(ls) == f,
    decreases ls.len(),
{
    if ls.len() > 0 {
        lemma_line_fields(ls.drop_last(), f.drop_last());
        assert(line_fields(ls) =~= f.drop_last().push(f.last()));
    }
}

/// The texts of values with one more value.
proof fn lemma_texts_push(x: Seq<PosValue>, y: PosValue)
    ensures
        value_texts(x.push(y)) == value_texts(x).push(y.0),
{
    assert(value_texts(x.push(y)) =~= value_texts(x).push(y.0));
}

/// The values of tag `t` among two runs of tagged values: those of the
/// first, then those of the second.
proof fn lemma_values_tagged_concat(a: Seq<(Seq<char>, Seq<char>)>, b: Seq<(Seq<char>, Seq<char>)>, t: Seq<char>)
    ensures
        value_texts(crate::round_trip::values_tagged(a + b, t)) == value_texts(
            crate::round_trip::values_tagged(a, t),
        ) + value_texts(crate::round_trip::values_tagged(b, t)),
        crate::round_trip::has_tag(a + b, t) <==> (crate::round_trip::has_tag(a, t) || crate::round_trip::has_tag(b, t)),
    decreases b.len(),
{
    if b.len() == 0 {
        assert(a + b =~= a);
        assert(value_texts(crate::round_trip::values_tagged(a, t)) + Seq::<Seq<char>>::empty() =~= value_texts(crate::round_trip::values_tagged(a, t)));
    } else {
        lemma_values_tagged_concat(a, b.drop_last(), t);
        assert((a + b).drop_last() =~= a + b.drop_last());
        assert((a + b).last() == b.last());
        let va = value_texts(crate::round_trip::values_tagged(a, t));
        let vb0 = crate::round_trip::values_tagged(b.drop_last(), t);
        let vab0 = crate::round_trip::values_tagged(a + b.drop_last(), t);
        if b.last().0 == t {
            let y1 = (b.last().1, ((a + b).len() - 1) as usize);
            let y2 = (b.last().1, (b.len() - 1) as usize);
            assert(crate::round_trip::values_tagged(a + b, t) == vab0.push(y1));
            assert(crate::round_trip::values_tagged(b, t) == vb0.push(y2));
            lemma_texts_push(vab0, y1);
            lemma_texts_push(vb0, y2);
            assert(value_texts(vab0).push(b.last().1) =~= va + value_texts(vb0).push(b.last().1));
        } else {
            assert(crate::round_trip::values_tagged(a + b, t) == vab0);
            assert(crate::round_trip::values_tagged(b, t) == vb0);
        }
        if crate::round_trip::has_tag(a + b, t) {
            let k = choose|k: int| 0 <= k < (a + b).len() && #[trigger] (a + b)[k].0 == t;
            if k >= a.len() {
                assert(b[k - a.len()].0 == t);
            }
        }
        if crate::round_trip::has_tag(a, t) {
            let k = choose|k: int| 0 <= k < a.len() && #[trigger] a[k].0 == t;
            assert((a + b)[k].0 == t);
        }
        if crate::round_trip::has_tag(b, t) {
            let k = choose|k: int| 0 <= k < b.len() && #[trigger] b[k].0 == t;
            assert((a + b)[a.len() + k].0 == t);
        }
    }
}

/// The values of tag `t` among the values of one group.
proof fn lemma_values_tagged_group(k: Seq<char>, vs: Seq<PosValue>, t: Seq<char>)
    ensures
        value_texts(crate::round_trip::values_tagged(vs.map_values(|v: PosValue| (k, v.0)), t)) == if k == t {
            value_texts(vs)
        } else {
            Seq::empty()
        },
        crate::round_trip::has_tag(vs.map_values(|v: PosValue| (k, v.0)), t) <==> (k == t && vs.len() > 0),
    decreases vs.len(),
{
    let b = vs.map_values(|v: PosValue| (k, v.0));
    if vs.len() > 0 {
        lemma_values_tagged_group(k, vs.drop_last(), t);
        assert(b.drop_last() =~= vs.drop_last().map_values(|v: PosValue| (k, v.0)));
        let v0 = crate::round_trip::values_tagged(b.drop_last(), t);
        if k == t {
            let y = (vs.last().0, (b.len() - 1) as usize);
            assert(b.last() == (k, vs.last().0));
            assert(crate::round_trip::values_tagged(b, t) == v0.push(y));
            lemma_texts_push(v0, y);
            assert(value_texts(vs) =~= value_texts(vs.drop_last()).push(vs.last().0));
        } else {
            assert(crate::round_trip::values_tagged(b, t) == v0);
        }
        if crate::round_trip::has_tag(b, t) {
            let j = choose|j: int| 0 <= j < b.len() && #[trigger] b[j].0 == t;
        }
        if k == t {
            assert(b[0].0 == t);
        }
    } else {
        assert(!crate::round_trip::has_tag(b, t));
    }
}

/// The values of tag `t` among the tagged values of a map with distinct
/// tags: those of its group.
proof fn lemma_values_of_map(m: Seq<TagGroup>, t: Seq<char>)
    requires
        crate::field_map::distinct_tags(m),
        line_writable(m),
    ensures
        crate::round_trip::has_tag(tag_pairs(m), t) <==> crate::field_map::map_get(m, t) is Some,
        crate::field_map::map_get(m, t) matches Some(v) ==> value_texts(
            crate::round_trip::values_tagged(tag_pairs(m), t),
        ) == value_texts(v),
    decreases m.len(),
{
    if m.len() > 0 {
        let p = m.drop_last();
        let l = m.len() - 1;
        assert forall|g: int| 0 <= g < p.len() implies #[trigger] p[g] == m[g] by {}
        assert(crate::field_map::distinct_tags(p));
        assert(line_writable(p));
        lemma_values_of_map(p, t);
        lemma_values_tagged_concat(tag_pairs(p), m.last().1.map_values(|v: PosValue| (m.last().0, v.0)), t);
        lemma_values_tagged_group(m.last().0, m.last().1, t);
        assert(m[l].1.len() > 0);
        if m.last().0 == t {
            crate::field_map::lemma_group_index(p, t);
            assert(crate::field_map::group_index(p, t) is None) by {
                if crate::field_map::group_index(p, t) is Some {
                    let g = crate::field_map::group_index(p, t)->0;
                    assert(m[g].0 == m[l].0);
                }
            }
            assert(value_texts(crate::round_trip::values_tagged(tag_pairs(p), t)) =~= Seq::<Seq<char>>::empty()) by {
                crate::round_trip::lemma_values_tagged_none(tag_pairs(p), t);
            }
            assert(Seq::<Seq<char>>::empty() + value_texts(m.last().1) =~= value_texts(m.last().1));
            assert(crate::field_map::group_index(m, t) == Some(l));
            assert(crate::field_map::map_get(m, t) == Some(m[l].1));
        } else {
            assert(crate::field_map::group_index(m, t) == crate::field_map::group_index(p, t));
            crate::field_map::lemma_group_index(p, t);
            assert(crate::field_map::map_get(m, t) == crate::field_map::map_get(p, t));
            assert(value_texts(crate::round_trip::values_tagged(tag_pairs(p), t)) + Seq::<Seq<char>>::empty()
                =~= value_texts(crate::round_trip::values_tagged(tag_pairs(p), t)));
        }
    }
}

/// Writing a field map as lines and reading them back gives, under each tag,
/// the same values in the same order, and no other tag: for a map whose tags
/// are non-empty and free of `:` and line breaks, with at least one value
/// each, every value `:TAG:` followed by text without line breaks.
pub proof fn lemma_serialize_parse(m: Seq<TagGroup>)
    requires
        crate::field_map::distinct_tags(m),
        line_writable(m),
        tag_pairs(m).len() <= usize::MAX,
    ensures
        ({
            let back = map_from_pairs(line_pairs(line_fields(lines(join(all_values(m), seq!['\n'])))));
            forall|t: Seq<char>|
                (#[trigger] crate::field_map::map_get(back, t) is Some <==> crate::field_map::map_get(m, t) is Some)
                    && (crate::field_map::map_get(m, t) matches Some(v) ==> value_texts(
                    crate::field_map::map_get(back, t)->0,
                ) == value_texts(v))
        }),
{
    let fs = tag_pairs(m);
    let vals = all_values(m);
    lemma_all_values_pairs(m);
    lemma_pairs_lines(m);
    assert forall|k: int| 0 <= k < vals.len() implies line_field(#[trigger] vals[k]) == Some(fs[k]) by {
        assert(vals[k] == fs[k].1);
        lemma_line_field(fs[k].0, fs[k].1);
    }
    if vals.len() == 0 {
        assert(join(vals, seq!['\n']) == Seq::<char>::empty());
        assert(crate::text::split_on(Seq::<char>::empty(), '\n') == seq![Seq::<char>::empty()]);
        assert(lines(Seq::<char>::empty()) =~= Seq::<Seq<char>>::empty());
        assert(vals =~= Seq::<Seq<char>>::empty());
    } else {
        assert forall|k: int, i: int| 0 <= k < vals.len() && 0 <= i < vals[k].len() implies #[trigger] vals[k][i] != '\n' by {
            assert(vals[k] == fs[k].1);
        }
        crate::name_field::lemma_split_join(vals);
        let p = crate::text::split_on(join(vals, seq!['\n']), '\n');
        assert(vals.last() == fs[vals.len() - 1].1);
        assert(p.drop_last().map_values(|x: Seq<char>| crate::text::strip_cr(x)) =~= vals.drop_last()) by {
            assert forall|k: int| 0 <= k < vals.len() - 1 implies crate::text::strip_cr(#[trigger] vals[k]) == vals[k] by {
                assert(vals[k] == fs[k].1);
                assert(vals[k].len() > 0);
                assert(vals[k][vals[k].len() - 1] != '\r');
            }
        }
        assert(lines(join(vals, seq!['\n'])) =~= vals);
    }
    lemma_line_fields(vals, fs);
    assert(line_pairs(fs) =~= positioned_pairs(fs));
    crate::round_trip::lemma_map_groups(fs);
    let back = map_from_pairs(positioned_pairs(fs));
    assert forall|t: Seq<char>|
        (#[trigger] crate::field_map::map_get(back, t) is Some <==> crate::field_map::map_get(m, t) is Some)
            && (crate::field_map::map_get(m, t) matches Some(v) ==> value_texts(
            crate::field_map::map_get(back, t)->0,
        ) == value_texts(v)) by {
        lemma_values_of_map(m, t);
    }
}

} // verus!
