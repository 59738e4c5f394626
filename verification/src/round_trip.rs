//! Reading back what was written: the fields of a message body written in
//! SWIFT form (`:TAG:value` lines, then `-`) are split back into the same
//! fields, in the same order.

use vstd::prelude::*;
use crate::block4::{
    block4_fields, colon, fields_from, newline_colon, positioned_pairs, raw_field_map, value_end,
    without_terminator,
};
use crate::field_map::{map_from_pairs, map_get, TagGroup};
use crate::message_parser::run_rules;
use crate::field_map::PosValue;
use crate::message_parser::{step, ErrView};
use crate::parser::consumption::{
    any_consumed, chosen_at, eligible, exact_hit, first_available, is_variant_tag, lookup_order,
    lookup_spec, variant_of, Consumed,
};
use crate::message_parser::{swift_text, FieldView, RuleView};
use crate::parsing_utils::{field_line, mt_text, slot_text};
use crate::text::{
    ends_with, find_from, is_ws, lemma_find_from, lemma_find_from_intro, lemma_find_from_none,
    occurs_at, trim, trim_end, trim_start,
};

verus! {

/// A field that reads back as it was written: its tag holds no `:`, its
/// value has no white space at either end and no line of it starts with `:`.
pub open spec fn writable_field(f: FieldView) -> bool {
    &&& !f.0.contains(':')
    &&& trim(f.1) == f.1
    &&& find_from(f.1, newline_colon(), 0) is None
}

/// Every field of `fs` reads back as written.
pub open spec fn writable_fields(fs: Seq<FieldView>) -> bool {
    forall|i: int| 0 <= i < fs.len() ==> writable_field(#[trigger] fs[i])
}

/// The lines of `fs`, the first first.
pub open spec fn lines_from(fs: Seq<FieldView>) -> Seq<char>
    decreases fs.len(),
{
    if fs.len() == 0 {
        Seq::empty()
    } else {
        field_line(fs[0]) + lines_from(fs.skip(1))
    }
}

/// The lines of `fs` without the line end of the last.
pub open spec fn body_text(fs: Seq<FieldView>) -> Seq<char>
    decreases fs.len(),
{
    if fs.len() == 0 {
        Seq::empty()
    } else if fs.len() == 1 {
        swift_text(fs[0])
    } else {
        field_line(fs[0]) + body_text(fs.skip(1))
    }
}

proof fn lemma_lines_from_push(fs: Seq<FieldView>, f: FieldView)
    ensures
        lines_from(fs.push(f)) == lines_from(fs) + field_line(f),
    decreases fs.len(),
{
    if fs.len() == 0 {
        assert(fs.push(f).skip(1) =~= Seq::<FieldView>::empty());
        assert(lines_from(fs.push(f).skip(1)) == Seq::<char>::empty());
        assert(fs.push(f)[0] == f);
        assert(lines_from(fs) == Seq::<char>::empty());
        assert(lines_from(fs.push(f)) =~= lines_from(fs) + field_line(f));
    } else {
        assert(fs.push(f).skip(1) =~= fs.skip(1).push(f));
        lemma_lines_from_push(fs.skip(1), f);
        assert(fs.push(f)[0] == fs[0]);
        assert(lines_from(fs.push(f)) =~= lines_from(fs) + field_line(f));
    }
}

proof fn lemma_slot_text_lines(fs: Seq<FieldView>)
    ensures
        slot_text(fs) == lines_from(fs),
    decreases fs.len(),
{
    if fs.len() > 0 {
        lemma_slot_text_lines(fs.drop_last());
        lemma_lines_from_push(fs.drop_last(), fs.last());
        assert(fs.drop_last().push(fs.last()) =~= fs);
    }
}

proof fn lemma_lines_body(fs: Seq<FieldView>)
    requires
        fs.len() > 0,
    ensures
        lines_from(fs) == body_text(fs) + seq!['\r', '\n'],
    decreases fs.len(),
{
    if fs.len() == 1 {
        assert(fs.skip(1) =~= Seq::<FieldView>::empty());
        assert(lines_from(fs.skip(1)) == Seq::<char>::empty());
        assert(lines_from(fs) =~= body_text(fs) + seq!['\r', '\n']);
    } else {
        lemma_lines_body(fs.skip(1));
        assert(lines_from(fs) =~= body_text(fs) + seq!['\r', '\n']);
    }
}

/// The body text starts with `:` and ends with a character that is not
/// white space.
proof fn lemma_body_ends(fs: Seq<FieldView>)
    requires
        fs.len() > 0,
        writable_fields(fs),
    ensures
        body_text(fs).len() > 0,
        body_text(fs)[0] == ':',
        !is_ws(body_text(fs).last()),
    decreases fs.len(),
{
    let f = fs[0];
    assert(writable_field(f));
    if fs.len() == 1 {
        let t = swift_text(f);
        assert(t[0] == ':');
        if f.1.len() > 0 {
            assert(t.last() == f.1.last());
            lemma_trimmed_ends(f.1);
        } else {
            assert(t.last() == ':');
        }
    } else {
        assert forall|i: int| 0 <= i < fs.skip(1).len() implies writable_field(
            #[trigger] fs.skip(1)[i],
        ) by {
            assert(fs.skip(1)[i] == fs[i + 1]);
        }
        lemma_body_ends(fs.skip(1));
        assert(body_text(fs).last() == body_text(fs.skip(1)).last());
        assert(body_text(fs)[0] == field_line(f)[0]);
    }
}

/// A trimmed non-empty text ends with a character that is not white space.
pub(crate) proof fn lemma_trimmed_ends(s: Seq<char>)
    requires
        trim(s) == s,
        s.len() > 0,
    ensures
        !is_ws(s.last()),
        !is_ws(s[0]),
{
    lemma_trim_len(s);
}

/// Trimming a text that starts or ends with white space shortens it.
proof fn lemma_trim_len(s: Seq<char>)
    ensures
        trim(s).len() <= s.len(),
        s.len() > 0 && (is_ws(s[0]) || is_ws(s.last())) ==> trim(s).len() < s.len(),
{
    lemma_trim_start_len(s);
    lemma_trim_end_len(trim_start(s));
    if s.len() > 0 && !is_ws(s[0]) && is_ws(s.last()) {
        assert(trim_start(s) == s);
    }
}

proof fn lemma_trim_start_len(s: Seq<char>)
    ensures
        trim_start(s).len() <= s.len(),
        s.len() > 0 && is_ws(s[0]) ==> trim_start(s).len() < s.len(),
    decreases s.len(),
{
    if s.len() > 0 && is_ws(s[0]) {
        lemma_trim_start_len(s.drop_first());
    }
}

proof fn lemma_trim_end_len(s: Seq<char>)
    ensures
        trim_end(s).len() <= s.len(),
        s.len() > 0 && is_ws(s.last()) ==> trim_end(s).len() < s.len(),
    decreases s.len(),
{
    if s.len() > 0 && is_ws(s.last()) {
        lemma_trim_end_len(s.drop_last());
    }
}

/// A trimmed value stays trimmed with a carriage return after it.
proof fn lemma_trim_cr(v: Seq<char>)
    requires
        trim(v) == v,
    ensures
        trim(v + seq!['\r']) == v,
{
    let x = v + seq!['\r'];
    if v.len() == 0 {
        assert(x =~= seq!['\r']);
        assert(x.drop_first() =~= Seq::<char>::empty());
        assert(trim_start(x) == trim_start(x.drop_first()));
        assert(trim_start(Seq::<char>::empty()) == Seq::<char>::empty());
        assert(trim_end(Seq::<char>::empty()) == Seq::<char>::empty());
    } else {
        lemma_trimmed_ends(v);
        assert(x[0] == v[0]);
        assert(trim_start(x) == x);
        assert(x.drop_last() =~= v);
        assert(trim_end(x) == trim_end(v));
        assert(trim_start(v) == v);
        assert(trim_end(v) == v);
    }
}

/// The body text of the fields, after the terminator line is dropped and
/// the text trimmed, is what the field splitter reads.
proof fn lemma_read_text(fs: Seq<FieldView>)
    requires
        writable_fields(fs),
    ensures
        trim(without_terminator(mt_text(fs))) == body_text(fs),
{
    lemma_slot_text_lines(fs);
    let c = mt_text(fs);
    assert(c == lines_from(fs) + seq!['-']);
    assert(c.last() == '-');
    assert(trim_end(c) == c);
    if fs.len() == 0 {
        assert(lines_from(fs) == Seq::<char>::empty());
        assert(c =~= seq!['-']);
        assert(without_terminator(c) == Seq::<char>::empty());
        assert(trim_start(Seq::<char>::empty()) == Seq::<char>::empty());
        assert(trim_end(Seq::<char>::empty()) == Seq::<char>::empty());
    } else {
        lemma_lines_body(fs);
        lemma_body_ends(fs);
        let b = body_text(fs);
        assert(c =~= b + seq!['\r', '\n', '-']);
        assert(c != seq!['-']);
        assert(c.subrange(c.len() - 2, c.len() as int) =~= seq!['\n', '-']);
        assert(ends_with(c, seq!['\n', '-']));
        let t = c.take(c.len() - 1);
        assert(without_terminator(c) == t);
        assert(t =~= b + seq!['\r', '\n']);
        assert(t[0] == ':');
        assert(trim_start(t) == t);
        assert(t.drop_last() =~= b + seq!['\r']);
        assert((b + seq!['\r']).drop_last() =~= b);
        assert(trim_end(t) == trim_end(b + seq!['\r']));
        assert(trim_end(b + seq!['\r']) == trim_end(b));
        assert(trim_end(b) == b);
    }
}

/// A character other than `:` at `k` is passed over by the field splitter.
proof fn lemma_skip_non_colon(c: Seq<char>, k: int)
    requires
        0 <= k < c.len(),
        c[k] != ':',
    ensures
        fields_from(c, k) == fields_from(c, k + 1),
{
    assert(c.subrange(k, k + 1) != colon()) by {
        assert(c.subrange(k, k + 1)[0] == c[k]);
    }
    assert(find_from(c, colon(), k) == find_from(c, colon(), k + 1));
    if k + 1 >= c.len() {
        assert(find_from(c, colon(), k + 1) is None);
    }
}

/// The value of a field runs to the next line that starts with `:`.
proof fn lemma_no_line_colon_in_value(c: Seq<char>, vs: int, v: Seq<char>, j: int)
    requires
        0 <= vs,
        vs + v.len() <= c.len(),
        c.subrange(vs, vs + v.len()) == v,
        find_from(v, newline_colon(), 0) is None,
        vs <= j,
        j + 2 <= vs + v.len(),
    ensures
        !occurs_at(c, newline_colon(), j),
{
    lemma_find_from(v, newline_colon(), 0);
    assert(!occurs_at(v, newline_colon(), j - vs));
    assert(c.subrange(j, j + 2) =~= v.subrange(j - vs, j - vs + 2)) by {
        assert forall|x: int| 0 <= x < 2 implies #[trigger] c.subrange(j, j + 2)[x] == v.subrange(
            j - vs,
            j - vs + 2,
        )[x] by {
            assert(c[j + x] == c.subrange(vs, vs + v.len())[j + x - vs]);
        }
    }
}

/// The field splitter reads back the fields of a body text that stands at
/// `pos` to the end of `c`.
proof fn lemma_fields_from_body(c: Seq<char>, pos: int, fs: Seq<FieldView>)
    requires
        0 <= pos <= c.len(),
        c.skip(pos) == body_text(fs),
        writable_fields(fs),
    ensures
        fields_from(c, pos) == fs,
    decreases fs.len(),
{
    if fs.len() == 0 {
        assert(c.skip(pos).len() == 0);
        assert(fields_from(c, pos) =~= fs);
    } else {
        let f = fs[0];
        assert(writable_field(f));
        let tag = f.0;
        let v = f.1;
        let te = pos + 1 + tag.len();
        let vs = te + 1;
        let line = swift_text(f);
        assert(line =~= seq![':'] + tag + seq![':'] + v);
        assert(line.len() <= body_text(fs).len() && forall|k: int|
            0 <= k < line.len() ==> #[trigger] body_text(fs)[k] == line[k]) by {
            if fs.len() > 1 {
                assert(body_text(fs) =~= line + seq!['\r', '\n'] + body_text(fs.skip(1)));
            }
        }
        assert(c.skip(pos).len() == c.len() - pos);
        assert forall|k: int| 0 <= k < line.len() implies c[pos + k] == line[k] by {
            assert(c.skip(pos)[k] == c[pos + k]);
            assert(body_text(fs)[k] == line[k]);
        }
        // the opening colon
        assert(c[pos + 0] == line[0]);
        assert(c[pos] == ':');
        assert(c.subrange(pos, pos + 1) =~= colon());
        lemma_find_from_intro(c, colon(), pos, pos);
        // the colon that ends the tag
        assert(c[pos + (1 + tag.len())] == line[(1 + tag.len()) as int]);
        assert(c[te] == line[(1 + tag.len()) as int]);
        assert(c.subrange(te, te + 1) =~= colon());
        assert forall|j: int| pos + 1 <= j < te implies !occurs_at(c, colon(), j) by {
            assert(c[pos + (j - pos)] == line[j - pos]);
            assert(line[j - pos] == tag[j - pos - 1]);
            assert(c[j] == tag[j - pos - 1]);
            assert(c.subrange(j, j + 1)[0] == c[j]);
            if c[j] == ':' {
                assert(tag.contains(':'));
            }
        }
        lemma_find_from_intro(c, colon(), pos + 1, te);
        assert(c.subrange(pos + 1, te) =~= tag) by {
            assert forall|x: int| 0 <= x < tag.len() implies c.subrange(pos + 1, te)[x] == tag[x] by {
                assert(c[pos + (1 + x)] == line[1 + x]);
            }
        }
        assert(c.subrange(vs, vs + v.len()) =~= v) by {
            assert forall|x: int| 0 <= x < v.len() implies c.subrange(vs, vs + v.len())[x] == v[x] by {
                assert(c[pos + ((2 + tag.len()) + x)] == line[(2 + tag.len()) + x]);
                assert(c[vs + x] == line[(2 + tag.len()) + x]);
            }
        }
        assert forall|j: int| vs <= j && j + 2 <= vs + v.len() implies !occurs_at(
            c,
            newline_colon(),
            j,
        ) by {
            lemma_no_line_colon_in_value(c, vs, v, j);
        }
        if fs.len() == 1 {
            assert(c.len() == vs + v.len());
            assert forall|j: int| vs <= j implies !occurs_at(c, newline_colon(), j) by {
                if j + 2 <= vs + v.len() {
                } else {
                }
            }
            lemma_find_from_none(c, newline_colon(), vs);
            assert(value_end(c, vs) == c.len());
            assert(c.subrange(vs, c.len() as int) == v);
            crate::block4::lemma_fields_from_step(c, pos);
            assert(fields_from(c, c.len() as int) == Seq::<(Seq<char>, Seq<char>)>::empty());
            assert(fs =~= seq![(tag, v)]);
            assert(fields_from(c, pos) =~= fs);
        } else {
            let rest = fs.skip(1);
            assert(body_text(fs) =~= line + seq!['\r', '\n'] + body_text(rest));
            let k = vs + v.len() + 1;
            lemma_body_ends(rest);
            assert(c[k - 1] == '\r') by {
                assert(c.skip(pos)[k - 1 - pos] == c[k - 1]);
            }
            assert(c[k] == '\n') by {
                assert(c.skip(pos)[k - pos] == c[k]);
            }
            assert(c[k + 1] == ':') by {
                assert(c.skip(pos)[k + 1 - pos] == c[k + 1]);
                assert(body_text(rest)[0] == ':');
            }
            assert(c.subrange(k, k + 2) =~= newline_colon());
            assert forall|j: int| vs <= j < k implies !occurs_at(c, newline_colon(), j) by {
                if j + 2 <= vs + v.len() {
                } else if j == k - 1 {
                    assert(c.subrange(j, j + 2)[0] == '\r');
                } else {
                    assert(j == k - 2);
                    assert(c.subrange(j, j + 2)[1] == '\r');
                }
            }
            lemma_find_from_intro(c, newline_colon(), vs, k);
            assert(value_end(c, vs) == k);
            assert(c.subrange(vs, k) =~= v + seq!['\r']);
            lemma_trim_cr(v);
            crate::block4::lemma_fields_from_step(c, pos);
            lemma_skip_non_colon(c, k);
            assert(c.skip(k + 1) =~= c.skip(pos).skip(k + 1 - pos));
            assert(k + 1 - pos == line.len() + 2);
            assert(c.skip(pos).skip(k + 1 - pos) =~= body_text(rest));
            assert(c.skip(k + 1) =~= body_text(rest));
            assert forall|i: int| 0 <= i < rest.len() implies writable_field(#[trigger] rest[i]) by {
                assert(rest[i] == fs[i + 1]);
            }
            lemma_fields_from_body(c, k + 1, rest);
            assert(fs =~= seq![(tag, v)] + rest);
            assert(fields_from(c, pos) =~= fs);
        }
    }
}

/// Reading back what was written: the fields of a message body written in
/// SWIFT form are split back into the same fields, in the same order,
/// wherever each tag holds no `:` and each value has no white space at
/// its ends and no line that starts with `:`.
pub proof fn lemma_block4_round_trip(fs: Seq<FieldView>)
    requires
        writable_fields(fs),
    ensures
        block4_fields(trim(without_terminator(mt_text(fs)))) == fs,
        raw_field_map(mt_text(fs)) == map_from_pairs(positioned_pairs(fs)),
{
    lemma_read_text(fs);
    let c = body_text(fs);
    assert(c.skip(0) =~= c);
    lemma_fields_from_body(c, 0, fs);
}

// ---------------------------------------------------------------------------
// Whole messages: a layout of plain rules takes back the fields written
// ---------------------------------------------------------------------------

/// The fields of the slots, slot after slot.
pub open spec fn flat(s: Seq<Seq<FieldView>>) -> Seq<FieldView>
    decreases s.len(),
{
    if s.len() == 0 {
        Seq::empty()
    } else {
        flat(s.drop_last()) + s.last()
    }
}

/// The positioned values of the fields tagged `t`, in order.
pub open spec fn values_tagged(fs: Seq<FieldView>, t: Seq<char>) -> Seq<PosValue>
    decreases fs.len(),
{
    if fs.len() == 0 {
        Seq::empty()
    } else {
        let rest = values_tagged(fs.drop_last(), t);
        if fs.last().0 == t {
            rest.push((fs.last().1, (fs.len() - 1) as usize))
        } else {
            rest
        }
    }
}

/// Some field is tagged `t`.
pub open spec fn has_tag(fs: Seq<FieldView>, t: Seq<char>) -> bool {
    exists|k: int| 0 <= k < fs.len() && #[trigger] fs[k].0 == t
}

/// The map of positioned fields holds, under each tag that some field
/// carries, the values of the fields with that tag, in order; and no other
/// tag.
pub(crate) proof fn lemma_map_groups(fs: Seq<FieldView>)
    ensures
        crate::field_map::distinct_tags(map_from_pairs(positioned_pairs(fs))),
        forall|g: int|
            0 <= g < map_from_pairs(positioned_pairs(fs)).len() ==> has_tag(
                fs,
                (#[trigger] map_from_pairs(positioned_pairs(fs))[g]).0,
            ) && map_from_pairs(positioned_pairs(fs))[g].1 == values_tagged(
                fs,
                map_from_pairs(positioned_pairs(fs))[g].0,
            ),
        forall|t: Seq<char>|
            #[trigger] map_get(map_from_pairs(positioned_pairs(fs)), t) == if has_tag(fs, t) {
                Some(values_tagged(fs, t))
            } else {
                None
            },
    decreases fs.len(),
{
    let m1 = map_from_pairs(positioned_pairs(fs));
    crate::field_map::lemma_map_from_pairs_distinct(positioned_pairs(fs));
    if fs.len() == 0 {
        assert(m1 == Seq::<TagGroup>::empty());
        assert forall|t: Seq<char>| #[trigger] map_get(m1, t) == if has_tag(fs, t) {
            Some(values_tagged(fs, t))
        } else {
            None
        } by {}
    } else {
        let p = fs.drop_last();
        lemma_map_groups(p);
        let pairs = positioned_pairs(fs);
        assert(pairs.drop_last() =~= positioned_pairs(p));
        let m0 = map_from_pairs(positioned_pairs(p));
        let n = fs.len() - 1;
        let last = fs[n];
        let v = (last.1, n as usize);
        assert(pairs.last() == (last.0, v));
        assert(m1 == crate::field_map::map_insert(m0, last.0, v));
        crate::field_map::lemma_group_index(m0, last.0);
        assert forall|t: Seq<char>| has_tag(fs, t) <==> (has_tag(p, t) || t == last.0) by {
            if has_tag(fs, t) {
                let k = choose|k: int| 0 <= k < fs.len() && #[trigger] fs[k].0 == t;
                if k < n {
                    assert(p[k] == fs[k]);
                }
            }
            if has_tag(p, t) {
                let k = choose|k: int| 0 <= k < p.len() && #[trigger] p[k].0 == t;
                assert(p[k] == fs[k]);
            }
            if t == last.0 {
                assert(fs[n].0 == t);
            }
        }
        assert forall|t: Seq<char>| #[trigger] values_tagged(fs, t) == if t == last.0 {
            values_tagged(p, t).push(v)
        } else {
            values_tagged(p, t)
        } by {}
        match crate::field_map::group_index(m0, last.0) {
            Some(i) => {
                assert(m1 == m0.update(i, (last.0, m0[i].1.push(v))));
                assert(map_get(m0, last.0) == Some(m0[i].1));
                assert forall|g: int| 0 <= g < m1.len() implies has_tag(fs, (#[trigger] m1[g]).0)
                    && m1[g].1 == values_tagged(fs, m1[g].0) by {
                    if g != i {
                        assert(m1[g] == m0[g]);
                        assert(m0[g].0 != m0[i].0);
                    }
                }
                assert forall|t: Seq<char>| #[trigger] map_get(m1, t) == if has_tag(fs, t) {
                    Some(values_tagged(fs, t))
                } else {
                    None
                } by {
                    crate::field_map::lemma_group_index(m0, t);
                    crate::field_map::lemma_group_index(m1, t);
                    assert(map_get(m0, t) == if has_tag(p, t) {
                        Some(values_tagged(p, t))
                    } else {
                        None
                    });
                    if t == last.0 {
                        crate::field_map::lemma_group_index_unique(m1, t, i);
                    } else {
                        match crate::field_map::group_index(m0, t) {
                            Some(j) => {
                                assert(j != i);
                                crate::field_map::lemma_group_index_unique(m1, t, j);
                            },
                            None => {
                                if crate::field_map::group_index(m1, t) is Some {
                                    let j = crate::field_map::group_index(m1, t)->0;
                                    if j != i {
                                        assert(m1[j] == m0[j]);
                                    }
                                }
                            },
                        }
                    }
                }
            },
            None => {
                assert(m1 == m0.push((last.0, seq![v])));
                assert(!has_tag(p, last.0)) by {
                    if has_tag(p, last.0) {
                        assert(map_get(m0, last.0) is Some);
                    }
                }
                assert(values_tagged(p, last.0) == Seq::<PosValue>::empty()) by {
                    lemma_values_tagged_none(p, last.0);
                }
                assert forall|g: int| 0 <= g < m1.len() implies has_tag(fs, (#[trigger] m1[g]).0)
                    && m1[g].1 == values_tagged(fs, m1[g].0) by {
                    if g < m0.len() {
                        assert(m1[g] == m0[g]);
                        assert(m0[g].0 != last.0);
                    } else {
                        assert(values_tagged(fs, last.0) =~= seq![v]);
                    }
                }
                assert forall|t: Seq<char>| #[trigger] map_get(m1, t) == if has_tag(fs, t) {
                    Some(values_tagged(fs, t))
                } else {
                    None
                } by {
                    crate::field_map::lemma_group_index(m0, t);
                    crate::field_map::lemma_group_index(m1, t);
                    assert(map_get(m0, t) == if has_tag(p, t) {
                        Some(values_tagged(p, t))
                    } else {
                        None
                    });
                    if t == last.0 {
                        crate::field_map::lemma_group_index_unique(m1, t, m0.len() as int);
                        assert(values_tagged(fs, t) =~= seq![v]);
                    } else {
                        match crate::field_map::group_index(m0, t) {
                            Some(j) => {
                                crate::field_map::lemma_group_index_unique(m1, t, j);
                            },
                            None => {
                                if crate::field_map::group_index(m1, t) is Some {
                                    let j = crate::field_map::group_index(m1, t)->0;
                                    if j < m0.len() {
                                        assert(m1[j] == m0[j]);
                                    }
                                }
                            },
                        }
                    }
                }
            },
        }
    }
}

/// No field tagged `t`: no values under it.
pub(crate) proof fn lemma_values_tagged_none(fs: Seq<FieldView>, t: Seq<char>)
    requires
        !has_tag(fs, t),
    ensures
        values_tagged(fs, t) == Seq::<PosValue>::empty(),
    decreases fs.len(),
{
    if fs.len() > 0 {
        let p = fs.drop_last();
        assert(!has_tag(p, t)) by {
            if has_tag(p, t) {
                let k = choose|k: int| 0 <= k < p.len() && #[trigger] p[k].0 == t;
                assert(fs[k] == p[k]);
            }
        }
        lemma_values_tagged_none(p, t);
        assert(fs[fs.len() - 1].0 != t);
    }
}

/// The fields tagged `t` are those at positions `lo` up to `hi`: their
/// values, with their positions.
proof fn lemma_values_tagged_range(fs: Seq<FieldView>, t: Seq<char>, lo: int, hi: int)
    requires
        0 <= lo <= hi <= fs.len(),
        forall|k: int| 0 <= k < fs.len() ==> (#[trigger] fs[k].0 == t <==> lo <= k < hi),
    ensures
        values_tagged(fs, t) == Seq::new((hi - lo) as nat, |q: int| (fs[lo + q].1, (lo + q) as usize)),
    decreases fs.len(),
{
    if lo == hi {
        assert(!has_tag(fs, t));
        lemma_values_tagged_none(fs, t);
        assert(values_tagged(fs, t) =~= Seq::new((hi - lo) as nat, |q: int| (fs[lo + q].1, (lo + q) as usize)));
    } else {
        let p = fs.drop_last();
        let n = fs.len() - 1;
        if hi < fs.len() {
            assert forall|k: int| 0 <= k < p.len() implies (#[trigger] p[k].0 == t <==> lo <= k < hi) by {
                assert(p[k] == fs[k]);
            }
            lemma_values_tagged_range(p, t, lo, hi);
            assert(fs[n].0 != t);
            assert(values_tagged(fs, t) =~= Seq::new((hi - lo) as nat, |q: int| (fs[lo + q].1, (lo + q) as usize))) by {
                assert forall|q: int| 0 <= q < hi - lo implies #[trigger] p[lo + q] == fs[lo + q] by {}
            }
        } else {
            assert forall|k: int| 0 <= k < p.len() implies (#[trigger] p[k].0 == t <==> lo <= k < hi - 1) by {
                assert(p[k] == fs[k]);
            }
            lemma_values_tagged_range(p, t, lo, hi - 1);
            assert(fs[n].0 == t);
            assert(values_tagged(fs, t) =~= Seq::new((hi - lo) as nat, |q: int| (fs[lo + q].1, (lo + q) as usize))) by {
                assert forall|q: int| 0 <= q < hi - 1 - lo implies #[trigger] p[lo + q] == fs[lo + q] by {}
            }
        }
    }
}

/// Where the fields of slot `j` start among the fields of all slots.
pub open spec fn slot_start(s: Seq<Seq<FieldView>>, j: int) -> int {
    flat(s.take(j)).len() as int
}

/// The fields of slot `j` stand, in order, from its start on.
pub(crate) proof fn lemma_slot_fields(s: Seq<Seq<FieldView>>, j: int)
    requires
        0 <= j < s.len(),
    ensures
        flat(s.take(j + 1)) == flat(s.take(j)) + s[j],
        slot_start(s, j + 1) == slot_start(s, j) + s[j].len(),
        slot_start(s, j + 1) <= flat(s).len(),
        forall|q: int| 0 <= q < s[j].len() ==> flat(s)[slot_start(s, j) + q] == #[trigger] s[j][q],
{
    assert(s.take(j + 1).drop_last() =~= s.take(j));
    assert(s.take(j + 1).last() == s[j]);
    lemma_flat_split(s, j + 1);
    assert forall|q: int| 0 <= q < s[j].len() implies flat(s)[slot_start(s, j) + q] == #[trigger] s[j][q] by {
        assert(flat(s.take(j + 1))[slot_start(s, j) + q] == s[j][q]);
    }
}

/// Slots further on start further on.
pub(crate) proof fn lemma_start_mono(s: Seq<Seq<FieldView>>, j1: int, j2: int)
    requires
        0 <= j1 <= j2 <= s.len(),
    ensures
        slot_start(s, j1) <= slot_start(s, j2),
    decreases j2 - j1,
{
    if j1 < j2 {
        lemma_start_mono(s, j1, j2 - 1);
        lemma_slot_fields(s, j2 - 1);
    }
}

/// Each field of the slots belongs to one slot.
pub(crate) proof fn lemma_slot_of(s: Seq<Seq<FieldView>>, k: int) -> (j: int)
    requires
        0 <= k < flat(s).len(),
    ensures
        0 <= j < s.len(),
        slot_start(s, j) <= k < slot_start(s, j + 1),
    decreases s.len(),
{
    let p = s.drop_last();
    let n = s.len() - 1;
    assert(s.take(n) =~= p);
    assert(s.take(n + 1) =~= s);
    if k < flat(p).len() {
        let j = lemma_slot_of(p, k);
        assert(p.take(j) =~= s.take(j));
        assert(p.take(j + 1) =~= s.take(j + 1));
        j
    } else {
        n
    }
}

/// The fields of the slots are those of the first `i` slots followed by
/// those of the rest.
pub(crate) proof fn lemma_flat_split(s: Seq<Seq<FieldView>>, i: int)
    requires
        0 <= i <= s.len(),
    ensures
        flat(s) == flat(s.take(i)) + flat(s.skip(i)),
    decreases s.len(),
{
    if i == s.len() {
        assert(s.take(i) =~= s);
        assert(s.skip(i) =~= Seq::<Seq<FieldView>>::empty());
        assert(flat(s.skip(i)) == Seq::<FieldView>::empty());
        assert(flat(s) + Seq::<FieldView>::empty() =~= flat(s));
    } else {
        lemma_flat_split(s.drop_last(), i);
        assert(s.drop_last().take(i) =~= s.take(i));
        assert(s.skip(i).drop_last() =~= s.drop_last().skip(i));
        assert(s.skip(i).last() == s.last());
        assert(flat(s) =~= flat(s.take(i)) + flat(s.skip(i)));
    }
}

/// The tag of a plain rule.
pub open spec fn rule_tag(r: RuleView) -> Seq<char> {
    match r {
        RuleView::Mandatory(t) => t,
        RuleView::Optional(t) => t,
        RuleView::Repeated(t) => t,
        RuleView::MandatoryOption(t, _) => t,
        RuleView::OptionalOption(t, _) => t,
    }
}

/// Rules that each take a field by its exact tag, at most once, with no
/// two rules for one tag.
pub open spec fn plain_rules(rules: Seq<RuleView>) -> bool {
    &&& forall|i: int| 0 <= i < rules.len() ==> (#[trigger] rules[i] is Mandatory || rules[i] is Optional)
    &&& forall|i: int, j: int|
        0 <= i < rules.len() && 0 <= j < rules.len() && i != j ==> rule_tag(rules[i]) != rule_tag(rules[j])
}

/// Slots that fit their rules and whose fields carry their rules' tags.
pub open spec fn tagged_slots(rules: Seq<RuleView>, s: Seq<Seq<FieldView>>) -> bool {
    &&& crate::message_parser::slots_fit(rules, s)
    &&& forall|i: int, k: int|
        0 <= i < s.len() && 0 <= k < s[i].len() ==> (#[trigger] s[i][k]).0 == rule_tag(rules[i])
}

/// The values taken: each field of the first `n` with its position.
pub open spec fn taken_set(fs: Seq<FieldView>, n: int) -> Set<crate::parser::consumption::Consumed> {
    Set::new(
        |p: crate::parser::consumption::Consumed|
            exists|k: int| 0 <= k < n && p == (#[trigger] fs[k].0, k as usize),
    )
}

// ---------------------------------------------------------------------------
// Layouts with rules by field number
// ---------------------------------------------------------------------------

/// A tag that a rule by field number `base` reads back with the option
/// letters `o`: the number itself where no letter is allowed, or the number
/// followed by an allowed letter.
pub open spec fn option_tag(base: Seq<char>, o: Seq<Seq<char>>, t: Seq<char>) -> bool {
    ||| t == base && o.contains(Seq::<char>::empty())
    ||| is_variant_tag(base, t) && o.contains(variant_of(t))
}

/// The rule reads a field with tag `t` back under that same tag.
pub open spec fn accepted_tag(r: RuleView, t: Seq<char>) -> bool {
    match r {
        RuleView::Mandatory(b) => t == b,
        RuleView::Optional(b) => t == b,
        RuleView::MandatoryOption(b, o) => option_tag(b, o, t),
        RuleView::OptionalOption(b, o) => option_tag(b, o, t),
        RuleView::Repeated(b) => t == b,
    }
}

/// The rule would look at a field with tag `t`: its own tag, or for a rule
/// by field number, the number or the number with any option letter.
pub open spec fn in_family(r: RuleView, t: Seq<char>) -> bool {
    match r {
        RuleView::MandatoryOption(b, _) => t == b || is_variant_tag(b, t),
        RuleView::OptionalOption(b, _) => t == b || is_variant_tag(b, t),
        _ => t == rule_tag(r),
    }
}

/// Slots that fit their rules, whose fields each carry a tag that their own
/// rule reads back and that no other rule would look at.
pub open spec fn fitted_slots(rules: Seq<RuleView>, s: Seq<Seq<FieldView>>) -> bool {
    &&& crate::message_parser::slots_fit(rules, s)
    &&& forall|i: int, k: int|
        0 <= i < s.len() && 0 <= k < s[i].len() ==> accepted_tag(rules[i], (#[trigger] s[i][k]).0)
    &&& forall|i: int, k: int, j: int|
        0 <= i < s.len() && 0 <= k < s[i].len() && 0 <= j < rules.len() && j != i ==> !in_family(
            #[trigger] rules[j],
            (#[trigger] s[i][k]).0,
        )
}

/// A rule by field number whose one field in the message is the one at
/// position `n` takes that field, under its own tag.
proof fn lemma_option_hit(
    fs: Seq<FieldView>,
    c1: Set<Consumed>,
    b: Seq<char>,
    o: Seq<Seq<char>>,
    n: int,
)
    requires
        0 <= n < fs.len(),
        option_tag(b, o, fs[n].0),
        forall|k: int|
            0 <= k < fs.len() && (#[trigger] fs[k].0 == b || is_variant_tag(b, fs[k].0)) ==> k == n,
        !c1.contains((fs[n].0, n as usize)),
    ensures
        ({
            let m = map_from_pairs(positioned_pairs(fs));
            let c2 = c1.insert((fs[n].0, n as usize));
            &&& step(m, c1, false, RuleView::MandatoryOption(b, o)) == Ok::<(Seq<FieldView>, Set<Consumed>), ErrView>((seq![fs[n]], c2))
            &&& step(m, c1, false, RuleView::OptionalOption(b, o)) == Ok::<(Seq<FieldView>, Set<Consumed>), ErrView>((seq![fs[n]], c2))
        }),
{
    let m = map_from_pairs(positioned_pairs(fs));
    let f = fs[n];
    let c2 = c1.insert((f.0, n as usize));
    lemma_map_groups(fs);
    assert forall|k: int| 0 <= k < fs.len() implies (#[trigger] fs[k].0 == f.0 <==> n <= k < n + 1) by {}
    lemma_values_tagged_range(fs, f.0, n, n + 1);
    let vals = seq![(f.1, n as usize)];
    assert(values_tagged(fs, f.0) =~= vals);
    assert(has_tag(fs, f.0));
    assert(map_get(m, f.0) == Some(vals));
    assert(vals.drop_last() =~= Seq::<PosValue>::empty());
    assert(first_available(c1, f.0, vals.drop_last()) is None);
    assert(first_available(c1, f.0, vals) == Some(0int));
    if f.0 == b {
        assert(exact_hit(m, c1, b) == Some((f.1, n as usize)));
        let x = (f.1, None::<Seq<char>>, n as usize);
        assert(lookup_spec(m, c1, b, Some(o), Some(x), c2));
        crate::message_parser::lemma_lookup_result(m, c1, b, o, Some(x), c2);
        assert(!is_variant_tag(b, f.0));
        assert(o.contains(Seq::<char>::empty()));
        assert(seq![(b, f.1)] == seq![f]);
    } else {
        assert(is_variant_tag(b, f.0));
        assert(!has_tag(fs, b));
        assert(exact_hit(m, c1, b) is None);
        crate::field_map::lemma_group_index(m, f.0);
        let g0 = crate::field_map::group_index(m, f.0)->0;
        assert(m[g0].1 == vals);
        let order = lookup_order(m, c1, b, Some(o));
        crate::parser::consumption::lemma_order_contains(m, c1, b, Some(o), g0);
        assert forall|k2: int| 0 <= k2 < order.len() implies #[trigger] order[k2] == g0 by {
            crate::parser::consumption::lemma_order_variant(m, c1, b, Some(o), k2);
            let g = order[k2];
            assert(has_tag(fs, m[g].0));
            let k = choose|k: int| 0 <= k < fs.len() && #[trigger] fs[k].0 == m[g].0;
            assert(k == n);
            crate::field_map::lemma_group_index_unique(m, f.0, g);
        }
        assert(order.len() > 0);
        assert(order[0] == g0);
        assert(eligible(m, c1, Some(o), g0));
        assert(chosen_at(m, c1, Some(o), order, 0));
        let x = (f.1, Some(variant_of(f.0)), n as usize);
        assert(lookup_spec(m, c1, b, Some(o), Some(x), c2)) by {
            assert(m[order[0]].1[0] == (f.1, n as usize));
        }
        crate::message_parser::lemma_lookup_result(m, c1, b, o, Some(x), c2);
        assert(b + variant_of(f.0) =~= f.0);
    }
}

/// A rule by field number with no field in the message takes nothing.
proof fn lemma_option_miss(fs: Seq<FieldView>, c1: Set<Consumed>, b: Seq<char>, o: Seq<Seq<char>>)
    requires
        forall|k: int| 0 <= k < fs.len() ==> !(#[trigger] fs[k].0 == b || is_variant_tag(b, fs[k].0)),
    ensures
        step(map_from_pairs(positioned_pairs(fs)), c1, false, RuleView::OptionalOption(b, o))
            == Ok::<(Seq<FieldView>, Set<Consumed>), ErrView>((Seq::<FieldView>::empty(), c1)),
{
    let m = map_from_pairs(positioned_pairs(fs));
    lemma_map_groups(fs);
    assert(!has_tag(fs, b));
    assert(exact_hit(m, c1, b) is None);
    let order = lookup_order(m, c1, b, Some(o));
    assert forall|k2: int| 0 <= k2 < order.len() implies !eligible(m, c1, Some(o), #[trigger] order[k2]) by {
        crate::parser::consumption::lemma_order_variant(m, c1, b, Some(o), k2);
        let g = order[k2];
        assert(has_tag(fs, m[g].0));
        let k = choose|k: int| 0 <= k < fs.len() && #[trigger] fs[k].0 == m[g].0;
    }
    assert(lookup_spec(m, c1, b, Some(o), None, c1));
    crate::message_parser::lemma_lookup_result(m, c1, b, o, None, c1);
}

/// Taking every value under `t`, none of them taken yet: all their values
/// in order, and each marked taken.
proof fn lemma_take_all_fresh(c: Set<Consumed>, t: Seq<char>, vals: Seq<PosValue>, lo: int)
    requires
        0 <= lo,
        forall|q: int| 0 <= q < vals.len() ==> (#[trigger] vals[q]).1 == lo + q,
        forall|p: usize| #[trigger] c.contains((t, p)) ==> p < lo,
    ensures
        crate::message_parser::take_all(c, t, vals).0 == Seq::new(vals.len(), |q: int| vals[q].0),
        crate::message_parser::take_all(c, t, vals).1 == c.union(
            Set::new(|x: Consumed| exists|q: int| 0 <= q < vals.len() && x == (t, (#[trigger] vals[q]).1)),
        ),
    decreases vals.len(),
{
    let all = Set::new(|x: Consumed| exists|q: int| 0 <= q < vals.len() && x == (t, (#[trigger] vals[q]).1));
    if vals.len() == 0 {
        assert(all =~= Set::<Consumed>::empty());
        assert(c.union(all) =~= c);
        assert(Seq::new(vals.len(), |q: int| vals[q].0) =~= Seq::<Seq<char>>::empty());
    } else {
        let p = vals.drop_last();
        assert forall|q: int| 0 <= q < p.len() implies (#[trigger] p[q]).1 == lo + q by {
            assert(p[q] == vals[q]);
        }
        lemma_take_all_fresh(c, t, p, lo);
        let (got, c1) = crate::message_parser::take_all(c, t, p);
        let pre = Set::new(|x: Consumed| exists|q: int| 0 <= q < p.len() && x == (t, (#[trigger] p[q]).1));
        let l = vals.len() - 1;
        assert(vals[l].1 == lo + l);
        assert(!c1.contains((t, vals[l].1))) by {
            if pre.contains((t, vals[l].1)) {
                let q = choose|q: int| 0 <= q < p.len() && (t, vals[l].1) == (t, (#[trigger] p[q]).1);
                assert(p[q] == vals[q]);
            }
        }
        assert(got.push(vals[l].0) =~= Seq::new(vals.len(), |q: int| vals[q].0)) by {
            assert forall|q: int| 0 <= q < p.len() implies #[trigger] got[q] == vals[q].0 by {
                assert(p[q] == vals[q]);
            }
        }
        assert(c1.insert((t, vals[l].1)) =~= c.union(all)) by {
            assert forall|x: Consumed| #[trigger] all.contains(x) implies c1.insert((t, vals[l].1)).contains(x) by {
                let q = choose|q: int| 0 <= q < vals.len() && x == (t, (#[trigger] vals[q]).1);
                if q < l {
                    assert(p[q] == vals[q]);
                    assert(pre.contains(x));
                }
            }
            assert forall|x: Consumed| #[trigger] pre.contains(x) implies all.contains(x) by {
                let q = choose|q: int| 0 <= q < p.len() && x == (t, (#[trigger] p[q]).1);
                assert(p[q] == vals[q]);
            }
        }
    }
}

/// A value under `t` in the map of positioned fields: a field with that
/// tag, at the value's position.
pub(crate) proof fn lemma_values_tagged_member(fs: Seq<FieldView>, t: Seq<char>, v: int)
    requires
        0 <= v < values_tagged(fs, t).len(),
        fs.len() <= usize::MAX,
    ensures
        0 <= values_tagged(fs, t)[v].1 < fs.len(),
        fs[values_tagged(fs, t)[v].1 as int].0 == t,
    decreases fs.len(),
{
    let p = fs.drop_last();
    if v < values_tagged(p, t).len() {
        lemma_values_tagged_member(p, t, v);
        assert(values_tagged(fs, t)[v] == values_tagged(p, t)[v]);
        assert(p[values_tagged(p, t)[v].1 as int] == fs[values_tagged(p, t)[v].1 as int]);
    }
}



/// A rule by tag whose one field in the message is the one at position `n`
/// finds that field free.
proof fn lemma_plain_hit(fs: Seq<FieldView>, c1: Set<Consumed>, t: Seq<char>, n: int)
    requires
        0 <= n < fs.len(),
        fs[n].0 == t,
        forall|k: int| 0 <= k < fs.len() && #[trigger] fs[k].0 == t ==> k == n,
        !c1.contains((t, n as usize)),
    ensures
        exact_hit(map_from_pairs(positioned_pairs(fs)), c1, t) == Some((fs[n].1, n as usize)),
{
    let m = map_from_pairs(positioned_pairs(fs));
    lemma_map_groups(fs);
    assert forall|k: int| 0 <= k < fs.len() implies (#[trigger] fs[k].0 == t <==> n <= k < n + 1) by {}
    lemma_values_tagged_range(fs, t, n, n + 1);
    let vals = seq![(fs[n].1, n as usize)];
    assert(values_tagged(fs, t) =~= vals);
    assert(has_tag(fs, t));
    assert(map_get(m, t) == Some(vals));
    assert(vals.drop_last() =~= Seq::<PosValue>::empty());
    assert(first_available(c1, t, vals.drop_last()) is None);
    assert(first_available(c1, t, vals) == Some(0int));
}

/// Taking the field at position `n` after those before it: the values taken
/// are those of the first `n + 1` fields.
pub(crate) proof fn lemma_taken_one_more(fs: Seq<FieldView>, n: int)
    requires
        0 <= n < fs.len(),
    ensures
        taken_set(fs, n).insert((fs[n].0, n as usize)) == taken_set(fs, n + 1),
{
    let c1 = taken_set(fs, n);
    assert(c1.insert((fs[n].0, n as usize)) =~= taken_set(fs, n + 1)) by {
        assert forall|p: Consumed| #[trigger] taken_set(fs, n + 1).contains(p) implies c1.insert((fs[n].0, n as usize)).contains(p) by {
            let k = choose|k: int| 0 <= k < n + 1 && p == (#[trigger] fs[k].0, k as usize);
            if k < n {
                assert(c1.contains(p));
            }
        }
    }
}

// ---------------------------------------------------------------------------
// Messages that write their slots in another order than their rules take them
// ---------------------------------------------------------------------------

/// `w` lists each slot index below `n` once, and `v` gives the place of each
/// slot in that list.
pub open spec fn is_order(w: Seq<int>, v: Seq<int>, n: int) -> bool {
    &&& w.len() == n
    &&& v.len() == n
    &&& forall|q: int| 0 <= q < n ==> 0 <= #[trigger] w[q] < n && v[w[q]] == q
    &&& forall|j: int| 0 <= j < n ==> 0 <= #[trigger] v[j] < n && w[v[j]] == j
}

/// The slots in the order in which the message writes them.
pub open spec fn written(s: Seq<Seq<FieldView>>, w: Seq<int>) -> Seq<Seq<FieldView>> {
    Seq::new(s.len(), |q: int| s[w[q]])
}

/// The values that the rules before `i` take: each field of a slot that
/// they take, with its position among the written fields.
pub open spec fn taken_upto(s: Seq<Seq<FieldView>>, w: Seq<int>, i: int) -> Set<Consumed> {
    let ws = written(s, w);
    Set::new(
        |p: Consumed|
            exists|k: int, q: int|
                #![trigger w[q], flat(ws)[k]]
                0 <= q < s.len() && w[q] < i && slot_start(ws, q) <= k < slot_start(ws, q + 1) && p == (
                    flat(ws)[k].0,
                    k as usize,
                ),
    )
}

/// Where slot `j` stands among the written fields.
proof fn lemma_place(s: Seq<Seq<FieldView>>, w: Seq<int>, v: Seq<int>, j: int)
    requires
        is_order(w, v, s.len() as int),
        0 <= j < s.len(),
    ensures
        written(s, w)[v[j]] == s[j],
        slot_start(written(s, w), v[j] + 1) == slot_start(written(s, w), v[j]) + s[j].len(),
        slot_start(written(s, w), v[j] + 1) <= flat(written(s, w)).len(),
        forall|q: int| 0 <= q < s[j].len() ==> flat(written(s, w))[slot_start(written(s, w), v[j]) + q] == #[trigger] s[j][q],
{
    let ws = written(s, w);
    lemma_slot_fields(ws, v[j]);
}

/// Two written slots whose ranges both hold position `k` are the same.
proof fn lemma_same_slot(ws: Seq<Seq<FieldView>>, q1: int, q2: int, k: int)
    requires
        0 <= q1 < ws.len(),
        0 <= q2 < ws.len(),
        slot_start(ws, q1) <= k < slot_start(ws, q1 + 1),
        slot_start(ws, q2) <= k < slot_start(ws, q2 + 1),
    ensures
        q1 == q2,
{
    if q1 < q2 {
        lemma_start_mono(ws, q1 + 1, q2);
    } else if q2 < q1 {
        lemma_start_mono(ws, q2 + 1, q1);
    }
}

/// A field that rule `j` would look at lies in the written place of slot `j`.
proof fn lemma_own_place(rules: Seq<RuleView>, s: Seq<Seq<FieldView>>, w: Seq<int>, v: Seq<int>, j: int, k: int)
    requires
        fitted_slots(rules, s),
        is_order(w, v, s.len() as int),
        0 <= j < rules.len(),
        0 <= k < flat(written(s, w)).len(),
        in_family(rules[j], flat(written(s, w))[k].0),
    ensures
        slot_start(written(s, w), v[j]) <= k < slot_start(written(s, w), v[j] + 1),
{
    let ws = written(s, w);
    let q = lemma_slot_of(ws, k);
    lemma_slot_fields(ws, q);
    let d = k - slot_start(ws, q);
    assert(flat(ws)[k] == ws[q][d]);
    assert(ws[q] == s[w[q]]);
    if w[q] != j {
        assert(!in_family(rules[j], s[w[q]][d].0));
    }
}

/// Taking slot `j` after the slots before it: the values of the rules up to
/// `j` are those before it and those of its place.
proof fn lemma_taken_step(s: Seq<Seq<FieldView>>, w: Seq<int>, v: Seq<int>, j: int)
    requires
        is_order(w, v, s.len() as int),
        0 <= j < s.len(),
        flat(written(s, w)).len() <= usize::MAX,
    ensures
        ({
            let ws = written(s, w);
            let fs = flat(ws);
            let n = slot_start(ws, v[j]);
            let e = slot_start(ws, v[j] + 1);
            &&& taken_upto(s, w, j + 1) == taken_upto(s, w, j).union(
                Set::new(|p: Consumed| exists|k: int| n <= k < e && p == (#[trigger] fs[k].0, k as usize)),
            )
            &&& forall|x: Seq<char>, k: int| n <= k < e ==> !#[trigger] taken_upto(s, w, j).contains((x, k as usize))
            &&& forall|x: Seq<char>, p: usize| #[trigger] taken_upto(s, w, j).contains((x, p)) ==> p < fs.len()
                && fs[p as int].0 == x && !(n <= p < e)
        }),
{
    let ws = written(s, w);
    let fs = flat(ws);
    let n = slot_start(ws, v[j]);
    let e = slot_start(ws, v[j] + 1);
    lemma_place(s, w, v, j);
    let a = taken_upto(s, w, j);
    let b = Set::new(|p: Consumed| exists|k: int| n <= k < e && p == (#[trigger] fs[k].0, k as usize));
    assert forall|x: Seq<char>, p: usize| #[trigger] a.contains((x, p)) implies p < fs.len() && fs[p as int].0 == x
        && !(n <= p < e) by {
        let (k, q) = choose|k: int, q: int|
            #![trigger w[q], fs[k]]
            0 <= q < s.len() && w[q] < j && slot_start(ws, q) <= k < slot_start(ws, q + 1) && (x, p) == (
                fs[k].0,
                k as usize,
            );
        lemma_slot_fields(ws, q);
        lemma_start_mono(ws, q + 1, s.len() as int);
        assert(s.take(s.len() as int) =~= s);
        assert(ws.take(ws.len() as int) =~= ws);
        assert(k == p);
        if n <= p < e {
            lemma_same_slot(ws, q, v[j], k);
        }
    }
    assert forall|x: Seq<char>, k: int| n <= k < e implies !#[trigger] a.contains((x, k as usize)) by {
        if a.contains((x, k as usize)) {
            assert(ws.take(ws.len() as int) =~= ws);
            lemma_start_mono(ws, v[j] + 1, ws.len() as int);
        }
    }
    assert(taken_upto(s, w, j + 1) =~= a.union(b)) by {
        assert forall|p: Consumed| #[trigger] taken_upto(s, w, j + 1).contains(p) implies a.union(b).contains(p) by {
            let (k, q) = choose|k: int, q: int|
                #![trigger w[q], fs[k]]
                0 <= q < s.len() && w[q] < j + 1 && slot_start(ws, q) <= k < slot_start(ws, q + 1) && p == (
                    fs[k].0,
                    k as usize,
                );
            if w[q] == j {
                assert(q == v[j]);
                assert(b.contains(p));
            } else {
                assert(a.contains(p));
            }
        }
        assert forall|p: Consumed| #[trigger] a.union(b).contains(p) implies taken_upto(s, w, j + 1).contains(p) by {
            if b.contains(p) {
                let k = choose|k: int| n <= k < e && p == (#[trigger] fs[k].0, k as usize);
                assert(w[v[j]] == j);
            } else {
                let (k, q) = choose|k: int, q: int|
                    #![trigger w[q], fs[k]]
                    0 <= q < s.len() && w[q] < j && slot_start(ws, q) <= k < slot_start(ws, q + 1) && p == (
                        fs[k].0,
                        k as usize,
                    );
            }
        }
    }
}

/// Rule `j` takes back the fields of its slot, after the rules before it.
#[verifier::rlimit(50)]
#[verifier::spinoff_prover]
proof fn lemma_step_written(rules: Seq<RuleView>, s: Seq<Seq<FieldView>>, w: Seq<int>, v: Seq<int>, j: int)
    requires
        fitted_slots(rules, s),
        is_order(w, v, s.len() as int),
        0 <= j < rules.len(),
        flat(written(s, w)).len() <= usize::MAX,
    ensures
        step(map_from_pairs(positioned_pairs(flat(written(s, w)))), taken_upto(s, w, j), false, rules[j])
            == Ok::<(Seq<FieldView>, Set<Consumed>), ErrView>((s[j], taken_upto(s, w, j + 1))),
{
    let ws = written(s, w);
    let fs = flat(ws);
    let m = map_from_pairs(positioned_pairs(fs));
    let r = rules[j];
    let n = slot_start(ws, v[j]);
    let e = slot_start(ws, v[j] + 1);
    lemma_place(s, w, v, j);
    lemma_taken_step(s, w, v, j);
    lemma_map_groups(fs);
    let c1 = taken_upto(s, w, j);
    let b = Set::new(|p: Consumed| exists|k: int| n <= k < e && p == (#[trigger] fs[k].0, k as usize));
    assert(crate::message_parser::slot_fits(r, s[j]));
    assert forall|k: int| 0 <= k < fs.len() && in_family(r, #[trigger] fs[k].0) implies n <= k < e by {
        lemma_own_place(rules, s, w, v, j, k);
    }
    assert forall|q: int| 0 <= q < e - n implies #[trigger] fs[n + q] == s[j][q] && accepted_tag(r, fs[n + q].0) by {
        assert(fs[n + q] == s[j][q]);
    }
    let t = rule_tag(r);
    // No value taken before is one that this rule looks at.
    assert forall|x: Seq<char>, p: usize| #[trigger] c1.contains((x, p)) implies !in_family(r, x) by {
        assert(fs[p as int].0 == x);
    }
    if e > n {
        assert(!c1.contains((fs[n].0, n as usize)));
    }
    if e > n && !(r is Repeated) {
        assert(e == n + 1);
        assert(b =~= set![(fs[n].0, n as usize)]) by {
            assert forall|p: Consumed| #[trigger] b.contains(p) implies p == (fs[n].0, n as usize) by {
                let k = choose|k: int| n <= k < e && p == (#[trigger] fs[k].0, k as usize);
            }
            assert(b.contains((fs[n].0, n as usize)));
        }
    } else if e == n {
        assert(b =~= Set::<Consumed>::empty());
    }
    match r {
        RuleView::Repeated(t) => {
            assert forall|k: int| 0 <= k < fs.len() implies (#[trigger] fs[k].0 == t <==> n <= k < e) by {
                if n <= k < e {
                    assert(fs[n + (k - n)] == s[j][k - n]);
                }
            }
            lemma_values_tagged_range(fs, t, n, e);
            let vals = Seq::new((e - n) as nat, |q: int| (fs[n + q].1, (n + q) as usize));
            assert(crate::message_parser::values_of(m, t) == vals) by {
                if e > n {
                    assert(has_tag(fs, t)) by {
                        assert(fs[n].0 == t);
                    }
                } else {
                    assert(!has_tag(fs, t));
                    assert(vals =~= Seq::<PosValue>::empty());
                }
            }
            assert forall|q: int| 0 <= q < vals.len() implies (#[trigger] vals[q]).1 == n + q by {}
            assert forall|p: usize| #[trigger] c1.contains((t, p)) implies p < n by {
                assert(!in_family(r, t));
            }
            lemma_take_all_fresh(c1, t, vals, n);
            let got = Seq::new(vals.len(), |q: int| vals[q].0);
            let c2 = crate::message_parser::take_all(c1, t, vals).1;
            assert(crate::message_parser::tagged(t, got) =~= s[j]) by {
                assert forall|q: int| 0 <= q < s[j].len() implies #[trigger] s[j][q] == (t, got[q]) by {
                    assert(fs[n + q] == s[j][q]);
                }
            }
            assert(c2 =~= c1.union(b)) by {
                assert forall|x: Consumed| #[trigger] b.contains(x) implies c2.contains(x) by {
                    let k = choose|k: int| n <= k < e && x == (#[trigger] fs[k].0, k as usize);
                    assert(vals[k - n].1 == k);
                    assert(fs[n + (k - n)].0 == t);
                }
                assert forall|x: Consumed| #[trigger] c2.contains(x) implies c1.union(b).contains(x) by {
                    if !c1.contains(x) {
                        let q = choose|q: int| 0 <= q < vals.len() && x == (t, (#[trigger] vals[q]).1);
                        assert(fs[n + q].0 == t);
                        assert(b.contains(x));
                    }
                }
            }
            assert(step(m, c1, false, r) == Ok::<(Seq<FieldView>, Set<Consumed>), ErrView>((s[j], taken_upto(s, w, j + 1))));
        },
        RuleView::Mandatory(t) => {
            assert(e == n + 1);
            lemma_plain_hit(fs, c1, t, n);
            assert(!any_consumed(c1, t)) by {
                if any_consumed(c1, t) {
                    let p = choose|p: usize| c1.contains((t, p));
                }
            }
            assert(s[j] =~= seq![fs[n]]);
            assert(c1.insert((fs[n].0, n as usize)) =~= c1.union(b));
        },
        RuleView::Optional(t) => {
            if e > n {
                assert(e == n + 1);
                lemma_plain_hit(fs, c1, t, n);
                assert(s[j] =~= seq![fs[n]]);
                assert(c1.insert((fs[n].0, n as usize)) =~= c1.union(b));
            } else {
                assert(!has_tag(fs, t));
                assert(exact_hit(m, c1, t) is None);
                assert(s[j] =~= Seq::<FieldView>::empty());
                assert(c1 =~= c1.union(b));
            }
        },
        RuleView::MandatoryOption(bb, o) => {
            assert(e == n + 1);
            assert(fs[n + 0] == s[j][0]);
            assert(accepted_tag(r, fs[n].0));
            lemma_option_hit(fs, c1, bb, o, n);
            assert(s[j] =~= seq![fs[n]]);
            assert(c1.insert((fs[n].0, n as usize)) =~= c1.union(b));
        },
        RuleView::OptionalOption(bb, o) => {
            if e > n {
                assert(e == n + 1);
                assert(fs[n + 0] == s[j][0]);
                assert(accepted_tag(r, fs[n].0));
                lemma_option_hit(fs, c1, bb, o, n);
                assert(s[j] =~= seq![fs[n]]);
                assert(c1.insert((fs[n].0, n as usize)) =~= c1.union(b));
            } else {
                lemma_option_miss(fs, c1, bb, o);
                assert(s[j] =~= Seq::<FieldView>::empty());
                assert(c1 =~= c1.union(b));
            }
        },
    }
}

/// The rules of a fitted layout take back, slot by slot, the fields of a
/// message that writes its slots in the order `w`.
proof fn lemma_run_written(rules: Seq<RuleView>, s: Seq<Seq<FieldView>>, w: Seq<int>, v: Seq<int>, i: int)
    requires
        fitted_slots(rules, s),
        is_order(w, v, s.len() as int),
        0 <= i <= rules.len(),
        flat(written(s, w)).len() <= usize::MAX,
    ensures
        run_rules(map_from_pairs(positioned_pairs(flat(written(s, w)))), Set::empty(), false, rules.take(i))
            == Ok::<(Seq<Seq<FieldView>>, Set<Consumed>), ErrView>((s.take(i), taken_upto(s, w, i))),
    decreases i,
{
    let ws = written(s, w);
    let fs = flat(ws);
    let m = map_from_pairs(positioned_pairs(fs));
    if i == 0 {
        assert(rules.take(0) =~= Seq::<RuleView>::empty());
        assert(s.take(0) =~= Seq::<Seq<FieldView>>::empty());
        assert(taken_upto(s, w, 0) =~= Set::<Consumed>::empty()) by {
            assert forall|p: Consumed| !#[trigger] taken_upto(s, w, 0).contains(p) by {
                if taken_upto(s, w, 0).contains(p) {
                    let (k, q) = choose|k: int, q: int|
                        #![trigger w[q], fs[k]]
                        0 <= q < s.len() && w[q] < 0 && slot_start(ws, q) <= k < slot_start(ws, q + 1) && p == (
                            fs[k].0,
                            k as usize,
                        );
                }
            }
        }
        assert(run_rules(m, Set::empty(), false, rules.take(0)) == Ok::<(Seq<Seq<FieldView>>, Set<Consumed>), ErrView>((Seq::<Seq<FieldView>>::empty(), Set::<Consumed>::empty())));
    } else {
        let j = i - 1;
        lemma_run_written(rules, s, w, v, j);
        assert(rules.take(i).drop_last() =~= rules.take(j));
        assert(rules.take(i).last() == rules[j]);
        assert(s.take(i) =~= s.take(j).push(s[j]));
        lemma_step_written(rules, s, w, v, j);
    }
}

/// Writing a message whose slots go out in the order `w`, and parsing the
/// text again, gives back the same fields in the same slots: wherever each
/// field carries a tag that its own rule reads back and no other rule looks
/// at, and reads back as written.
pub proof fn lemma_written_layout_round_trip(
    l: crate::message_parser::LayoutView,
    s: Seq<Seq<FieldView>>,
    w: Seq<int>,
    v: Seq<int>,
)
    requires
        l.items.len() == 0,
        l.trailer.len() == 0,
        fitted_slots(l.header, s),
        is_order(w, v, s.len() as int),
        writable_fields(flat(written(s, w))),
        flat(written(s, w)).len() <= usize::MAX,
    ensures
        crate::message_parser::layout_outcome(mt_text(flat(written(s, w))), l) == Ok::<crate::message_parser::ParsedView, ErrView>((
            s,
            Seq::<Seq<Seq<FieldView>>>::empty(),
            Seq::<Seq<FieldView>>::empty(),
        )),
{
    let ws = written(s, w);
    let fs = flat(ws);
    lemma_block4_round_trip(fs);
    lemma_run_written(l.header, s, w, v, l.header.len() as int);
    assert(l.header.take(l.header.len() as int) =~= l.header);
    assert(s.take(s.len() as int) =~= s);
    assert(l.trailer =~= Seq::<RuleView>::empty());
    let m = map_from_pairs(positioned_pairs(fs));
    let c = taken_upto(s, w, s.len() as int);
    lemma_map_groups(fs);
    assert forall|g: int, x: int| 0 <= g < m.len() && 0 <= x < m[g].1.len() implies c.contains(
        (m[g].0, (#[trigger] m[g].1[x]).1),
    ) by {
        lemma_values_tagged_member(fs, m[g].0, x);
        let k = m[g].1[x].1 as int;
        let q = lemma_slot_of(ws, k);
        assert(w[q] < s.len());
    }
    lemma_nothing_left(m, c);
}

/// When every value of the map has been taken, nothing is left over.
pub(crate) proof fn lemma_nothing_left(m: Seq<TagGroup>, c: Set<Consumed>)
    requires
        forall|g: int, v: int|
            0 <= g < m.len() && 0 <= v < m[g].1.len() ==> c.contains((m[g].0, (#[trigger] m[g].1[v]).1)),
    ensures
        crate::message_parser::leftover(m, c).len() == 0,
    decreases m.len(),
{
    if m.len() > 0 {
        let p = m.drop_last();
        assert forall|g: int, v: int| 0 <= g < p.len() && 0 <= v < p[g].1.len() implies c.contains(
            (p[g].0, (#[trigger] p[g].1[v]).1),
        ) by {
            assert(p[g] == m[g]);
        }
        lemma_nothing_left(p, c);
        lemma_no_free_tags(c, m.last().0, m.last().1);
    }
}

/// The tags of free values, when every value has been taken: none.
proof fn lemma_no_free_tags(c: Set<Consumed>, t: Seq<char>, vals: Seq<PosValue>)
    requires
        forall|v: int| 0 <= v < vals.len() ==> c.contains((t, (#[trigger] vals[v]).1)),
    ensures
        crate::message_parser::free_tags(c, t, vals).len() == 0,
    decreases vals.len(),
{
    if vals.len() > 0 {
        let p = vals.drop_last();
        assert forall|v: int| 0 <= v < p.len() implies c.contains((t, (#[trigger] p[v]).1)) by {
            assert(p[v] == vals[v]);
        }
        lemma_no_free_tags(c, t, p);
        assert(c.contains((t, vals[vals.len() - 1].1)));
    }
}

/// Writing a message whose layout takes each field once, by its tag or by
/// its field number, and parsing the text again, gives back the same fields
/// in the same slots: wherever each field carries a tag that its own rule
/// reads back and no other rule looks at, and reads back as written.
pub proof fn lemma_fitted_layout_round_trip(l: crate::message_parser::LayoutView, s: Seq<Seq<FieldView>>)
    requires
        l.items.len() == 0,
        l.trailer.len() == 0,
        fitted_slots(l.header, s),
        writable_fields(flat(s)),
        flat(s).len() <= usize::MAX,
    ensures
        crate::message_parser::layout_outcome(mt_text(flat(s)), l) == Ok::<crate::message_parser::ParsedView, ErrView>((
            s,
            Seq::<Seq<Seq<FieldView>>>::empty(),
            Seq::<Seq<FieldView>>::empty(),
        )),
{
    crate::sequence_round_trip::lemma_fitted_at(l.header, s);
    crate::sequence_round_trip::lemma_sequential_header_round_trip(l, s);
}

/// The rule takes its field by field number and option letter.
pub open spec fn by_number(r: RuleView) -> bool {
    r is MandatoryOption || r is OptionalOption
}

/// Two rules that never look at the same field: where either goes by field
/// number, their tags differ in their first two characters; otherwise the
/// tags differ.
pub open spec fn apart(a: RuleView, b: RuleView) -> bool {
    if by_number(a) || by_number(b) {
        &&& rule_tag(a).len() >= 2
        &&& rule_tag(b).len() >= 2
        &&& (rule_tag(a)[0], rule_tag(a)[1]) != (rule_tag(b)[0], rule_tag(b)[1])
    } else {
        rule_tag(a) != rule_tag(b)
    }
}

/// Rules whose tags differ in their first two characters, or two rules by
/// tag whose tags differ in their first three, stand apart.
pub proof fn lemma_apart(a: RuleView, b: RuleView)
    requires
        rule_tag(a).len() >= 2,
        rule_tag(b).len() >= 2,
        (rule_tag(a)[0], rule_tag(a)[1]) != (rule_tag(b)[0], rule_tag(b)[1]) || (!by_number(a)
            && !by_number(b) && rule_tag(a).len() >= 3 && rule_tag(b).len() >= 3 && (
            rule_tag(a)[0],
            rule_tag(a)[1],
            rule_tag(a)[2],
        ) != (rule_tag(b)[0], rule_tag(b)[1], rule_tag(b)[2])),
    ensures
        apart(a, b),
{
}

/// Any two rules of the layout stand apart.
pub open spec fn separate_rules(rules: Seq<RuleView>) -> bool {
    forall|i: int, j: int|
        0 <= i < rules.len() && 0 <= j < rules.len() && i != j ==> apart(#[trigger] rules[i], #[trigger] rules[j])
}

/// Every field carries a tag that the rule of its slot reads back.
pub open spec fn accepted_slots(rules: Seq<RuleView>, s: Seq<Seq<FieldView>>) -> bool {
    forall|i: int, k: int|
        0 <= i < s.len() && 0 <= k < s[i].len() ==> accepted_tag(rules[i], (#[trigger] s[i][k]).0)
}

/// A tag whose first two characters differ from those of `b` is neither
/// `b` nor `b` with an option letter.
proof fn lemma_other_number(b: Seq<char>, t: Seq<char>)
    requires
        b.len() >= 2,
        t.len() >= 2,
        (b[0], b[1]) != (t[0], t[1]),
    ensures
        t != b,
        !is_variant_tag(b, t),
{
    if is_variant_tag(b, t) {
        assert(t.subrange(0, b.len() as int)[0] == t[0]);
        assert(t.subrange(0, b.len() as int)[1] == t[1]);
    }
}

/// Rules that stand apart look at no field of another rule's slot.
proof fn lemma_separate_fitted(rules: Seq<RuleView>, s: Seq<Seq<FieldView>>)
    requires
        separate_rules(rules),
        crate::message_parser::slots_fit(rules, s),
        accepted_slots(rules, s),
    ensures
        fitted_slots(rules, s),
{
    assert forall|i: int, k: int, j: int|
        0 <= i < s.len() && 0 <= k < s[i].len() && 0 <= j < rules.len() && j != i implies !in_family(
            #[trigger] rules[j],
            (#[trigger] s[i][k]).0,
        ) by {
        let t = s[i][k].0;
        let bi = rule_tag(rules[i]);
        let bj = rule_tag(rules[j]);
        assert(accepted_tag(rules[i], t));
        assert(apart(rules[i], rules[j]));
        if by_number(rules[i]) || by_number(rules[j]) {
            assert(t.len() >= 2 && t[0] == bi[0] && t[1] == bi[1]) by {
                if t != bi {
                    assert(is_variant_tag(bi, t));
                    assert(t.subrange(0, bi.len() as int)[0] == t[0]);
                    assert(t.subrange(0, bi.len() as int)[1] == t[1]);
                }
            }
            lemma_other_number(bj, t);
        }
    }
}

/// Writing a message whose rules stand apart, and parsing the text again,
/// gives back the same fields in the same slots: wherever each field carries
/// a tag that its rule reads back, and reads back as written.
pub proof fn lemma_separate_layout_round_trip(l: crate::message_parser::LayoutView, s: Seq<Seq<FieldView>>)
    requires
        separate_rules(l.header),
        l.items.len() == 0,
        l.trailer.len() == 0,
        crate::message_parser::slots_fit(l.header, s),
        accepted_slots(l.header, s),
        writable_fields(flat(s)),
        flat(s).len() <= usize::MAX,
    ensures
        crate::message_parser::layout_outcome(mt_text(flat(s)), l) == Ok::<crate::message_parser::ParsedView, ErrView>((
            s,
            Seq::<Seq<Seq<FieldView>>>::empty(),
            Seq::<Seq<FieldView>>::empty(),
        )),
{
    lemma_separate_fitted(l.header, s);
    lemma_fitted_layout_round_trip(l, s);
}

/// Writing a message whose rules stand apart and whose slots go out in the
/// order `w`, and parsing the text again, gives back the same fields in the
/// same slots: wherever each field carries a tag that its rule reads back,
/// and reads back as written.
pub proof fn lemma_separate_written_round_trip(
    l: crate::message_parser::LayoutView,
    s: Seq<Seq<FieldView>>,
    w: Seq<int>,
    v: Seq<int>,
)
    requires
        separate_rules(l.header),
        l.items.len() == 0,
        l.trailer.len() == 0,
        crate::message_parser::slots_fit(l.header, s),
        accepted_slots(l.header, s),
        is_order(w, v, s.len() as int),
        writable_fields(flat(written(s, w))),
        flat(written(s, w)).len() <= usize::MAX,
    ensures
        crate::message_parser::layout_outcome(mt_text(flat(written(s, w))), l) == Ok::<crate::message_parser::ParsedView, ErrView>((
            s,
            Seq::<Seq<Seq<FieldView>>>::empty(),
            Seq::<Seq<FieldView>>::empty(),
        )),
{
    lemma_separate_fitted(l.header, s);
    lemma_written_layout_round_trip(l, s, w, v);
}

/// Writing a message whose layout has plain rules only, and parsing the
/// text again, gives back the same fields in the same slots: wherever each
/// field carries the tag of its rule and reads back as written.
pub proof fn lemma_plain_layout_round_trip(l: crate::message_parser::LayoutView, s: Seq<Seq<FieldView>>)
    requires
        plain_rules(l.header),
        l.items.len() == 0,
        l.trailer.len() == 0,
        tagged_slots(l.header, s),
        writable_fields(flat(s)),
        flat(s).len() <= usize::MAX,
    ensures
        crate::message_parser::layout_outcome(mt_text(flat(s)), l) == Ok::<crate::message_parser::ParsedView, ErrView>((
            s,
            Seq::<Seq<Seq<FieldView>>>::empty(),
            Seq::<Seq<FieldView>>::empty(),
        )),
{
    let rules = l.header;
    assert forall|i: int, k: int, j: int|
        0 <= i < s.len() && 0 <= k < s[i].len() && 0 <= j < rules.len() && j != i implies !in_family(
            #[trigger] rules[j],
            (#[trigger] s[i][k]).0,
        ) by {
        assert(rules[j] is Mandatory || rules[j] is Optional);
        assert(rule_tag(rules[i]) != rule_tag(rules[j]));
    }
    assert forall|i: int, k: int| 0 <= i < s.len() && 0 <= k < s[i].len() implies accepted_tag(
        rules[i],
        (#[trigger] s[i][k]).0,
    ) by {
        assert(rules[i] is Mandatory || rules[i] is Optional);
    }
    lemma_fitted_layout_round_trip(l, s);
}

} // verus!
