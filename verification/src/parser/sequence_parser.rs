//! Splitting the fields of a message into its sequences.
//!
//! Many SWIFT MT messages have several sequences: MT101 has a general
//! sequence A and a repeated transaction sequence B; MT104 adds a
//! settlement sequence C.  The fields are first put in message order (by
//! position, keeping the map's order among equal positions), then cut at
//! the first sequence B marker and, where the message has one, at the
//! start of sequence C.

use vstd::prelude::*;
use vstd::multiset::Multiset;
use crate::errors::ParseError;
use crate::field_map::{map_from_pairs, map_insert, FieldMap, PosValue, TagGroup};
use crate::text::{
    append_chars, alphabetic, chars_eq, in_str_list, is_alphabetic, slice_chars, str_views, string_chars,
    string_views, to_chars, views,
};
use crate::traits::SwiftMessageBody;

verus! {

/// A field with its tag, as the specifications see it.
pub type TaggedValue = (Seq<char>, PosValue);

// ---------------------------------------------------------------------------
// Putting the fields in message order
// ---------------------------------------------------------------------------

/// The fields of a map, tag group by tag group, each value with its tag.
pub open spec fn flatten(m: Seq<TagGroup>) -> Seq<TaggedValue>
    decreases m.len(),
{
    if m.len() == 0 {
        Seq::empty()
    } else {
        flatten(m.drop_last()) + m.last().1.map_values(|v: PosValue| (m.last().0, v))
    }
}

/// `s` is ordered by position.
pub open spec fn sorted_by_pos(s: Seq<TaggedValue>) -> bool {
    forall|i: int, j: int| 0 <= i <= j < s.len() ==> s[i].1.1 <= s[j].1.1
}

/// `x` put into the ordered `s` after every field whose position is not
/// greater than its own.
pub open spec fn insert_by_pos(s: Seq<TaggedValue>, x: TaggedValue) -> Seq<TaggedValue>
    decreases s.len(),
{
    if s.len() == 0 {
        seq![x]
    } else if s.last().1.1 <= x.1.1 {
        s.push(x)
    } else {
        insert_by_pos(s.drop_last(), x).push(s.last())
    }
}

/// `s` ordered by position; fields with equal positions keep their order
/// (a stable sort).
pub open spec fn sort_by_pos(s: Seq<TaggedValue>) -> Seq<TaggedValue>
    decreases s.len(),
{
    if s.len() == 0 {
        Seq::empty()
    } else {
        insert_by_pos(sort_by_pos(s.drop_last()), s.last())
    }
}

/// The fields of a map in message order.
pub open spec fn message_order(m: Seq<TagGroup>) -> Seq<TaggedValue> {
    sort_by_pos(flatten(m))
}

/// Inserting at index `j` of an ordered sequence, where every field before
/// `j` is not after `x` and every field from `j` on is after it.
proof fn lemma_insert_at(s: Seq<TaggedValue>, x: TaggedValue, j: int)
    requires
        0 <= j <= s.len(),
        forall|k: int| 0 <= k < j ==> s[k].1.1 <= x.1.1,
        forall|k: int| j <= k < s.len() ==> s[k].1.1 > x.1.1,
    ensures
        insert_by_pos(s, x) == s.take(j).push(x) + s.skip(j),
    decreases s.len(),
{
    if s.len() == 0 {
        assert(s.take(j).push(x) + s.skip(j) =~= seq![x]);
    } else if s.last().1.1 <= x.1.1 {
        assert(j == s.len());
        assert(s.take(j).push(x) + s.skip(j) =~= s.push(x));
    } else {
        let p = s.drop_last();
        lemma_insert_at(p, x, j);
        assert(p.take(j).push(x) + p.skip(j) + seq![s.last()] =~= s.take(j).push(x) + s.skip(j));
    }
}

/// Inserting keeps a sequence ordered and adds exactly one field.
pub proof fn lemma_insert_sorted(s: Seq<TaggedValue>, x: TaggedValue)
    requires
        sorted_by_pos(s),
    ensures
        sorted_by_pos(insert_by_pos(s, x)),
        insert_by_pos(s, x).to_multiset() == s.to_multiset().insert(x),
        insert_by_pos(s, x).len() == s.len() + 1,
    decreases s.len(),
{
    broadcast use vstd::seq_lib::group_to_multiset_ensures;
    if s.len() == 0 {
        assert(seq![x] =~= Seq::<TaggedValue>::empty().push(x));
    } else if s.last().1.1 <= x.1.1 {
    } else {
        let p = s.drop_last();
        assert(sorted_by_pos(p));
        lemma_insert_sorted(p, x);
        let r = insert_by_pos(p, x);
        assert(r.push(s.last()).to_multiset() == r.to_multiset().insert(s.last()));
        assert(s =~= p.push(s.last()));
        assert(s.to_multiset() == p.to_multiset().insert(s.last()));
        assert forall|i: int| 0 <= i < r.len() implies r[i].1.1 <= s.last().1.1 by {
            assert(r.to_multiset().count(r[i]) > 0);
            assert(r[i] == x || p.to_multiset().count(r[i]) > 0);
            if r[i] != x {
                let k = choose|k: int| 0 <= k < p.len() && p[k] == r[i];
                assert(p[k] == s[k]);
            }
        }
    }
}

/// The order by position is ordered and holds the same fields.
pub proof fn lemma_sort_by_pos(s: Seq<TaggedValue>)
    ensures
        sorted_by_pos(sort_by_pos(s)),
        sort_by_pos(s).to_multiset() == s.to_multiset(),
        sort_by_pos(s).len() == s.len(),
    decreases s.len(),
{
    broadcast use vstd::seq_lib::group_to_multiset_ensures;
    if s.len() > 0 {
        lemma_sort_by_pos(s.drop_last());
        lemma_insert_sorted(sort_by_pos(s.drop_last()), s.last());
        assert(s =~= s.drop_last().push(s.last()));
    }
}

/// The fields of `m`, each value with its tag, in the map's order.
fn flatten_exec(m: &FieldMap) -> (r: Vec<(String, String, usize)>)
    ensures
        triple_views(r@) == flatten(m@),
{
    let mut r: Vec<(String, String, usize)> = Vec::new();
    let mut i: usize = 0;
    while i < m.len()
        invariant
            i <= m@.len(),
            triple_views(r@) == flatten(m@.take(i as int)),
        decreases m@.len() - i,
    {
        let (tag, values) = m.group(i);
        let t = tag;
        let ghost before = r@;
        let mut k: usize = 0;
        while k < values.len()
            invariant
                k <= values.len(),
                triple_views(r@) == triple_views(before) + m@[i as int].1.take(k as int).map_values(
                    |v: PosValue| (m@[i as int].0, v),
                ),
                crate::field_map::pos_views(values@) == m@[i as int].1,
                t@ == m@[i as int].0,
            decreases values.len() - k,
        {
            let ghost old_r = triple_views(r@);
            r.push((t.clone(), values[k].0.clone(), values[k].1));
            proof {
                let g = m@[i as int].1;
                assert(g[k as int] == (values@[k as int].0@, values@[k as int].1));
                assert(triple_views(r@) =~= old_r.push((t@, g[k as int])));
                assert(triple_views(r@) =~= triple_views(before) + g.take(k + 1).map_values(
                    |v: PosValue| (m@[i as int].0, v),
                ));
            }
            k = k + 1;
        }
        proof {
            let g = m@[i as int].1;
            assert(g.take(g.len() as int) =~= g);
            assert(m@.take(i + 1).drop_last() =~= m@.take(i as int));
        }
        i = i + 1;
    }
    assert(m@.take(m@.len() as int) =~= m@);
    r
}

/// The views of `(tag, value, position)` triples.
pub open spec fn triple_views(v: Seq<(String, String, usize)>) -> Seq<TaggedValue> {
    v.map_values(|t: (String, String, usize)| (t.0@, (t.1@, t.2)))
}

/// The fields ordered by position, stably, by insertion.
fn sort_fields(v: Vec<(String, String, usize)>) -> (r: Vec<(String, String, usize)>)
    ensures
        triple_views(r@) == sort_by_pos(triple_views(v@)),
{
    let mut r: Vec<(String, String, usize)> = Vec::new();
    let mut i: usize = 0;
    let ghost src = triple_views(v@);
    while i < v.len()
        invariant
            i <= v.len(),
            src == triple_views(v@),
            triple_views(r@) == sort_by_pos(src.take(i as int)),
        decreases v.len() - i,
    {
        let x = (v[i].0.clone(), v[i].1.clone(), v[i].2);
        let ghost xv = (x.0@, (x.1@, x.2));
        assert(xv == src[i as int]);
        proof {
            lemma_sort_by_pos(src.take(i as int));
        }
        let ghost before = triple_views(r@);
        let mut j: usize = r.len();
        while j > 0 && r[j - 1].2 > x.2
            invariant
                j <= r.len(),
                triple_views(r@) == before,
                sorted_by_pos(before),
                forall|k: int| j <= k < r.len() ==> before[k].1.1 > xv.1.1,
                xv.1.1 == x.2,
            decreases j,
        {
            j = j - 1;
        }
        proof {
            assert forall|k: int| 0 <= k < j implies before[k].1.1 <= xv.1.1 by {
                if j > 0 {
                    assert(before[j - 1].1.1 <= xv.1.1);
                    assert(before[k].1.1 <= before[j - 1].1.1);
                }
            }
            lemma_insert_at(before, xv, j as int);
            assert(src.take(i + 1).drop_last() =~= src.take(i as int));
            assert(src.take(i + 1).last() == xv);
        }
        r.insert(j, x);
        proof {
            assert(triple_views(r@) =~= before.take(j as int).push(xv) + before.skip(j as int));
        }
        i = i + 1;
    }
    assert(src.take(v.len() as int) =~= src);
    r
}


// ---------------------------------------------------------------------------
// Sequence boundaries
// ---------------------------------------------------------------------------

/// `tag` opens sequence B: it is the configured marker, or, where the
/// marker is "23", the tag "25".
pub open spec fn opens_b(tag: Seq<char>, marker: Seq<char>) -> bool {
    tag == marker || (marker == "23"@ && tag == "25"@)
}

/// The first index from `from` on whose tag opens sequence B.
pub open spec fn first_b(tags: Seq<Seq<char>>, marker: Seq<char>, from: int) -> Option<int>
    decreases tags.len() - from,
{
    if from < 0 || from >= tags.len() {
        None
    } else if opens_b(tags[from], marker) {
        Some(from)
    } else {
        first_b(tags, marker, from + 1)
    }
}

/// The first index from `from` on whose tag is a sequence C field.
pub open spec fn first_c(tags: Seq<Seq<char>>, c_fields: Seq<Seq<char>>, from: int) -> Option<int>
    decreases tags.len() - from,
{
    if from < 0 || from >= tags.len() {
        None
    } else if c_fields.contains(tags[from]) {
        Some(from)
    } else {
        first_c(tags, c_fields, from + 1)
    }
}

/// `s` without the alphabetic characters at its end.
pub open spec fn trim_alpha_end(s: Seq<char>) -> Seq<char>
    decreases s.len(),
{
    if s.len() > 0 && alphabetic(s.last()) {
        trim_alpha_end(s.drop_last())
    } else {
        s
    }
}

/// The tags, as base tags, that end a transaction.
pub open spec fn transaction_end_tags() -> Seq<Seq<char>> {
    seq!["59"@, "70"@, "71A"@, "77B"@, "36"@]
}

/// The tags that belong to sequence A wherever they stand.
pub open spec fn sequence_a_tags() -> Seq<Seq<char>> {
    seq!["72"@, "77E"@, "79"@]
}

/// The last index whose tag ends a transaction.
pub open spec fn last_transaction_end(tags: Seq<Seq<char>>) -> Option<int>
    decreases tags.len(),
{
    if tags.len() == 0 {
        None
    } else if transaction_end_tags().contains(trim_alpha_end(tags.last())) {
        Some(tags.len() - 1)
    } else {
        last_transaction_end(tags.drop_last())
    }
}

/// Where sequence C starts: the first sequence C field after the last
/// transaction end, or, with no transaction end, from the start of
/// sequence B on.
pub open spec fn c_start(tags: Seq<Seq<char>>, config: ConfigView, b: Option<int>) -> Option<int> {
    if !config.2 || b is None {
        None
    } else {
        match last_transaction_end(tags) {
            Some(e) => first_c(tags, config.1, e + 1),
            None => first_c(tags, config.1, b->0),
        }
    }
}

/// The sequence of the field at index `i`: 0 for A, 1 for B, 2 for C.
pub open spec fn part_of(i: int, tag: Seq<char>, b: Option<int>, c: Option<int>) -> int {
    if sequence_a_tags().contains(tag) {
        0
    } else {
        match b {
            None => 0,
            Some(bs) => if i < bs {
                0
            } else {
                match c {
                    Some(cs) => if i >= cs {
                        2
                    } else {
                        1
                    },
                    None => 1,
                }
            },
        }
    }
}

/// The three sequences, each a map built from its fields in order.
pub type SequencesView = (Seq<TagGroup>, Seq<TagGroup>, Seq<TagGroup>);

/// The fields distributed to their sequences.
pub open spec fn distribute(all: Seq<TaggedValue>, b: Option<int>, c: Option<int>) -> SequencesView
    decreases all.len(),
{
    if all.len() == 0 {
        (Seq::empty(), Seq::empty(), Seq::empty())
    } else {
        let (sa, sb, sc) = distribute(all.drop_last(), b, c);
        let x = all.last();
        let p = part_of(all.len() - 1, x.0, b, c);
        if p == 0 {
            (map_insert(sa, x.0, x.1), sb, sc)
        } else if p == 1 {
            (sa, map_insert(sb, x.0, x.1), sc)
        } else {
            (sa, sb, map_insert(sc, x.0, x.1))
        }
    }
}

/// The tags of a sequence of fields.
pub open spec fn tags_of(all: Seq<TaggedValue>) -> Seq<Seq<char>> {
    all.map_values(|x: TaggedValue| x.0)
}

/// The sequences of the fields of `m` under `config`.
pub open spec fn sequences_of(m: Seq<TagGroup>, config: ConfigView) -> SequencesView {
    let all = message_order(m);
    let tags = tags_of(all);
    let b = first_b(tags, config.0, 0);
    distribute(all, b, c_start(tags, config, b))
}

/// A configuration as the specifications see it: the sequence B marker,
/// the sequence C fields, and whether the message has a sequence C.
pub type ConfigView = (Seq<char>, Seq<Seq<char>>, bool);

/// Configuration for sequence parsing
#[derive(Debug, Clone)]
pub struct SequenceConfig {
    /// Field that marks the start of sequence B (usually "21")
    pub sequence_b_marker: String,
    /// Fields that belong exclusively to sequence C (if any)
    pub sequence_c_fields: Vec<String>,
    /// Whether sequence C exists for this message type
    pub has_sequence_c: bool,
}

impl View for SequenceConfig {
    type V = ConfigView;

    open spec fn view(&self) -> ConfigView {
        (self.sequence_b_marker@, string_views(self.sequence_c_fields@), self.has_sequence_c)
    }
}

impl Default for SequenceConfig {
    fn default() -> (c: Self)
        ensures
            c@ == ("21"@, Seq::<Seq<char>>::empty(), false),
    {
        let c = SequenceConfig {
            sequence_b_marker: "21".to_string(),
            sequence_c_fields: Vec::new(),
            has_sequence_c: false,
        };
        assert(c@.1 =~= Seq::<Seq<char>>::empty());
        c
    }
}

/// Parsed sequences from a SWIFT message
#[derive(Debug)]
pub struct ParsedSequences {
    /// Sequence A fields (general information)
    pub sequence_a: FieldMap,
    /// Sequence B fields (repetitive items like transactions)
    pub sequence_b: FieldMap,
    /// Sequence C fields (optional settlement/summary information)
    pub sequence_c: FieldMap,
}

impl View for ParsedSequences {
    type V = SequencesView;

    open spec fn view(&self) -> SequencesView {
        (self.sequence_a@, self.sequence_b@, self.sequence_c@)
    }
}

/// `s` is one of the strings of `list`.
fn in_strings(s: &Vec<char>, list: &Vec<String>) -> (r: bool)
    ensures
        r == string_views(list@).contains(s@),
{
    let mut i: usize = 0;
    while i < list.len()
        invariant
            i <= list.len(),
            forall|j: int| 0 <= j < i ==> list@[j]@ != s@,
        decreases list.len() - i,
    {
        let item = string_chars(&list[i]);
        if chars_eq(&item, s) {
            assert(string_views(list@)[i as int] == s@);
            return true;
        }
        i = i + 1;
    }
    assert forall|j: int| 0 <= j < list.len() implies string_views(list@)[j] != s@ by {
        assert(string_views(list@)[j] == list@[j]@);
    }
    false
}

/// `tag` without the alphabetic characters at its end
/// (`trim_end_matches(char::is_alphabetic)`).
fn base_tag(tag: &Vec<char>) -> (r: Vec<char>)
    ensures
        r@ == trim_alpha_end(tag@),
{
    let mut n: usize = tag.len();
    assert(tag@.take(n as int) =~= tag@);
    while n > 0 && is_alphabetic(tag[n - 1])
        invariant
            n <= tag.len(),
            trim_alpha_end(tag@.take(n as int)) == trim_alpha_end(tag@),
        decreases n,
    {
        assert(tag@.take(n as int).drop_last() =~= tag@.take(n - 1));
        n = n - 1;
    }
    let r = slice_chars(tag, 0, n);
    assert(r@ =~= tag@.take(n as int));
    r
}

/// The option of a `usize` index as an integer.
pub open spec fn opt_index(r: Option<usize>) -> Option<int> {
    match r {
        Some(i) => Some(i as int),
        None => None,
    }
}

/// The tags of the fields, as characters.
fn tag_chars(all: &Vec<(String, String, usize)>) -> (r: Vec<Vec<char>>)
    ensures
        views(r@) == tags_of(triple_views(all@)),
{
    let mut r: Vec<Vec<char>> = Vec::new();
    let mut i: usize = 0;
    while i < all.len()
        invariant
            i <= all.len(),
            views(r@) == tags_of(triple_views(all@)).take(i as int),
        decreases all.len() - i,
    {
        let ghost before = views(r@);
        let c = string_chars(&all[i].0);
        r.push(c);
        proof {
            let tv = tags_of(triple_views(all@));
            assert(tv[i as int] == all@[i as int].0@);
            assert(views(r@) =~= before.push(c@));
            assert(tv.take(i + 1) =~= tv.take(i as int).push(tv[i as int]));
        }
        i = i + 1;
    }
    assert(tags_of(triple_views(all@)).take(all.len() as int) =~= tags_of(triple_views(all@)));
    r
}

/// The first index whose tag opens sequence B.
fn find_b_start(tags: &Vec<Vec<char>>, marker: &Vec<char>) -> (r: Option<usize>)
    ensures
        opt_index(r) == first_b(views(tags@), marker@, 0),
{
    let secondary = chars_eq(marker, &to_chars("23"));
    let twenty_five = to_chars("25");
    let mut i: usize = 0;
    while i < tags.len()
        invariant
            i <= tags.len(),
            first_b(views(tags@), marker@, i as int) == first_b(views(tags@), marker@, 0),
            secondary == (marker@ == "23"@),
            twenty_five@ == "25"@,
        decreases tags.len() - i,
    {
        assert(views(tags@)[i as int] == tags@[i as int]@);
        if is_sequence_b_marker(&tags[i], marker) || (secondary && chars_eq(&tags[i], &twenty_five)) {
            return Some(i);
        }
        i = i + 1;
    }
    None
}

/// The first index from `from` on whose tag is a sequence C field.
fn find_c_field(tags: &Vec<Vec<char>>, c_fields: &Vec<String>, from: usize) -> (r: Option<usize>)
    ensures
        opt_index(r) == first_c(views(tags@), string_views(c_fields@), from as int),
{
    let mut i: usize = from;
    while i < tags.len()
        invariant
            from <= i,
            first_c(views(tags@), string_views(c_fields@), i as int) == first_c(
                views(tags@),
                string_views(c_fields@),
                from as int,
            ),
        decreases tags.len() - i,
    {
        assert(views(tags@)[i as int] == tags@[i as int]@);
        if in_strings(&tags[i], c_fields) {
            return Some(i);
        }
        i = i + 1;
    }
    None
}

/// The last index whose tag ends a transaction.
fn find_last_transaction_end(tags: &Vec<Vec<char>>) -> (r: Option<usize>)
    ensures
        opt_index(r) == last_transaction_end(views(tags@)),
        r matches Some(e) ==> e < tags@.len(),
{
    let ends: Vec<&str> = vec!["59", "70", "71A", "77B", "36"];
    assert(str_views(ends@) =~= transaction_end_tags());
    let mut last: Option<usize> = None;
    let mut i: usize = 0;
    while i < tags.len()
        invariant
            i <= tags.len(),
            opt_index(last) == last_transaction_end(views(tags@).take(i as int)),
            last matches Some(e) ==> e < i,
            str_views(ends@) == transaction_end_tags(),
        decreases tags.len() - i,
    {
        let b = base_tag(&tags[i]);
        proof {
            let t = views(tags@);
            assert(t.take(i + 1).drop_last() =~= t.take(i as int));
            assert(t.take(i + 1).last() == tags@[i as int]@);
        }
        if in_str_list(&b, ends.as_slice()) {
            last = Some(i);
        }
        i = i + 1;
    }
    assert(views(tags@).take(tags.len() as int) =~= views(tags@));
    last
}

/// Check if a field tag is a sequence B marker
fn is_sequence_b_marker(tag: &Vec<char>, marker: &Vec<char>) -> (b: bool)
    ensures
        b == (tag@ == marker@),
{
    chars_eq(tag, marker)
}

/// Split fields into sequences based on configuration
pub fn split_into_sequences(fields: &FieldMap, config: &SequenceConfig) -> (r: Result<
    ParsedSequences,
    ParseError,
>)
    ensures
        r matches Ok(p) && p@ == sequences_of(fields@, config@),
{
    let all = sort_fields(flatten_exec(fields));
    let ghost av = triple_views(all@);
    let tags = tag_chars(&all);
    let marker = string_chars(&config.sequence_b_marker);
    let b_start = find_b_start(&tags, &marker);
    let mut c_from: Option<usize> = None;
    if config.has_sequence_c && b_start.is_some() {
        c_from = match find_last_transaction_end(&tags) {
            Some(e) => find_c_field(&tags, &config.sequence_c_fields, e + 1),
            None => find_c_field(&tags, &config.sequence_c_fields, b_start.unwrap()),
        };
    }
    assert(opt_index(c_from) == c_start(tags_of(av), config@, opt_index(b_start)));
    let a_tags: Vec<&str> = vec!["72", "77E", "79"];
    assert(str_views(a_tags@) =~= sequence_a_tags());
    let mut seq_a = FieldMap::new();
    let mut seq_b = FieldMap::new();
    let mut seq_c = FieldMap::new();
    let ghost b = opt_index(b_start);
    let ghost c = opt_index(c_from);
    let mut i: usize = 0;
    while i < all.len()
        invariant
            i <= all.len(),
            av == triple_views(all@),
            views(tags@) == tags_of(av),
            tags@.len() == all@.len(),
            str_views(a_tags@) == sequence_a_tags(),
            b == opt_index(b_start),
            c == opt_index(c_from),
            (seq_a@, seq_b@, seq_c@) == distribute(av.take(i as int), b, c),
        decreases all.len() - i,
    {
        let t = &tags[i];
        let value = all[i].1.clone();
        let pos = all[i].2;
        proof {
            assert(av.take(i + 1).drop_last() =~= av.take(i as int));
            assert(av.take(i + 1).last() == av[i as int]);
            assert(views(tags@)[i as int] == tags@[i as int]@);
            assert(t@ == tags_of(av)[i as int]);
        }
        let in_a = in_str_list(t, a_tags.as_slice());
        let part: u8 = if in_a {
            0
        } else {
            match b_start {
                None => 0,
                Some(bs) => if i < bs {
                    0
                } else {
                    match c_from {
                        Some(cs) => if i >= cs {
                            2
                        } else {
                            1
                        },
                        None => 1,
                    }
                },
            }
        };
        assert(part == part_of(i as int, av[i as int].0, b, c));
        if part == 0 {
            seq_a.insert(t, value, pos);
        } else if part == 1 {
            seq_b.insert(t, value, pos);
        } else {
            seq_c.insert(t, value, pos);
        }
        i = i + 1;
    }
    assert(av.take(all.len() as int) =~= av);
    Ok(ParsedSequences { sequence_a: seq_a, sequence_b: seq_b, sequence_c: seq_c })
}

/// The number of values of a map, over all its tags.
pub open spec fn value_count(m: Seq<TagGroup>) -> nat
    decreases m.len(),
{
    if m.len() == 0 {
        0
    } else {
        value_count(m.drop_last()) + m.last().1.len()
    }
}

proof fn lemma_value_count_update(m: Seq<TagGroup>, i: int, g: TagGroup)
    requires
        0 <= i < m.len(),
    ensures
        value_count(m.update(i, g)) == value_count(m) - m[i].1.len() + g.1.len(),
    decreases m.len(),
{
    if i == m.len() - 1 {
        assert(m.update(i, g).drop_last() =~= m.drop_last());
    } else {
        lemma_value_count_update(m.drop_last(), i, g);
        assert(m.update(i, g).drop_last() =~= m.drop_last().update(i, g));
    }
}

proof fn lemma_value_count_insert(m: Seq<TagGroup>, tag: Seq<char>, v: PosValue)
    ensures
        value_count(map_insert(m, tag, v)) == value_count(m) + 1,
{
    crate::field_map::lemma_group_index(m, tag);
    match crate::field_map::group_index(m, tag) {
        Some(i) => {
            lemma_value_count_update(m, i, (tag, m[i].1.push(v)));
        },
        None => {
            assert(m.push((tag, seq![v])).drop_last() =~= m);
        },
    }
}

proof fn lemma_flatten_len(m: Seq<TagGroup>)
    ensures
        flatten(m).len() == value_count(m),
    decreases m.len(),
{
    if m.len() > 0 {
        lemma_flatten_len(m.drop_last());
    }
}

proof fn lemma_distribute_count(all: Seq<TaggedValue>, b: Option<int>, c: Option<int>)
    ensures
        value_count(distribute(all, b, c).0) + value_count(distribute(all, b, c).1) + value_count(
            distribute(all, b, c).2,
        ) == all.len(),
    decreases all.len(),
{
    if all.len() > 0 {
        lemma_distribute_count(all.drop_last(), b, c);
        let (sa, sb, sc) = distribute(all.drop_last(), b, c);
        let x = all.last();
        lemma_value_count_insert(sa, x.0, x.1);
        lemma_value_count_insert(sb, x.0, x.1);
        lemma_value_count_insert(sc, x.0, x.1);
    }
}

/// The fields of a map, each with its tag and position, as a multiset.
pub open spec fn field_bag(m: Seq<TagGroup>) -> Multiset<TaggedValue> {
    flatten(m).to_multiset()
}

/// Adding a value to one tag group adds it to the fields of the map.
proof fn lemma_bag_update(m: Seq<TagGroup>, i: int, v: PosValue)
    requires
        0 <= i < m.len(),
    ensures
        field_bag(m.update(i, (m[i].0, m[i].1.push(v)))) == field_bag(m).insert((m[i].0, v)),
    decreases m.len(),
{
    broadcast use vstd::seq_lib::group_to_multiset_ensures, vstd::seq_lib::lemma_multiset_commutative;
    let g = (m[i].0, m[i].1.push(v));
    let u = m.update(i, g);
    let p = m.drop_last();
    if i == m.len() - 1 {
        assert(u.drop_last() =~= p);
        let a = m[i].1.map_values(|w: PosValue| (m[i].0, w));
        assert(g.1.map_values(|w: PosValue| (g.0, w)) =~= a.push((m[i].0, v)));
        assert(flatten(u) =~= (flatten(p) + a).push((m[i].0, v)));
        assert(flatten(m) =~= flatten(p) + a);
    } else {
        lemma_bag_update(p, i, v);
        assert(u.drop_last() =~= p.update(i, g));
        assert(u.last() == m.last());
        let l = m.last().1.map_values(|w: PosValue| (m.last().0, w));
        assert(flatten(u) == flatten(p.update(i, g)) + l);
        assert(flatten(m) == flatten(p) + l);
        assert(field_bag(u) =~= field_bag(m).insert((m[i].0, v)));
    }
}

/// Inserting a value into a map adds it to the fields of the map.
proof fn lemma_bag_insert(m: Seq<TagGroup>, t: Seq<char>, v: PosValue)
    ensures
        field_bag(map_insert(m, t, v)) == field_bag(m).insert((t, v)),
{
    broadcast use vstd::seq_lib::group_to_multiset_ensures, vstd::seq_lib::lemma_multiset_commutative;
    crate::field_map::lemma_group_index(m, t);
    match crate::field_map::group_index(m, t) {
        Some(i) => {
            lemma_bag_update(m, i, v);
        },
        None => {
            let u = m.push((t, seq![v]));
            assert(u.drop_last() =~= m);
            assert(seq![v].map_values(|w: PosValue| (t, w)) =~= seq![(t, v)]);
            assert(flatten(u) =~= flatten(m).push((t, v)));
        },
    }
}

/// The distributed fields, all three sequences together, are the fields
/// distributed.
proof fn lemma_distribute_bag(all: Seq<TaggedValue>, b: Option<int>, c: Option<int>)
    ensures
        field_bag(distribute(all, b, c).0).add(field_bag(distribute(all, b, c).1)).add(
            field_bag(distribute(all, b, c).2),
        ) == all.to_multiset(),
    decreases all.len(),
{
    broadcast use vstd::seq_lib::group_to_multiset_ensures, vstd::multiset::group_multiset_axioms;
    if all.len() == 0 {
        assert(field_bag(Seq::<TagGroup>::empty()) =~= Multiset::<TaggedValue>::empty());
    } else {
        lemma_distribute_bag(all.drop_last(), b, c);
        let (sa, sb, sc) = distribute(all.drop_last(), b, c);
        let x = all.last();
        lemma_bag_insert(sa, x.0, x.1);
        lemma_bag_insert(sb, x.0, x.1);
        lemma_bag_insert(sc, x.0, x.1);
        assert(all =~= all.drop_last().push(x));
        let d = distribute(all, b, c);
        assert(field_bag(d.0).add(field_bag(d.1)).add(field_bag(d.2)) =~= all.to_multiset());
    }
}

/// Splitting loses no field and adds none: the three sequences together
/// hold exactly the fields of the map, each with its tag and position, as
/// often as the map holds it; so as many values as the map.
pub proof fn lemma_split_keeps_every_field(m: Seq<TagGroup>, config: ConfigView)
    ensures
        field_bag(sequences_of(m, config).0).add(field_bag(sequences_of(m, config).1)).add(
            field_bag(sequences_of(m, config).2),
        ) == field_bag(m),
        value_count(sequences_of(m, config).0) + value_count(sequences_of(m, config).1)
            + value_count(sequences_of(m, config).2) == value_count(m),
{
    let all = message_order(m);
    lemma_sort_by_pos(flatten(m));
    lemma_flatten_len(m);
    let tags = tags_of(all);
    let b = first_b(tags, config.0, 0);
    lemma_distribute_count(all, b, c_start(tags, config, b));
    lemma_distribute_bag(all, b, c_start(tags, config, b));
}

/// Inserting a value keeps the tags of the map and may add its own.
proof fn lemma_insert_tags(m: Seq<TagGroup>, t: Seq<char>, v: PosValue, bad: Seq<Seq<char>>)
    requires
        forall|g: int| 0 <= g < m.len() ==> !bad.contains(#[trigger] m[g].0),
        !bad.contains(t),
    ensures
        forall|g: int| 0 <= g < map_insert(m, t, v).len() ==> !bad.contains(#[trigger] map_insert(m, t, v)[g].0),
{
    crate::field_map::lemma_group_index(m, t);
}

/// Where the distributed fields go: without a start of sequence B, all stay
/// in sequence A; without a start of sequence C, sequence C is empty; the
/// fields of sequence A's own tags go nowhere else.
proof fn lemma_distribute_places(all: Seq<TaggedValue>, b: Option<int>, c: Option<int>)
    ensures
        b is None ==> distribute(all, b, c).1.len() == 0 && distribute(all, b, c).2.len() == 0,
        c is None ==> distribute(all, b, c).2.len() == 0,
        forall|g: int|
            0 <= g < distribute(all, b, c).1.len() ==> !sequence_a_tags().contains(
                #[trigger] distribute(all, b, c).1[g].0,
            ),
        forall|g: int|
            0 <= g < distribute(all, b, c).2.len() ==> !sequence_a_tags().contains(
                #[trigger] distribute(all, b, c).2[g].0,
            ),
    decreases all.len(),
{
    if all.len() > 0 {
        lemma_distribute_places(all.drop_last(), b, c);
        let (sa, sb, sc) = distribute(all.drop_last(), b, c);
        let x = all.last();
        let p = part_of(all.len() - 1, x.0, b, c);
        if p == 1 {
            lemma_insert_tags(sb, x.0, x.1, sequence_a_tags());
        } else if p == 2 {
            lemma_insert_tags(sc, x.0, x.1, sequence_a_tags());
        }
    }
}

/// The values of every group of the map come in order of position, none
/// after `bound`.
pub open spec fn groups_ordered(m: Seq<TagGroup>, bound: usize) -> bool {
    forall|g: int, v1: int, v2: int|
        0 <= g < m.len() && 0 <= v1 <= v2 < m[g].1.len() ==> (#[trigger] m[g].1[v1]).1 <= (
        #[trigger] m[g].1[v2]).1 && m[g].1[v2].1 <= bound
}

/// Inserting a value at a position not before any of the map keeps the
/// groups ordered.
proof fn lemma_insert_ordered(m: Seq<TagGroup>, t: Seq<char>, x: PosValue, bound: usize)
    requires
        groups_ordered(m, bound),
        bound <= x.1,
    ensures
        groups_ordered(map_insert(m, t, x), x.1),
{
    crate::field_map::lemma_group_index(m, t);
    let m2 = map_insert(m, t, x);
    assert forall|g: int, v1: int, v2: int|
        0 <= g < m2.len() && 0 <= v1 <= v2 < m2[g].1.len() implies (#[trigger] m2[g].1[v1]).1 <= (
        #[trigger] m2[g].1[v2]).1 && m2[g].1[v2].1 <= x.1 by {
        match crate::field_map::group_index(m, t) {
            Some(i) => {
                if g == i {
                    if v2 == m[i].1.len() {
                        if v1 < v2 {
                            assert(m[i].1[v1].1 <= bound);
                        }
                    } else {
                        assert(m[i].1[v1].1 <= m[i].1[v2].1);
                    }
                } else {
                    assert(m2[g] == m[g]);
                }
            },
            None => {
                if g < m.len() {
                    assert(m2[g] == m[g]);
                }
            },
        }
    }
}

/// The distributed fields, taken in order of position, fill each group of
/// each sequence in order of position.
proof fn lemma_distribute_ordered(all: Seq<TaggedValue>, b: Option<int>, c: Option<int>)
    requires
        sorted_by_pos(all),
        all.len() > 0,
    ensures
        groups_ordered(distribute(all, b, c).0, all.last().1.1),
        groups_ordered(distribute(all, b, c).1, all.last().1.1),
        groups_ordered(distribute(all, b, c).2, all.last().1.1),
    decreases all.len(),
{
    let p = all.drop_last();
    let x = all.last();
    let (sa, sb, sc) = distribute(p, b, c);
    if p.len() > 0 {
        assert(sorted_by_pos(p));
        lemma_distribute_ordered(p, b, c);
        assert(p.last().1.1 <= x.1.1);
        lemma_insert_ordered(sa, x.0, x.1, p.last().1.1);
        lemma_insert_ordered(sb, x.0, x.1, p.last().1.1);
        lemma_insert_ordered(sc, x.0, x.1, p.last().1.1);
    } else {
        assert(groups_ordered(Seq::<TagGroup>::empty(), 0));
        lemma_insert_ordered(Seq::<TagGroup>::empty(), x.0, x.1, 0);
        assert(groups_ordered(Seq::<TagGroup>::empty(), x.1.1));
    }
}

/// Splitting a message into sequences keeps, within each group of each
/// sequence, the values in order of position.
pub proof fn lemma_split_ordered(m: Seq<TagGroup>, config: ConfigView)
    requires
        message_order(m).len() > 0,
    ensures
        groups_ordered(sequences_of(m, config).0, message_order(m).last().1.1),
        groups_ordered(sequences_of(m, config).1, message_order(m).last().1.1),
        groups_ordered(sequences_of(m, config).2, message_order(m).last().1.1),
{
    let all = message_order(m);
    lemma_sort_by_pos(flatten(m));
    let tags = tags_of(all);
    let b = first_b(tags, config.0, 0);
    lemma_distribute_ordered(all, b, c_start(tags, config, b));
}

/// Splitting a message into sequences: with no field that opens sequence B,
/// sequences B and C are empty; where the message type has no sequence C,
/// sequence C is empty; fields 72, 77E and 79 stay in sequence A.
pub proof fn lemma_split_places(m: Seq<TagGroup>, config: ConfigView)
    ensures
        first_b(tags_of(message_order(m)), config.0, 0) is None ==> sequences_of(m, config).1.len()
            == 0 && sequences_of(m, config).2.len() == 0,
        !config.2 ==> sequences_of(m, config).2.len() == 0,
        forall|g: int|
            0 <= g < sequences_of(m, config).1.len() ==> !sequence_a_tags().contains(
                #[trigger] sequences_of(m, config).1[g].0,
            ),
        forall|g: int|
            0 <= g < sequences_of(m, config).2.len() ==> !sequence_a_tags().contains(
                #[trigger] sequences_of(m, config).2[g].0,
            ),
{
    let all = message_order(m);
    let tags = tags_of(all);
    let b = first_b(tags, config.0, 0);
    lemma_distribute_places(all, b, c_start(tags, config, b));
}

/// The fields in message order are ordered by position and are exactly
/// the fields of the map.
pub proof fn lemma_message_order(m: Seq<TagGroup>)
    ensures
        sorted_by_pos(message_order(m)),
        message_order(m).to_multiset() == flatten(m).to_multiset(),
{
    lemma_sort_by_pos(flatten(m));
}

// ---------------------------------------------------------------------------
// Repeated items
// ---------------------------------------------------------------------------

/// The fields grouped into items: each item starts at a field whose tag is
/// `marker` and runs up to the next one; fields before the first marker
/// belong to no item.
pub open spec fn item_groups(all: Seq<TaggedValue>, marker: Seq<char>) -> Seq<Seq<TaggedValue>>
    decreases all.len(),
{
    if all.len() == 0 {
        Seq::empty()
    } else {
        let g = item_groups(all.drop_last(), marker);
        let x = all.last();
        if x.0 == marker {
            g.push(seq![x])
        } else if g.len() == 0 {
            g
        } else {
            g.update(g.len() - 1, g.last().push(x))
        }
    }
}

/// The views of a sequence of maps.
pub open spec fn map_views(v: Seq<FieldMap>) -> Seq<Seq<TagGroup>> {
    v.map_values(|m: FieldMap| m@)
}

/// Each group of fields as a map built from its fields in order.
pub open spec fn item_maps(gs: Seq<Seq<TaggedValue>>) -> Seq<Seq<TagGroup>> {
    gs.map_values(|g: Seq<TaggedValue>| map_from_pairs(g))
}

/// The items of the fields of `m`, each a map built from its fields.
pub open spec fn items_of(m: Seq<TagGroup>, marker: Seq<char>) -> Seq<Seq<TagGroup>> {
    item_maps(item_groups(message_order(m), marker))
}

proof fn lemma_item_maps_push(gs: Seq<Seq<TaggedValue>>, g: Seq<TaggedValue>)
    ensures
        item_maps(gs.push(g)) == item_maps(gs).push(map_from_pairs(g)),
{
    assert(item_maps(gs.push(g)) =~= item_maps(gs).push(map_from_pairs(g)));
}

proof fn lemma_map_from_pairs_push(pairs: Seq<TaggedValue>, x: TaggedValue)
    ensures
        map_from_pairs(pairs.push(x)) == map_insert(map_from_pairs(pairs), x.0, x.1),
{
    assert(pairs.push(x).drop_last() =~= pairs);
}

/// The number of entries tagged `marker`.
pub open spec fn marker_count(all: Seq<TaggedValue>, marker: Seq<char>) -> nat
    decreases all.len(),
{
    if all.len() == 0 {
        0
    } else {
        marker_count(all.drop_last(), marker) + if all.last().0 == marker {
            1nat
        } else {
            0nat
        }
    }
}

/// The entries of the groups, group after group.
pub open spec fn concat_groups(gs: Seq<Seq<TaggedValue>>) -> Seq<TaggedValue>
    decreases gs.len(),
{
    if gs.len() == 0 {
        Seq::empty()
    } else {
        concat_groups(gs.drop_last()) + gs.last()
    }
}

/// The items of a repetitive sequence: one per entry tagged `marker`; each
/// starts with such an entry and holds no other; together, in order, they
/// are the entries from the first marker on, and the entries before it
/// hold no marker.
pub proof fn lemma_item_groups(all: Seq<TaggedValue>, marker: Seq<char>)
    ensures
        item_groups(all, marker).len() == marker_count(all, marker),
        forall|k: int|
            0 <= k < item_groups(all, marker).len() ==> (#[trigger] item_groups(all, marker)[k]).len() > 0
                && item_groups(all, marker)[k][0].0 == marker && forall|j: int|
                1 <= j < item_groups(all, marker)[k].len() ==> item_groups(all, marker)[k][j].0 != marker,
        concat_groups(item_groups(all, marker)).len() <= all.len(),
        concat_groups(item_groups(all, marker)) == all.skip(
            all.len() - concat_groups(item_groups(all, marker)).len(),
        ),
        forall|i: int|
            0 <= i < all.len() - concat_groups(item_groups(all, marker)).len() ==> (#[trigger] all[i]).0
                != marker,
    decreases all.len(),
{
    let gs = item_groups(all, marker);
    if all.len() == 0 {
        assert(concat_groups(gs) =~= Seq::<TaggedValue>::empty());
        assert(all.skip(0) =~= all);
    } else {
        let p = all.drop_last();
        lemma_item_groups(p, marker);
        let g = item_groups(p, marker);
        let x = all.last();
        let cg = concat_groups(g);
        let n = all.len() - 1;
        if x.0 == marker {
            assert(gs == g.push(seq![x]));
            assert(gs.drop_last() =~= g);
            assert(concat_groups(gs) == cg + seq![x]);
            assert(concat_groups(gs) =~= all.skip(all.len() - concat_groups(gs).len())) by {
                assert forall|i: int| 0 <= i < cg.len() implies #[trigger] cg[i] == p[p.len() - cg.len() + i] by {
                    assert(cg == p.skip(p.len() - cg.len()));
                }
            }
            assert forall|k: int| 0 <= k < gs.len() implies (#[trigger] gs[k]).len() > 0 && gs[k][0].0 == marker
                && forall|j: int| 1 <= j < gs[k].len() ==> gs[k][j].0 != marker by {
                if k < g.len() {
                    assert(gs[k] == g[k]);
                }
            }
            assert forall|i: int| 0 <= i < all.len() - concat_groups(gs).len() implies (#[trigger] all[i]).0 != marker by {
                assert(all[i] == p[i]);
            }
        } else if g.len() == 0 {
            assert(gs == g);
            assert(cg =~= Seq::<TaggedValue>::empty());
            assert(all.skip(all.len() as int) =~= Seq::<TaggedValue>::empty());
            assert forall|i: int| 0 <= i < all.len() - concat_groups(gs).len() implies (#[trigger] all[i]).0 != marker by {
                if i < n {
                    assert(all[i] == p[i]);
                }
            }
        } else {
            let l = g.len() - 1;
            assert(gs == g.update(l, g.last().push(x)));
            assert(gs.drop_last() =~= g.drop_last());
            assert(concat_groups(g) == concat_groups(g.drop_last()) + g.last());
            assert(concat_groups(gs) =~= cg + seq![x]);
            assert(concat_groups(gs) =~= all.skip(all.len() - concat_groups(gs).len())) by {
                assert forall|i: int| 0 <= i < cg.len() implies #[trigger] cg[i] == p[p.len() - cg.len() + i] by {
                    assert(cg == p.skip(p.len() - cg.len()));
                }
            }
            assert forall|k: int| 0 <= k < gs.len() implies (#[trigger] gs[k]).len() > 0 && gs[k][0].0 == marker
                && forall|j: int| 1 <= j < gs[k].len() ==> gs[k][j].0 != marker by {
                if k < l {
                    assert(gs[k] == g[k]);
                } else {
                    assert(g[l].len() > 0);
                    assert(gs[k] == g[l].push(x));
                    assert forall|j: int| 1 <= j < gs[k].len() implies gs[k][j].0 != marker by {
                        if j < g[l].len() {
                            assert(gs[k][j] == g[l][j]);
                        }
                    }
                }
            }
            assert forall|i: int| 0 <= i < all.len() - concat_groups(gs).len() implies (#[trigger] all[i]).0 != marker by {
                assert(all[i] == p[i]);
            }
        }
    }
}

/// Parse repetitive sequence items (like transactions)
pub fn parse_repetitive_sequence<T: SwiftMessageBody>(fields: &FieldMap, marker_field: &str) -> (r:
    Result<Vec<FieldMap>, ParseError>)
    ensures
        r matches Ok(items) && map_views(items@) == items_of(fields@, marker_field@),
{
    let all = sort_fields(flatten_exec(fields));
    let ghost av = triple_views(all@);
    let marker = to_chars(marker_field);
    let mut items: Vec<FieldMap> = Vec::new();
    let mut current = FieldMap::new();
    let mut in_item = false;
    let mut i: usize = 0;
    while i < all.len()
        invariant
            i <= all.len(),
            av == triple_views(all@),
            marker@ == marker_field@,
            in_item == (item_groups(av.take(i as int), marker@).len() > 0),
            in_item ==> map_views(items@) == item_maps(
                item_groups(av.take(i as int), marker@).drop_last(),
            ),
            in_item ==> current@ == map_from_pairs(item_groups(av.take(i as int), marker@).last()),
            !in_item ==> items@.len() == 0,
        decreases all.len() - i,
    {
        let t = string_chars(&all[i].0);
        let value = all[i].1.clone();
        let pos = all[i].2;
        let ghost g = item_groups(av.take(i as int), marker@);
        let ghost x = av[i as int];
        proof {
            assert(av.take(i + 1).drop_last() =~= av.take(i as int));
            assert(av.take(i + 1).last() == x);
            assert(t@ == x.0 && value@ == x.1.0 && pos == x.1.1);
        }
        let ghost ng = item_groups(av.take(i + 1), marker@);
        if is_sequence_b_marker(&t, &marker) {
            assert(ng == g.push(seq![x]));
            assert(ng.drop_last() =~= g);
            if in_item {
                let ghost before = map_views(items@);
                let done = current;
                items.push(done);
                proof {
                    assert(map_views(items@) =~= before.push(done@));
                    assert(g =~= g.drop_last().push(g.last()));
                    lemma_item_maps_push(g.drop_last(), g.last());
                }
            } else {
                assert(map_views(items@) =~= item_maps(ng.drop_last()));
            }
            current = FieldMap::new();
            in_item = true;
            proof {
                lemma_map_from_pairs_push(Seq::empty(), x);
                assert(Seq::<TaggedValue>::empty().push(x) =~= seq![x]);
            }
        } else {
            proof {
                if g.len() > 0 {
                    assert(ng == g.update(g.len() - 1, g.last().push(x)));
                    assert(ng.drop_last() =~= g.drop_last());
                    lemma_map_from_pairs_push(g.last(), x);
                } else {
                    assert(ng == g);
                }
            }
        }
        if in_item {
            current.insert(&t, value, pos);
        }
        i = i + 1;
    }
    assert(av.take(all.len() as int) =~= av);
    let ghost g = item_groups(av, marker@);
    if in_item {
        let ghost before = map_views(items@);
        items.push(current);
        proof {
            assert(map_views(items@) =~= before.push(current@));
            assert(g =~= g.drop_last().push(g.last()));
            lemma_item_maps_push(g.drop_last(), g.last());
        }
    } else {
        assert(map_views(items@) =~= item_maps(g));
    }
    Ok(items)
}

// ---------------------------------------------------------------------------
// Writing fields back as a block 4 text
// ---------------------------------------------------------------------------

/// A value without a `:TAG:` prefix it may carry: its own tag's, or that
/// of a variant (`:50K:`).
pub open spec fn clean_value(tag: Seq<char>, v: Seq<char>) -> Seq<char> {
    let own = seq![':'] + tag + seq![':'];
    if crate::text::starts_with(v, own) {
        v.skip(own.len() as int)
    } else if v.len() > 0 && v[0] == ':' {
        match crate::text::find_from(v.skip(1), seq![':'], 0) {
            Some(k) => v.skip(k + 2),
            None => v,
        }
    } else {
        v
    }
}

/// The lines `:TAG:value` of the fields, each ended by a line feed.
pub open spec fn block_lines(fs: Seq<TaggedValue>) -> Seq<char>
    decreases fs.len(),
{
    if fs.len() == 0 {
        Seq::empty()
    } else {
        block_lines(fs.drop_last()) + seq![':'] + fs.last().0 + seq![':'] + clean_value(
            fs.last().0,
            fs.last().1.0,
        ) + seq!['\n']
    }
}

/// The value without its tag prefix.
fn clean_value_exec(tag: &Vec<char>, v: &Vec<char>) -> (r: Vec<char>)
    ensures
        r@ == clean_value(tag@, v@),
{
    let mut own: Vec<char> = vec![':'];
    append_chars(&mut own, tag);
    own.push(':');
    assert(own@ =~= seq![':'] + tag@ + seq![':']);
    if crate::text::starts_with_exec(v, &own) {
        let r = slice_chars(v, own.len(), v.len());
        assert(r@ =~= v@.skip(own@.len() as int));
        r
    } else if v.len() > 0 && v[0] == ':' {
        let stripped = slice_chars(v, 1, v.len());
        assert(stripped@ =~= v@.skip(1));
        match crate::text::find_char(&stripped, ':', 0) {
            Some(k) => {
                let r = slice_chars(v, k + 2, v.len());
                assert(r@ =~= v@.skip(k + 2));
                r
            },
            None => slice_chars(v, 0, v.len()),
        }
    } else {
        slice_chars(v, 0, v.len())
    }
}

/// Rebuild a block 4 text from a field map: the fields in message order,
/// each as `:TAG:value` on its own line.
pub fn reconstruct_block4_from_fields(fields: &FieldMap) -> (r: String)
    ensures
        r@ == block_lines(message_order(fields@)),
{
    let all = sort_fields(flatten_exec(fields));
    let ghost av = triple_views(all@);
    let mut out: Vec<char> = Vec::new();
    let mut i: usize = 0;
    while i < all.len()
        invariant
            i <= all.len(),
            av == triple_views(all@),
            out@ == block_lines(av.take(i as int)),
        decreases all.len() - i,
    {
        let t = string_chars(&all[i].0);
        let v = string_chars(&all[i].1);
        let c = clean_value_exec(&t, &v);
        out.push(':');
        append_chars(&mut out, &t);
        out.push(':');
        append_chars(&mut out, &c);
        out.push('\n');
        proof {
            assert(av.take(i + 1).drop_last() =~= av.take(i as int));
            assert(av.take(i + 1).last() == av[i as int]);
            assert(out@ =~= block_lines(av.take(i + 1)));
        }
        i = i + 1;
    }
    assert(av.take(all.len() as int) =~= av);
    crate::text::from_chars(&out)
}

// ---------------------------------------------------------------------------
// Configurations
// ---------------------------------------------------------------------------

/// The configuration of each message type.
pub open spec fn config_for(message_type: Seq<char>) -> ConfigView {
    if message_type == "MT104"@ {
        ("21"@, seq!["32B"@, "19"@, "71F"@, "71G"@, "53"@], true)
    } else {
        ("21"@, Seq::empty(), false)
    }
}

/// Get sequence configuration for a specific message type
pub fn get_sequence_config(message_type: &str) -> (c: SequenceConfig)
    ensures
        c@ == config_for(message_type@),
{
    let t = to_chars(message_type);
    if chars_eq(&t, &to_chars("MT104")) {
        let c = SequenceConfig {
            sequence_b_marker: "21".to_string(),
            sequence_c_fields: vec![
                "32B".to_string(),
                "19".to_string(),
                "71F".to_string(),
                "71G".to_string(),
                "53".to_string(),
            ],
            has_sequence_c: true,
        };
        assert(c@.1 =~= config_for(message_type@).1);
        c
    } else {
        SequenceConfig::default()
    }
}

} // verus!
