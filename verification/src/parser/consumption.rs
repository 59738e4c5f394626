//! Sequential consumption of fields: which values of which tags have been
//! taken, the next value still free under a tag, and the lookup of a field
//! by base tag and option letter.

use vstd::prelude::*;
use crate::field_map::{map_get, pos_views, FieldMap, PosValue, TagGroup};
use crate::text::{
    chars_eq, ends_with, from_chars, in_str_list, is_ascii_upper, starts_with, starts_with_exec,
    str_views, string_chars, to_chars,
};

verus! {

/// Parsing context that flows through the parsing pipeline
#[derive(Debug, Clone)]
pub struct ParsingContext {
    /// Current field being parsed
    pub current_field: Option<String>,
    /// Current component being parsed
    pub current_component: Option<String>,
    /// Message type
    pub message_type: String,
    /// Original message for context
    pub original_message: String,
}

impl ParsingContext {
    /// Create a new parsing context
    pub fn new(message_type: String, original_message: String) -> (c: ParsingContext)
        ensures
            c.current_field is None,
            c.current_component is None,
            c.message_type == message_type,
            c.original_message == original_message,
    {
        ParsingContext {
            current_field: None,
            current_component: None,
            message_type,
            original_message,
        }
    }

    /// A copy of this context.
    fn copy(&self) -> (c: ParsingContext)
        ensures
            c == *self,
    {
        ParsingContext {
            current_field: match &self.current_field {
                Some(f) => Some(f.clone()),
                None => None,
            },
            current_component: match &self.current_component {
                Some(f) => Some(f.clone()),
                None => None,
            },
            message_type: self.message_type.clone(),
            original_message: self.original_message.clone(),
        }
    }

    /// Create a context with field information
    pub fn with_field(&self, field: String) -> (c: ParsingContext)
        ensures
            c.current_field == Some(field),
            c.current_component is None,
            c.message_type == self.message_type,
            c.original_message == self.original_message,
    {
        let mut ctx = self.copy();
        ctx.current_field = Some(field);
        ctx.current_component = None;
        ctx
    }

    /// Create a context with component information
    pub fn with_component(&self, component: String) -> (c: ParsingContext)
        ensures
            c.current_field == self.current_field,
            c.current_component == Some(component),
            c.message_type == self.message_type,
            c.original_message == self.original_message,
    {
        let mut ctx = self.copy();
        ctx.current_component = Some(component);
        ctx
    }
}

/// A (tag, position) pair that has been consumed.
pub type Consumed = (Seq<char>, usize);

/// Field consumption tracker for sequential processing of duplicate fields
#[derive(Debug)]
pub struct FieldConsumptionTracker {
    consumed_indices: Vec<(String, usize)>,
}

impl View for FieldConsumptionTracker {
    type V = Set<Consumed>;

    closed spec fn view(&self) -> Set<Consumed> {
        Set::new(
            |p: Consumed|
                exists|i: int|
                    0 <= i < self.consumed_indices@.len() && (
                    #[trigger] self.consumed_indices@[i]).0@ == p.0
                        && self.consumed_indices@[i].1 == p.1,
        )
    }
}

/// The index of the first value under `tag` whose position is not consumed.
pub open spec fn first_available(c: Set<Consumed>, tag: Seq<char>, vals: Seq<PosValue>) -> Option<
    int,
>
    decreases vals.len(),
{
    if vals.len() == 0 {
        None
    } else {
        match first_available(c, tag, vals.drop_last()) {
            Some(j) => Some(j),
            None => if c.contains((tag, vals.last().1)) {
                None
            } else {
                Some(vals.len() - 1)
            },
        }
    }
}

/// The smallest position under `tag` that is not consumed (`usize::MAX` if none).
pub open spec fn min_unconsumed(c: Set<Consumed>, tag: Seq<char>, vals: Seq<PosValue>) -> int
    decreases vals.len(),
{
    if vals.len() == 0 {
        usize::MAX as int
    } else {
        let rest = min_unconsumed(c, tag, vals.drop_last());
        let here = if c.contains((tag, vals.last().1)) {
            usize::MAX as int
        } else {
            vals.last().1 as int
        };
        if here < rest {
            here
        } else {
            rest
        }
    }
}

/// Some position of `tag` has been consumed.
pub open spec fn any_consumed(c: Set<Consumed>, tag: Seq<char>) -> bool {
    exists|p: usize| c.contains((tag, p))
}

pub proof fn lemma_first_available(c: Set<Consumed>, tag: Seq<char>, vals: Seq<PosValue>)
    ensures
        first_available(c, tag, vals) matches Some(j) ==> 0 <= j < vals.len() && !c.contains(
            (tag, vals[j].1),
        ) && forall|k: int| 0 <= k < j ==> c.contains((tag, #[trigger] vals[k].1)),
        first_available(c, tag, vals) is None ==> forall|k: int|
            0 <= k < vals.len() ==> c.contains((tag, #[trigger] vals[k].1)),
    decreases vals.len(),
{
    if vals.len() > 0 {
        lemma_first_available(c, tag, vals.drop_last());
        assert forall|k: int| 0 <= k < vals.len() - 1 implies vals[k] == vals.drop_last()[k] by {}
    }
}

/// A consumed value is never handed out again: after marking `(tag, pos)`
/// consumed, the next available value of `tag`, if any, has another
/// position; and values are handed out in order, each before any later one
/// that is still free.
pub proof fn lemma_marked_not_available(c: Set<Consumed>, tag: Seq<char>, vals: Seq<PosValue>, pos: usize)
    ensures
        first_available(c.insert((tag, pos)), tag, vals) matches Some(j) ==> vals[j].1 != pos,
        first_available(c.insert((tag, pos)), tag, vals) matches Some(j) ==> forall|k: int|
            0 <= k < j ==> c.insert((tag, pos)).contains((tag, #[trigger] vals[k].1)),
{
    lemma_first_available(c.insert((tag, pos)), tag, vals);
}

/// Taking the next available value and marking it consumed moves on: the
/// value found next is a later one.
pub proof fn lemma_take_moves_on(c: Set<Consumed>, tag: Seq<char>, vals: Seq<PosValue>)
    requires
        first_available(c, tag, vals) is Some,
    ensures
        ({
            let j = first_available(c, tag, vals)->0;
            first_available(c.insert((tag, vals[j].1)), tag, vals) matches Some(k) ==> k > j
        }),
{
    let j = first_available(c, tag, vals)->0;
    lemma_first_available(c, tag, vals);
    lemma_first_available(c.insert((tag, vals[j].1)), tag, vals);
    let c2 = c.insert((tag, vals[j].1));
    if let Some(k) = first_available(c2, tag, vals) {
        if k < j {
            assert(c.contains((tag, vals[k].1)));
        }
        if k == j {
            assert(c2.contains((tag, vals[j].1)));
        }
    }
}

impl FieldConsumptionTracker {
    /// Create a new consumption tracker
    pub fn new() -> (t: FieldConsumptionTracker)
        ensures
            t@ == Set::<Consumed>::empty(),
    {
        let t = FieldConsumptionTracker { consumed_indices: Vec::new() };
        assert(t@ =~= Set::<Consumed>::empty());
        t
    }

    /// The value at `pos` under `tag` has been consumed.
    pub fn is_consumed(&self, tag: &Vec<char>, pos: usize) -> (b: bool)
        ensures
            b == self@.contains((tag@, pos)),
    {
        let mut i: usize = 0;
        while i < self.consumed_indices.len()
            invariant
                i <= self.consumed_indices.len(),
                forall|j: int|
                    0 <= j < i ==> !((#[trigger] self.consumed_indices@[j]).0@ == tag@
                        && self.consumed_indices@[j].1 == pos),
            decreases self.consumed_indices.len() - i,
        {
            if self.consumed_indices[i].1 == pos {
                let k = string_chars(&self.consumed_indices[i].0);
                if chars_eq(&k, tag) {
                    return true;
                }
            }
            i = i + 1;
        }
        false
    }

    /// Some value under `tag` has been consumed.
    pub fn has_consumed(&self, tag: &Vec<char>) -> (b: bool)
        ensures
            b == any_consumed(self@, tag@),
    {
        let mut i: usize = 0;
        while i < self.consumed_indices.len()
            invariant
                i <= self.consumed_indices.len(),
                forall|j: int|
                    0 <= j < i ==> (#[trigger] self.consumed_indices@[j]).0@ != tag@,
            decreases self.consumed_indices.len() - i,
        {
            let k = string_chars(&self.consumed_indices[i].0);
            if chars_eq(&k, tag) {
                assert(self@.contains((tag@, self.consumed_indices@[i as int].1)));
                return true;
            }
            i = i + 1;
        }
        proof {
            if any_consumed(self@, tag@) {
                let p = choose|p: usize| self@.contains((tag@, p));
                assert(self@.contains((tag@, p)));
            }
        }
        false
    }

    /// Mark a field value at a specific position as consumed
    pub fn mark_consumed(&mut self, tag: &str, index: usize)
        ensures
            final(self)@ == old(self)@.insert((tag@, index)),
    {
        let t = to_chars(tag);
        self.mark_consumed_chars(&t, index);
    }

    /// `mark_consumed` with the tag given as characters.
    pub fn mark_consumed_chars(&mut self, tag: &Vec<char>, index: usize)
        ensures
            final(self)@ == old(self)@.insert((tag@, index)),
    {
        if self.is_consumed(tag, index) {
            assert(self@.insert((tag@, index)) =~= self@);
            return ;
        }
        let ghost before = self@;
        self.consumed_indices.push((from_chars(tag), index));
        proof {
            assert forall|p: Consumed| self@.contains(p) <==> before.insert((tag@, index)).contains(
                p,
            ) by {
                if before.contains(p) {
                    let i = choose|i: int|
                        0 <= i < old(self).consumed_indices@.len() && (
                        #[trigger] old(self).consumed_indices@[i]).0@ == p.0
                            && old(self).consumed_indices@[i].1 == p.1;
                    assert(self.consumed_indices@[i] == old(self).consumed_indices@[i]);
                }
                if self@.contains(p) {
                    let i = choose|i: int|
                        0 <= i < self.consumed_indices@.len() && (
                        #[trigger] self.consumed_indices@[i]).0@ == p.0
                            && self.consumed_indices@[i].1 == p.1;
                    if i < old(self).consumed_indices@.len() {
                        assert(self.consumed_indices@[i] == old(self).consumed_indices@[i]);
                    }
                }
                if p == (tag@, index) {
                    let last = self.consumed_indices@.len() - 1;
                    assert(self.consumed_indices@[last].0@ == p.0);
                }
            }
            assert(self@ =~= before.insert((tag@, index)));
        }
    }

    /// The index of the first value under `tag` that is not consumed.
    pub fn first_available_index(&self, tag: &Vec<char>, values: &Vec<(String, usize)>) -> (r:
        Option<usize>)
        ensures
            match r {
                Some(j) => first_available(self@, tag@, pos_views(values@)) == Some(j as int),
                None => first_available(self@, tag@, pos_views(values@)) is None,
            },
    {
        let ghost pv = pos_views(values@);
        let mut j: usize = 0;
        while j < values.len()
            invariant
                j <= values.len(),
                pv == pos_views(values@),
                first_available(self@, tag@, pv.take(j as int)) is None,
            decreases values.len() - j,
        {
            proof {
                assert(pv.take(j + 1).drop_last() =~= pv.take(j as int));
                assert(pv.take(j + 1).last() == pv[j as int]);
            }
            if !self.is_consumed(tag, values[j].1) {
                proof {
                    lemma_first_available_prefix(self@, tag@, pv, j as int);
                }
                return Some(j);
            }
            j = j + 1;
        }
        assert(pv.take(values.len() as int) =~= pv);
        None
    }

    /// The smallest position under `tag` that is not consumed (`usize::MAX` if none).
    pub fn min_unconsumed_position(&self, tag: &Vec<char>, values: &Vec<(String, usize)>) -> (r:
        usize)
        ensures
            r as int == min_unconsumed(self@, tag@, pos_views(values@)),
    {
        let ghost pv = pos_views(values@);
        let mut m: usize = usize::MAX;
        let mut j: usize = 0;
        assert(pv.take(0) =~= Seq::<PosValue>::empty());
        while j < values.len()
            invariant
                j <= values.len(),
                pv == pos_views(values@),
                m as int == min_unconsumed(self@, tag@, pv.take(j as int)),
            decreases values.len() - j,
        {
            proof {
                assert(pv.take(j + 1).drop_last() =~= pv.take(j as int));
                assert(pv.take(j + 1).last() == pv[j as int]);
            }
            let here = if self.is_consumed(tag, values[j].1) {
                usize::MAX
            } else {
                values[j].1
            };
            if here < m {
                m = here;
            }
            j = j + 1;
        }
        assert(pv.take(values.len() as int) =~= pv);
        m
    }

    /// Get the next available (unconsumed) field value for a tag
    pub fn get_next_available<'a>(&self, tag: &str, values: &'a Vec<(String, usize)>) -> (r:
        Option<(&'a str, usize)>)
        ensures
            match first_available(self@, tag@, pos_views(values@)) {
                Some(j) => r matches Some(p) && p.0@ == values@[j].0@ && p.1 == values@[j].1,
                None => r is None,
            },
    {
        let t = to_chars(tag);
        proof {
            lemma_first_available(self@, tag@, pos_views(values@));
        }
        match self.first_available_index(&t, values) {
            Some(j) => Some((values[j].0.as_str(), values[j].1)),
            None => None,
        }
    }
}

proof fn lemma_first_available_prefix(c: Set<Consumed>, tag: Seq<char>, vals: Seq<PosValue>, j: int)
    requires
        0 <= j < vals.len(),
        first_available(c, tag, vals.take(j)) is None,
        !c.contains((tag, vals[j].1)),
    ensures
        first_available(c, tag, vals) == Some(j),
    decreases vals.len() - j,
{
    if j + 1 < vals.len() {
        assert(vals.drop_last().take(j) =~= vals.take(j));
        lemma_first_available_prefix(c, tag, vals.drop_last(), j);
    } else {
        assert(vals.drop_last() =~= vals.take(j));
    }
}

/// Marking a value of `tag` as consumed leaves what is free under every
/// other tag as it was, and marking it a second time changes nothing.
pub proof fn lemma_mark_consumed_other(c: Set<Consumed>, tag: Seq<char>, index: usize, u: Seq<char>, vals: Seq<PosValue>)
    requires
        u != tag,
    ensures
        first_available(c.insert((tag, index)), u, vals) == first_available(c, u, vals),
        c.insert((tag, index)).insert((tag, index)) == c.insert((tag, index)),
    decreases vals.len(),
{
    assert(c.insert((tag, index)).insert((tag, index)) =~= c.insert((tag, index)));
    if vals.len() > 0 {
        lemma_mark_consumed_other(c, tag, index, u, vals.drop_last());
        assert(c.insert((tag, index)).contains((u, vals.last().1)) == c.contains((u, vals.last().1)));
    }
}

/// `t` is `base` followed by one upper-case option letter.
pub open spec fn is_variant_tag(base: Seq<char>, t: Seq<char>) -> bool {
    t.len() == base.len() + 1 && starts_with(t, base) && is_ascii_upper(t.last())
}

/// The option letter of a variant tag, as a string.
pub open spec fn variant_of(t: Seq<char>) -> Seq<char> {
    seq![t.last()]
}

/// The groups of `m` (by index, in map order) whose tags are variants of `base`.
pub open spec fn variant_candidates(m: Seq<TagGroup>, base: Seq<char>) -> Seq<int> {
    Seq::new(m.len(), |i: int| i).filter(|i: int| is_variant_tag(base, m[i].0))
}

/// The option letters that a routing strategy prefers for `base`: C and L
/// for the instructing party (when no field 50 has been consumed yet), A, F
/// and K for the creditor.
pub open spec fn preferred_variants(instructing: bool, base: Seq<char>) -> Option<Seq<Seq<char>>> {
    if base == "50"@ {
        if instructing {
            Some(seq!["C"@, "L"@])
        } else {
            Some(seq!["A"@, "F"@, "K"@])
        }
    } else {
        None
    }
}

/// The group at `i` has a preferred option letter.
pub open spec fn is_preferred(m: Seq<TagGroup>, pref: Seq<Seq<char>>, i: int) -> bool {
    pref.contains(variant_of(m[i].0))
}

/// None of the candidate groups has a consumed value.
pub open spec fn none_consumed(m: Seq<TagGroup>, cands: Seq<int>, c: Set<Consumed>) -> bool {
    forall|k: int| 0 <= k < cands.len() ==> !any_consumed(c, m[#[trigger] cands[k]].0)
}

/// The candidates reordered so that the preferred option letters come
/// first, each part in its former order.
pub open spec fn routed_candidates(
    m: Seq<TagGroup>,
    cands: Seq<int>,
    c: Set<Consumed>,
    base: Seq<char>,
) -> Seq<int> {
    match preferred_variants(none_consumed(m, cands, c), base) {
        Some(p) => cands.filter(|i: int| is_preferred(m, p, i)) + cands.filter(
            |i: int| !is_preferred(m, p, i),
        ),
        None => cands,
    }
}

/// The variant of group `g` is allowed.
pub open spec fn variant_allowed(m: Seq<TagGroup>, valid: Option<Seq<Seq<char>>>, g: int) -> bool {
    match valid {
        Some(v) => v.contains(variant_of(m[g].0)),
        None => true,
    }
}

/// Group `g` is allowed and still has a free value.
pub open spec fn eligible(
    m: Seq<TagGroup>,
    c: Set<Consumed>,
    valid: Option<Seq<Seq<char>>>,
    g: int,
) -> bool {
    variant_allowed(m, valid, g) && first_available(c, m[g].0, m[g].1) is Some
}

/// The sort key of group `g`: its smallest free position.
pub open spec fn group_key(m: Seq<TagGroup>, c: Set<Consumed>, g: int) -> int {
    min_unconsumed(c, m[g].0, m[g].1)
}

/// Entry `k` of the ordered candidates is the one the lookup takes: eligible,
/// with the smallest key, and first in order among equal keys.
pub open spec fn chosen_at(
    m: Seq<TagGroup>,
    c: Set<Consumed>,
    valid: Option<Seq<Seq<char>>>,
    order: Seq<int>,
    k: int,
) -> bool {
    &&& 0 <= k < order.len()
    &&& eligible(m, c, valid, order[k])
    &&& forall|k2: int|
        0 <= k2 < order.len() && eligible(m, c, valid, #[trigger] order[k2]) ==> group_key(
            m,
            c,
            order[k],
        ) < group_key(m, c, order[k2]) || (group_key(m, c, order[k]) == group_key(
            m,
            c,
            order[k2],
        ) && k <= k2)
}

/// The order in which the lookup considers the variant groups.
pub open spec fn lookup_order(
    m: Seq<TagGroup>,
    c: Set<Consumed>,
    base: Seq<char>,
    valid: Option<Seq<Seq<char>>>,
) -> Seq<int> {
    if base == "50"@ && valid is Some {
        routed_candidates(m, variant_candidates(m, base), c, base)
    } else {
        variant_candidates(m, base)
    }
}

/// The free value of `base` itself, if it has one.
pub open spec fn exact_hit(m: Seq<TagGroup>, c: Set<Consumed>, base: Seq<char>) -> Option<PosValue> {
    match map_get(m, base) {
        Some(vals) => match first_available(c, base, vals) {
            Some(j) => Some(vals[j]),
            None => None,
        },
        None => None,
    }
}

/// The views of an optional list of option letters.
pub open spec fn opt_str_views(v: Option<&[&str]>) -> Option<Seq<Seq<char>>> {
    match v {
        Some(l) => Some(str_views(l@)),
        None => None,
    }
}

/// The result of a field lookup as views: value, option letter, position.
pub open spec fn lookup_view(r: Option<(String, Option<String>, usize)>) -> Option<
    (Seq<char>, Option<Seq<char>>, usize),
> {
    match r {
        Some(x) => Some(
            (
                x.0@,
                match x.1 {
                    Some(v) => Some(v@),
                    None => None,
                },
                x.2,
            ),
        ),
        None => None,
    }
}

/// What a lookup of `base` gives and consumes: a free value of `base`
/// itself; otherwise the free value of the chosen variant group; otherwise
/// nothing, with nothing consumed.
pub open spec fn lookup_spec(
    m: Seq<TagGroup>,
    c: Set<Consumed>,
    base: Seq<char>,
    valid: Option<Seq<Seq<char>>>,
    r: Option<(Seq<char>, Option<Seq<char>>, usize)>,
    c2: Set<Consumed>,
) -> bool {
    match exact_hit(m, c, base) {
        Some(v) => r == Some((v.0, None::<Seq<char>>, v.1)) && c2 == c.insert((base, v.1)),
        None => {
            let order = lookup_order(m, c, base, valid);
            match r {
                None => c2 == c && forall|k: int|
                    0 <= k < order.len() ==> !eligible(m, c, valid, #[trigger] order[k]),
                Some(x) => exists|k: int|
                    #![trigger order[k]]
                    chosen_at(m, c, valid, order, k) && {
                        let g = order[k];
                        let j = first_available(c, m[g].0, m[g].1)->0;
                        &&& x.0 == m[g].1[j].0
                        &&& x.1 == Some(variant_of(m[g].0))
                        &&& x.2 == m[g].1[j].1
                        &&& c2 == c.insert((m[g].0, m[g].1[j].1))
                    },
            }
        },
    }
}

/// Field routing strategy for numbered field tags
#[derive(Debug, Clone, Copy)]
enum FieldRoutingStrategy {
    /// For Field50InstructingParty - typically uses C, L variants
    InstructingParty,
    /// For Field50Creditor - typically uses A, F, K variants
    CreditorParty,
}

impl FieldRoutingStrategy {
    /// Get preferred variants for this routing strategy
    fn get_preferred_variants(&self, base_tag: &Vec<char>) -> (r: Option<Vec<&'static str>>)
        ensures
            match r {
                Some(v) => preferred_variants(*self is InstructingParty, base_tag@) == Some(
                    str_views(v@),
                ),
                None => preferred_variants(*self is InstructingParty, base_tag@) is None,
            },
    {
        let fifty = to_chars("50");
        if !chars_eq(base_tag, &fifty) {
            return None;
        }
        match self {
            FieldRoutingStrategy::InstructingParty => {
                let v: Vec<&'static str> = vec!["C", "L"];
                assert(str_views(v@) =~= seq!["C"@, "L"@]);
                Some(v)
            },
            FieldRoutingStrategy::CreditorParty => {
                let v: Vec<&'static str> = vec!["A", "F", "K"];
                assert(str_views(v@) =~= seq!["A"@, "F"@, "K"@]);
                Some(v)
            },
        }
    }
}

/// The option letter of a tag, as a string.
fn last_char_string(t: &Vec<char>) -> (r: Vec<char>)
    requires
        t.len() > 0,
    ensures
        r@ == variant_of(t@),
{
    let r: Vec<char> = vec![t[t.len() - 1]];
    assert(r@ =~= variant_of(t@));
    r
}

/// Apply intelligent routing strategy for Field 50 numbered fields: when no
/// candidate has been consumed yet, the instructing party variants (C, L)
/// come first, otherwise the creditor variants (A, F, K).
fn apply_field50_routing_strategy(
    fields: &FieldMap,
    candidates: Vec<usize>,
    tracker: &FieldConsumptionTracker,
    base_tag: &Vec<char>,
) -> (r: Vec<usize>)
    requires
        forall|k: int| 0 <= k < candidates@.len() ==> #[trigger] candidates@[k] < fields@.len(),
        forall|k: int| 0 <= k < candidates@.len() ==> fields@[#[trigger] candidates@[k] as int].0.len() > 0,
    ensures
        r@.map_values(|x: usize| x as int) == routed_candidates(
            fields@,
            candidates@.map_values(|x: usize| x as int),
            tracker@,
            base_tag@,
        ),
{
    let ghost cands = candidates@.map_values(|x: usize| x as int);
    let mut consumed_count: usize = 0;
    let mut i: usize = 0;
    while i < candidates.len()
        invariant
            i <= candidates.len(),
            cands == candidates@.map_values(|x: usize| x as int),
            forall|k: int| 0 <= k < candidates@.len() ==> #[trigger] candidates@[k] < fields@.len(),
            consumed_count <= i,
            consumed_count == 0 <==> forall|k: int|
                0 <= k < i ==> !any_consumed(tracker@, fields@[#[trigger] cands[k]].0),
        decreases candidates.len() - i,
    {
        let (tag, _) = fields.group(candidates[i]);
        let t = string_chars(tag);
        assert(cands[i as int] == candidates@[i as int] as int);
        assert(t@ == fields@[cands[i as int]].0);
        if tracker.has_consumed(&t) {
            consumed_count = consumed_count + 1;
        }
        i = i + 1;
    }
    let strategy = if consumed_count == 0 {
        FieldRoutingStrategy::InstructingParty
    } else {
        FieldRoutingStrategy::CreditorParty
    };
    assert(none_consumed(fields@, cands, tracker@) == (consumed_count == 0));
    match strategy.get_preferred_variants(base_tag) {
        None => candidates,
        Some(preferred) => {
            let ghost p = str_views(preferred@);
            let mut first: Vec<usize> = Vec::new();
            let mut rest: Vec<usize> = Vec::new();
            let mut k: usize = 0;
            while k < candidates.len()
                invariant
                    k <= candidates.len(),
                    cands == candidates@.map_values(|x: usize| x as int),
                    p == str_views(preferred@),
                    forall|q: int| 0 <= q < candidates@.len() ==> #[trigger] candidates@[q] < fields@.len(),
                    forall|q: int| 0 <= q < candidates@.len() ==> fields@[#[trigger] candidates@[q] as int].0.len() > 0,
                    first@.map_values(|x: usize| x as int) == cands.take(k as int).filter(
                        |i: int| is_preferred(fields@, p, i),
                    ),
                    rest@.map_values(|x: usize| x as int) == cands.take(k as int).filter(
                        |i: int| !is_preferred(fields@, p, i),
                    ),
                decreases candidates.len() - k,
            {
                let g = candidates[k];
                let (tag, _) = fields.group(g);
                let t = string_chars(tag);
                let v = last_char_string(&t);
                let ghost t1 = cands.take(k + 1);
                proof {
                    reveal(Seq::filter);
                    assert(t1.drop_last() =~= cands.take(k as int));
                    assert(t1.last() == g as int);
                }
                if in_str_list(&v, preferred.as_slice()) {
                    first.push(g);
                    proof {
                        assert(first@.map_values(|x: usize| x as int) =~= cands.take(k as int).filter(
                            |i: int| is_preferred(fields@, p, i),
                        ).push(g as int));
                    }
                } else {
                    rest.push(g);
                    proof {
                        assert(rest@.map_values(|x: usize| x as int) =~= cands.take(k as int).filter(
                            |i: int| !is_preferred(fields@, p, i),
                        ).push(g as int));
                    }
                }
                k = k + 1;
            }
            assert(cands.take(candidates.len() as int) =~= cands);
            let ghost f0 = first@;
            let mut j: usize = 0;
            while j < rest.len()
                invariant
                    j <= rest.len(),
                    first@ == f0 + rest@.take(j as int),
                decreases rest.len() - j,
            {
                first.push(rest[j]);
                j = j + 1;
                assert(first@ =~= f0 + rest@.take(j as int));
            }
            assert(rest@.take(rest.len() as int) =~= rest@);
            assert(first@.map_values(|x: usize| x as int) =~= f0.map_values(|x: usize| x as int)
                + rest@.map_values(|x: usize| x as int));
            first
        },
    }
}

/// `t` is `base` followed by one upper-case option letter.
fn is_variant_tag_exec(base: &Vec<char>, t: &Vec<char>) -> (r: bool)
    ensures
        r == is_variant_tag(base@, t@),
{
    t.len() > 0 && t.len() - 1 == base.len() && starts_with_exec(t, base) && 'A' <= t[t.len() - 1]
        && t[t.len() - 1] <= 'Z'
}

/// The groups of `fields` whose tags are variants of `base`, in map order.
fn collect_variant_candidates(fields: &FieldMap, base: &Vec<char>) -> (r: Vec<usize>)
    ensures
        r@.map_values(|x: usize| x as int) == variant_candidates(fields@, base@),
        forall|k: int| 0 <= k < r@.len() ==> #[trigger] r@[k] < fields@.len(),
        forall|k: int| 0 <= k < r@.len() ==> fields@[#[trigger] r@[k] as int].0.len() > 0,
{
    let ghost ids = Seq::new(fields@.len(), |i: int| i);
    let mut out: Vec<usize> = Vec::new();
    let mut g: usize = 0;
    while g < fields.len()
        invariant
            g <= fields@.len(),
            ids == Seq::new(fields@.len(), |i: int| i),
            out@.map_values(|x: usize| x as int) == ids.take(g as int).filter(
                |i: int| is_variant_tag(base@, fields@[i].0),
            ),
            forall|k: int| 0 <= k < out@.len() ==> #[trigger] out@[k] < g,
            forall|k: int| 0 <= k < out@.len() ==> fields@[#[trigger] out@[k] as int].0.len() > 0,
        decreases fields@.len() - g,
    {
        let (tag, _) = fields.group(g);
        let t = string_chars(tag);
        proof {
            reveal(Seq::filter);
            assert(ids.take(g + 1).drop_last() =~= ids.take(g as int));
            assert(ids.take(g + 1).last() == g as int);
        }
        if is_variant_tag_exec(base, &t) {
            out.push(g);
            proof {
                assert(out@.map_values(|x: usize| x as int) =~= ids.take(g as int).filter(
                    |i: int| is_variant_tag(base@, fields@[i].0),
                ).push(g as int));
            }
        }
        g = g + 1;
    }
    assert(ids.take(fields@.len() as int) =~= ids);
    out
}

/// Find field values by base tag with sequential consumption tracking and variant constraints
///
/// A free value of `base_tag` itself comes first.  Otherwise the groups
/// whose tags are `base_tag` plus an option letter are considered (for
/// field 50 with constraints, in the routed order), and among those whose
/// letter is allowed and that still have a free value, the one whose
/// smallest free position is least (first in order on ties) gives its first
/// free value.  The value taken is marked consumed.
pub fn find_field_with_variant_sequential_constrained(
    fields: &FieldMap,
    base_tag: &str,
    tracker: &mut FieldConsumptionTracker,
    valid_variants: Option<&[&str]>,
) -> (r: Option<(String, Option<String>, usize)>)
    ensures
        lookup_spec(
            fields@,
            old(tracker)@,
            base_tag@,
            opt_str_views(valid_variants),
            lookup_view(r),
            final(tracker)@,
        ),
{
    let base = to_chars(base_tag);
    let ghost c0 = tracker@;
    let ghost valid = opt_str_views(valid_variants);
    match fields.get_chars(&base) {
        Some(values) => {
            match tracker.first_available_index(&base, values) {
                Some(j) => {
                    proof {
                        lemma_first_available(c0, base@, pos_views(values@));
                    }
                    let value = values[j].0.clone();
                    let pos = values[j].1;
                    tracker.mark_consumed_chars(&base, pos);
                    return Some((value, None, pos));
                },
                None => {},
            }
        },
        None => {},
    }
    assert(exact_hit(fields@, c0, base@) is None);
    let mut cands = collect_variant_candidates(fields, &base);
    let fifty = to_chars("50");
    let routing = chars_eq(&base, &fifty) && valid_variants.is_some();
    if routing {
        cands = apply_field50_routing_strategy(fields, cands, tracker, &base);
    }
    let ghost order = lookup_order(fields@, c0, base@, valid);
    assert(cands@.map_values(|x: usize| x as int) == order);
    proof {
        assert forall|k: int| 0 <= k < cands@.len() implies #[trigger] cands@[k] < fields@.len() by {
            if routing {
                assert(order[k] == cands@[k] as int);
                reveal(Seq::filter);
                lemma_order_in_range(fields@, c0, base@, valid, k);
            }
        }
    }
    let mut best_k: usize = 0;
    let mut best_key: usize = 0;
    let mut found = false;
    let mut k: usize = 0;
    while k < cands.len()
        invariant
            k <= cands.len(),
            tracker@ == c0,
            valid == opt_str_views(valid_variants),
            cands@.map_values(|x: usize| x as int) == order,
            order == lookup_order(fields@, c0, base@, valid),
            forall|q: int| 0 <= q < cands@.len() ==> #[trigger] cands@[q] < fields@.len(),
            !found ==> forall|q: int| 0 <= q < k ==> !eligible(fields@, c0, valid, #[trigger] order[q]),
            found ==> best_k < k && eligible(fields@, c0, valid, order[best_k as int])
                && best_key as int == group_key(fields@, c0, order[best_k as int]) && forall|q: int|
                0 <= q < k && eligible(fields@, c0, valid, #[trigger] order[q]) ==> best_key
                < group_key(fields@, c0, order[q]) || (best_key == group_key(fields@, c0, order[q])
                && best_k <= q),
        decreases cands.len() - k,
    {
        let g = cands[k];
        assert(order[k as int] == g as int);
        let (tag, values) = fields.group(g);
        let t = string_chars(tag);
        let allowed = match valid_variants {
            Some(list) => {
                if t.len() > 0 {
                    let v = last_char_string(&t);
                    in_str_list(&v, list)
                } else {
                    false
                }
            },
            None => true,
        };
        proof {
            if t@.len() == 0 {
                lemma_order_variant(fields@, c0, base@, valid, k as int);
            }
        }
        assert(allowed == variant_allowed(fields@, valid, g as int));
        if allowed {
            match tracker.first_available_index(&t, values) {
                Some(_) => {
                    let key = tracker.min_unconsumed_position(&t, values);
                    if !found || key < best_key {
                        best_k = k;
                        best_key = key;
                        found = true;
                    }
                },
                None => {},
            }
        }
        k = k + 1;
    }
    if !found {
        assert(tracker@ == c0);
        return None;
    }
    let g = cands[best_k];
    let (tag, values) = fields.group(g);
    let t = string_chars(tag);
    proof {
        lemma_order_variant(fields@, c0, base@, valid, best_k as int);
    }
    let v = last_char_string(&t);
    match tracker.first_available_index(&t, values) {
        Some(j) => {
            proof {
                lemma_first_available(c0, t@, pos_views(values@));
            }
            let value = values[j].0.clone();
            let pos = values[j].1;
            tracker.mark_consumed_chars(&t, pos);
            proof {
                assert(chosen_at(fields@, c0, valid, order, best_k as int));
            }
            Some((value, Some(from_chars(&v)), pos))
        },
        None => {
            proof {
                assert(false);
            }
            None
        },
    }
}

/// The groups that a lookup considers are groups of the map.
proof fn lemma_order_in_range(
    m: Seq<TagGroup>,
    c: Set<Consumed>,
    base: Seq<char>,
    valid: Option<Seq<Seq<char>>>,
    k: int,
)
    requires
        0 <= k < lookup_order(m, c, base, valid).len(),
    ensures
        0 <= lookup_order(m, c, base, valid)[k] < m.len(),
{
    lemma_order_variant(m, c, base, valid, k);
}

/// The groups that a lookup considers have variant tags of `base`.
pub proof fn lemma_order_variant(
    m: Seq<TagGroup>,
    c: Set<Consumed>,
    base: Seq<char>,
    valid: Option<Seq<Seq<char>>>,
    k: int,
)
    requires
        0 <= k < lookup_order(m, c, base, valid).len(),
    ensures
        0 <= lookup_order(m, c, base, valid)[k] < m.len(),
        is_variant_tag(base, m[lookup_order(m, c, base, valid)[k]].0),
{
    let ids = Seq::new(m.len(), |i: int| i);
    let pred = |i: int| is_variant_tag(base, m[i].0);
    let cands = ids.filter(pred);
    assert(cands == variant_candidates(m, base));
    let order = lookup_order(m, c, base, valid);
    let x = order[k];
    if base == "50"@ && valid is Some {
        match preferred_variants(none_consumed(m, cands, c), base) {
            Some(p) => {
                let pa = |i: int| is_preferred(m, p, i);
                let pb = |i: int| !is_preferred(m, p, i);
                let a = cands.filter(pa);
                let b = cands.filter(pb);
                assert(order == a + b);
                if k < a.len() {
                    assert(a.contains(a[k]));
                    cands.lemma_filter_contains_rev(pa, a[k]);
                } else {
                    assert(b.contains(b[k - a.len()]));
                    cands.lemma_filter_contains_rev(pb, b[k - a.len()]);
                }
            },
            None => {
                assert(cands.contains(cands[k]));
            },
        }
    } else {
        assert(cands.contains(cands[k]));
    }
    assert(cands.contains(x));
    let q = choose|q: int| 0 <= q < cands.len() && cands[q] == x;
    ids.lemma_filter_pred(pred, q);
    ids.lemma_filter_contains_rev(pred, x);
    let w = choose|w: int| 0 <= w < ids.len() && ids[w] == x;
    assert(ids[w] == w);
}

/// Every group whose tag is a variant of `base` is among those that a
/// lookup considers.
pub proof fn lemma_order_contains(
    m: Seq<TagGroup>,
    c: Set<Consumed>,
    base: Seq<char>,
    valid: Option<Seq<Seq<char>>>,
    g: int,
)
    requires
        0 <= g < m.len(),
        is_variant_tag(base, m[g].0),
    ensures
        lookup_order(m, c, base, valid).contains(g),
{
    let ids = Seq::new(m.len(), |i: int| i);
    let pred = |i: int| is_variant_tag(base, m[i].0);
    let cands = ids.filter(pred);
    assert(cands == variant_candidates(m, base));
    assert(ids[g] == g);
    ids.lemma_filter_contains(pred, g);
    assert(cands.contains(g));
    let q = choose|q: int| 0 <= q < cands.len() && cands[q] == g;
    let order = lookup_order(m, c, base, valid);
    if base == "50"@ && valid is Some {
        match preferred_variants(none_consumed(m, cands, c), base) {
            Some(p) => {
                let pa = |i: int| is_preferred(m, p, i);
                let pb = |i: int| !is_preferred(m, p, i);
                let a = cands.filter(pa);
                let b = cands.filter(pb);
                assert(order == a + b);
                if is_preferred(m, p, g) {
                    cands.lemma_filter_contains(pa, q);
                    let w = choose|w: int| 0 <= w < a.len() && a[w] == g;
                    assert(order[w] == g);
                } else {
                    cands.lemma_filter_contains(pb, q);
                    let w = choose|w: int| 0 <= w < b.len() && b[w] == g;
                    assert(order[a.len() + w] == g);
                }
            },
            None => {},
        }
    }
}

/// Find field values for numbered tags with intelligent routing
pub fn find_field_with_variant_sequential_numbered(
    fields: &FieldMap,
    base_tag: &str,
    tracker: &mut FieldConsumptionTracker,
    valid_variants: Option<Vec<&str>>,
    _numbered_tag: &str,
) -> (r: Option<(String, Option<String>, usize)>)
    ensures
        lookup_spec(
            fields@,
            old(tracker)@,
            base_tag@,
            match valid_variants {
                Some(v) => Some(str_views(v@)),
                None => None,
            },
            lookup_view(r),
            final(tracker)@,
        ),
{
    match &valid_variants {
        Some(v) => find_field_with_variant_sequential_constrained(
            fields,
            base_tag,
            tracker,
            Some(v.as_slice()),
        ),
        None => find_field_with_variant_sequential_constrained(fields, base_tag, tracker, None),
    }
}

} // verus!
