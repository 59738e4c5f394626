//! The message parser: the fields of block 4 are filed by tag, and each
//! message type takes them by the rules of its layout, each field once.
//! What no rule took is reported at the end.

use vstd::prelude::*;
use crate::block4::{parse_block4_fields, raw_field_map};
use crate::errors::ParseError;
use crate::field_map::{map_get, pos_views, FieldMap, PosValue, TagGroup};
use crate::parser::consumption::{
    any_consumed, chosen_at, eligible, exact_hit, find_field_with_variant_sequential_constrained,
    first_available, lemma_first_available, lookup_order, lookup_spec, lookup_view,
    opt_str_views, variant_of, Consumed, FieldConsumptionTracker,
};
use crate::text::{append_chars, from_chars, join, str_views, string_chars, to_chars};

verus! {

/// A field as the specifications see it: its tag and its content.
pub type FieldView = (Seq<char>, Seq<char>);

/// A field of a message: its tag as written (with its option letter, if
/// any) and its content.
#[derive(Debug, Clone, PartialEq)]
pub struct RawField {
    pub tag: String,
    pub value: String,
}

impl View for RawField {
    type V = FieldView;

    open spec fn view(&self) -> FieldView {
        (self.tag@, self.value@)
    }
}

/// A field in SWIFT form: `:TAG:content`.
pub open spec fn swift_text(f: FieldView) -> Seq<char> {
    seq![':'] + f.0 + seq![':'] + f.1
}

impl RawField {
    /// A field with the given tag and content.
    pub fn new(tag: &str, value: &str) -> (f: RawField)
        ensures
            f@ == (tag@, value@),
    {
        RawField { tag: tag.to_string(), value: value.to_string() }
    }

    /// The field in SWIFT form, `:TAG:content`.
    pub fn to_swift_string(&self) -> (s: String)
        ensures
            s@ == swift_text(self@),
    {
        let mut v: Vec<char> = Vec::new();
        v.push(':');
        append_chars(&mut v, &string_chars(&self.tag));
        v.push(':');
        append_chars(&mut v, &string_chars(&self.value));
        assert(v@ =~= swift_text(self@));
        from_chars(&v)
    }

    /// A field with the same tag and content.
    pub fn copy(&self) -> (f: RawField)
        ensures
            f@ == self@,
    {
        RawField { tag: self.tag.clone(), value: self.value.clone() }
    }

    /// The content of the field, without its `:TAG:` prefix.
    pub fn to_swift_value(&self) -> (s: String)
        ensures
            s@ == self.value@,
    {
        self.value.clone()
    }
}

/// How a message layout takes a field.
pub enum FieldRule {
    /// Exactly once, under this tag
    Mandatory(&'static str),
    /// At most once, under this tag
    Optional(&'static str),
    /// Every remaining occurrence of this tag, in order
    Repeated(&'static str),
    /// Exactly once, under this field number followed by one of the option
    /// letters; `""` among the letters admits the number alone
    MandatoryOption(&'static str, Vec<&'static str>),
    /// At most once, as for `MandatoryOption`
    OptionalOption(&'static str, Vec<&'static str>),
}

/// A rule as the specifications see it.
#[verifier::ext_equal]
pub enum RuleView {
    Mandatory(Seq<char>),
    Optional(Seq<char>),
    Repeated(Seq<char>),
    MandatoryOption(Seq<char>, Seq<Seq<char>>),
    OptionalOption(Seq<char>, Seq<Seq<char>>),
}

impl View for FieldRule {
    type V = RuleView;

    open spec fn view(&self) -> RuleView {
        match self {
            FieldRule::Mandatory(t) => RuleView::Mandatory(t@),
            FieldRule::Optional(t) => RuleView::Optional(t@),
            FieldRule::Repeated(t) => RuleView::Repeated(t@),
            FieldRule::MandatoryOption(t, o) => RuleView::MandatoryOption(t@, str_views(o@)),
            FieldRule::OptionalOption(t, o) => RuleView::OptionalOption(t@, str_views(o@)),
        }
    }
}

/// The views of a list of rules.
pub open spec fn rule_views(rules: Seq<FieldRule>) -> Seq<RuleView> {
    rules.map_values(|r: FieldRule| r@)
}

/// Why a layout could not take a message, as the specifications see it.
pub enum ErrView {
    /// A mandatory field is absent
    Missing(Seq<char>),
    /// A field was taken a second time where duplicates are not allowed
    Duplicate(Seq<char>),
    /// A field came without the option letter that its rule asks for
    NoOption(Seq<char>),
    /// Fields were left over, by tag
    Leftover(Seq<Seq<char>>),
}

/// `pe` is the parse error that stands for `e`.
pub open spec fn error_is(pe: ParseError, e: ErrView) -> bool {
    match e {
        ErrView::Missing(t) => pe matches ParseError::MissingRequiredField { field_tag }
            && field_tag@ == t,
        ErrView::Duplicate(t) => pe matches ParseError::InvalidFormat { message } && message@
            == "Duplicate field: "@ + t,
        ErrView::NoOption(t) => pe matches ParseError::InvalidFieldFormat { field_tag, message }
            && field_tag@ == t && message@ == "Field requires an option letter"@,
        ErrView::Leftover(ts) => pe matches ParseError::InvalidFormat { message } && message@
            == "Unparsed content remaining in message: "@ + join(ts, ", "@),
    }
}

/// The values filed under `t` (none if the tag is absent).
pub open spec fn values_of(m: Seq<TagGroup>, t: Seq<char>) -> Seq<PosValue> {
    match map_get(m, t) {
        Some(v) => v,
        None => Seq::empty(),
    }
}

/// Every value of `vals` not yet consumed, in order, and the consumption
/// after taking them all.
pub open spec fn take_all(c: Set<Consumed>, t: Seq<char>, vals: Seq<PosValue>) -> (
    Seq<Seq<char>>,
    Set<Consumed>,
)
    decreases vals.len(),
{
    if vals.len() == 0 {
        (Seq::empty(), c)
    } else {
        let (got, c1) = take_all(c, t, vals.drop_last());
        if c1.contains((t, vals.last().1)) {
            (got, c1)
        } else {
            (got.push(vals.last().0), c1.insert((t, vals.last().1)))
        }
    }
}

/// Values under one tag, as fields.
pub open spec fn tagged(t: Seq<char>, vals: Seq<Seq<char>>) -> Seq<FieldView> {
    vals.map_values(|v: Seq<char>| (t, v))
}

/// The outcome of a lookup by field number and option letters: the only
/// result and consumption that `lookup_spec` admits.
pub open spec fn lookup_result(
    m: Seq<TagGroup>,
    c: Set<Consumed>,
    base: Seq<char>,
    valid: Seq<Seq<char>>,
) -> (Option<(Seq<char>, Option<Seq<char>>, usize)>, Set<Consumed>) {
    choose|p: (Option<(Seq<char>, Option<Seq<char>>, usize)>, Set<Consumed>)|
        lookup_spec(m, c, base, Some(valid), p.0, p.1)
}

/// The field that a lookup by number found, under its full tag.
pub open spec fn option_field(
    base: Seq<char>,
    valid: Seq<Seq<char>>,
    x: (Seq<char>, Option<Seq<char>>, usize),
    c2: Set<Consumed>,
) -> Result<(Seq<FieldView>, Set<Consumed>), ErrView> {
    match x.1 {
        Some(l) => Ok((seq![(base + l, x.0)], c2)),
        None => if valid.contains(Seq::<char>::empty()) {
            Ok((seq![(base, x.0)], c2))
        } else {
            Err(ErrView::NoOption(base))
        },
    }
}

/// One rule applied to the map `m` with consumption `c`: the fields taken
/// and the new consumption, or why the rule fails.
pub open spec fn step(m: Seq<TagGroup>, c: Set<Consumed>, dup: bool, r: RuleView) -> Result<
    (Seq<FieldView>, Set<Consumed>),
    ErrView,
> {
    match r {
        RuleView::Mandatory(t) => if !dup && any_consumed(c, t) {
            Err(ErrView::Duplicate(t))
        } else {
            match exact_hit(m, c, t) {
                Some(v) => Ok((seq![(t, v.0)], c.insert((t, v.1)))),
                None => Err(ErrView::Missing(t)),
            }
        },
        RuleView::Optional(t) => match exact_hit(m, c, t) {
            None => Ok((Seq::empty(), c)),
            Some(v) => Ok((seq![(t, v.0)], c.insert((t, v.1)))),
        },
        RuleView::Repeated(t) => {
            let (got, c2) = take_all(c, t, values_of(m, t));
            Ok((tagged(t, got), c2))
        },
        RuleView::MandatoryOption(t, o) => {
            let (x, c2) = lookup_result(m, c, t, o);
            match x {
                None => Err(ErrView::Missing(t)),
                Some(x) => option_field(t, o, x, c2),
            }
        },
        RuleView::OptionalOption(t, o) => {
            let (x, c2) = lookup_result(m, c, t, o);
            match x {
                None => Ok((Seq::empty(), c2)),
                Some(x) => option_field(t, o, x, c2),
            }
        },
    }
}

/// The rules applied one after the other: the fields each took, and the
/// final consumption; or the first failure.
pub open spec fn run_rules(m: Seq<TagGroup>, c: Set<Consumed>, dup: bool, rules: Seq<RuleView>) -> Result<
    (Seq<Seq<FieldView>>, Set<Consumed>),
    ErrView,
>
    decreases rules.len(),
{
    if rules.len() == 0 {
        Ok((Seq::empty(), c))
    } else {
        match run_rules(m, c, dup, rules.drop_last()) {
            Err(e) => Err(e),
            Ok((slots, c1)) => match step(m, c1, dup, rules.last()) {
                Err(e) => Err(e),
                Ok((slot, c2)) => Ok((slots.push(slot), c2)),
            },
        }
    }
}

/// Repeated items: while a value of `start` is free (and at most `fuel`
/// times), the item rules are applied, with duplicates allowed.
pub open spec fn run_items(
    m: Seq<TagGroup>,
    c: Set<Consumed>,
    start: Seq<char>,
    rules: Seq<RuleView>,
    fuel: nat,
) -> Result<(Seq<Seq<Seq<FieldView>>>, Set<Consumed>), ErrView>
    decreases fuel,
{
    if fuel == 0 || exact_hit(m, c, start) is None {
        Ok((Seq::empty(), c))
    } else {
        match run_rules(m, c, true, rules) {
            Err(e) => Err(e),
            Ok((item, c1)) => match run_items(m, c1, start, rules, (fuel - 1) as nat) {
                Err(e) => Err(e),
                Ok((rest, c2)) => Ok((seq![item] + rest, c2)),
            },
        }
    }
}

/// The tags of the values of `vals` not consumed, one per value.
pub open spec fn free_tags(c: Set<Consumed>, t: Seq<char>, vals: Seq<PosValue>) -> Seq<Seq<char>>
    decreases vals.len(),
{
    if vals.len() == 0 {
        Seq::empty()
    } else {
        let rest = free_tags(c, t, vals.drop_last());
        if c.contains((t, vals.last().1)) {
            rest
        } else {
            rest.push(t)
        }
    }
}

/// The tags of all values not consumed, in map order.
pub open spec fn leftover(m: Seq<TagGroup>, c: Set<Consumed>) -> Seq<Seq<char>>
    decreases m.len(),
{
    if m.len() == 0 {
        Seq::empty()
    } else {
        leftover(m.drop_last(), c) + free_tags(c, m.last().0, m.last().1)
    }
}

/// The views of a list of fields.
pub open spec fn field_views(v: Seq<RawField>) -> Seq<FieldView> {
    v.map_values(|f: RawField| f@)
}

/// The views of a list of slots.
pub open spec fn slot_views(v: Seq<Vec<RawField>>) -> Seq<Seq<FieldView>> {
    v.map_values(|s: Vec<RawField>| field_views(s@))
}

/// The views of a list of items.
pub open spec fn item_views(v: Seq<Vec<Vec<RawField>>>) -> Seq<Seq<Seq<FieldView>>> {
    v.map_values(|s: Vec<Vec<RawField>>| slot_views(s@))
}

/// A slot has the shape that its rule gives: one field for a mandatory
/// rule, at most one for an optional one.
pub open spec fn slot_fits(r: RuleView, s: Seq<FieldView>) -> bool {
    match r {
        RuleView::Mandatory(_) => s.len() == 1,
        RuleView::MandatoryOption(_, _) => s.len() == 1,
        RuleView::Optional(_) => s.len() <= 1,
        RuleView::OptionalOption(_, _) => s.len() <= 1,
        RuleView::Repeated(_) => true,
    }
}

/// Every slot fits its rule.
pub open spec fn slots_fit(rules: Seq<RuleView>, slots: Seq<Seq<FieldView>>) -> bool {
    slots.len() == rules.len() && forall|i: int|
        0 <= i < rules.len() ==> slot_fits(#[trigger] rules[i], slots[i])
}

/// A lookup has one outcome.
pub proof fn lemma_lookup_unique(
    m: Seq<TagGroup>,
    c: Set<Consumed>,
    base: Seq<char>,
    valid: Option<Seq<Seq<char>>>,
    r1: Option<(Seq<char>, Option<Seq<char>>, usize)>,
    c1: Set<Consumed>,
    r2: Option<(Seq<char>, Option<Seq<char>>, usize)>,
    c2: Set<Consumed>,
)
    requires
        lookup_spec(m, c, base, valid, r1, c1),
        lookup_spec(m, c, base, valid, r2, c2),
    ensures
        r1 == r2,
        c1 == c2,
{
    match exact_hit(m, c, base) {
        Some(v) => {},
        None => {
            let order = lookup_order(m, c, base, valid);
            match r1 {
                None => {
                    match r2 {
                        None => {},
                        Some(x2) => {
                            let k2 = choose|k: int|
                                #![trigger order[k]]
                                chosen_at(m, c, valid, order, k) && {
                                    let g = order[k];
                                    let j = first_available(c, m[g].0, m[g].1)->0;
                                    &&& x2.0 == m[g].1[j].0
                                    &&& x2.1 == Some(variant_of(m[g].0))
                                    &&& x2.2 == m[g].1[j].1
                                    &&& c2 == c.insert((m[g].0, m[g].1[j].1))
                                };
                            assert(eligible(m, c, valid, order[k2]));
                        },
                    }
                },
                Some(x1) => {
                    let k1 = choose|k: int|
                        #![trigger order[k]]
                        chosen_at(m, c, valid, order, k) && {
                            let g = order[k];
                            let j = first_available(c, m[g].0, m[g].1)->0;
                            &&& x1.0 == m[g].1[j].0
                            &&& x1.1 == Some(variant_of(m[g].0))
                            &&& x1.2 == m[g].1[j].1
                            &&& c1 == c.insert((m[g].0, m[g].1[j].1))
                        };
                    assert(eligible(m, c, valid, order[k1]));
                    match r2 {
                        None => {},
                        Some(x2) => {
                            let k2 = choose|k: int|
                                #![trigger order[k]]
                                chosen_at(m, c, valid, order, k) && {
                                    let g = order[k];
                                    let j = first_available(c, m[g].0, m[g].1)->0;
                                    &&& x2.0 == m[g].1[j].0
                                    &&& x2.1 == Some(variant_of(m[g].0))
                                    &&& x2.2 == m[g].1[j].1
                                    &&& c2 == c.insert((m[g].0, m[g].1[j].1))
                                };
                            assert(eligible(m, c, valid, order[k2]));
                            assert(k1 == k2);
                        },
                    }
                },
            }
        },
    }
}

/// What a lookup returns is `lookup_result`.
pub proof fn lemma_lookup_result(
    m: Seq<TagGroup>,
    c: Set<Consumed>,
    base: Seq<char>,
    valid: Seq<Seq<char>>,
    r: Option<(Seq<char>, Option<Seq<char>>, usize)>,
    c2: Set<Consumed>,
)
    requires
        lookup_spec(m, c, base, Some(valid), r, c2),
    ensures
        lookup_result(m, c, base, valid) == (r, c2),
{
    let p = (r, c2);
    assert(lookup_spec(m, c, base, Some(valid), p.0, p.1));
    let q = lookup_result(m, c, base, valid);
    lemma_lookup_unique(m, c, base, Some(valid), r, c2, q.0, q.1);
}

/// A failure stays a failure when more rules follow.
pub proof fn lemma_run_rules_err(
    m: Seq<TagGroup>,
    c: Set<Consumed>,
    dup: bool,
    rules: Seq<RuleView>,
    i: int,
)
    requires
        0 <= i <= rules.len(),
        run_rules(m, c, dup, rules.take(i)) is Err,
    ensures
        run_rules(m, c, dup, rules) == run_rules(m, c, dup, rules.take(i)),
    decreases rules.len(),
{
    if i == rules.len() {
        assert(rules.take(i) =~= rules);
    } else {
        assert(rules.drop_last().take(i) =~= rules.take(i));
        lemma_run_rules_err(m, c, dup, rules.drop_last(), i);
    }
}

/// The slots of a successful run fit their rules.
pub proof fn lemma_run_rules_fit(m: Seq<TagGroup>, c: Set<Consumed>, dup: bool, rules: Seq<RuleView>)
    requires
        run_rules(m, c, dup, rules) is Ok,
    ensures
        slots_fit(rules, run_rules(m, c, dup, rules)->Ok_0.0),
    decreases rules.len(),
{
    if rules.len() > 0 {
        lemma_run_rules_fit(m, c, dup, rules.drop_last());
        let slots = run_rules(m, c, dup, rules.drop_last())->Ok_0.0;
        let c1 = run_rules(m, c, dup, rules.drop_last())->Ok_0.1;
        let r = rules.last();
        match r {
            RuleView::Repeated(_) => {},
            RuleView::Mandatory(_) => {},
            RuleView::Optional(_) => {},
            RuleView::MandatoryOption(t, o) => {},
            RuleView::OptionalOption(t, o) => {},
        }
        let all = run_rules(m, c, dup, rules)->Ok_0.0;
        assert forall|i: int| 0 <= i < rules.len() implies slot_fits(#[trigger] rules[i], all[i]) by {
            if i < rules.len() - 1 {
                assert(rules.drop_last()[i] == rules[i]);
            }
        }
    }
}

/// A message parser over the fields of a block 4 text.
pub struct MessageParser {
    fields: FieldMap,
    tracker: FieldConsumptionTracker,
    message_type: String,
    allow_duplicates: bool,
}

impl MessageParser {
    /// The fields by tag.
    pub closed spec fn map(&self) -> Seq<TagGroup> {
        self.fields@
    }

    /// The (tag, position) pairs taken so far.
    pub closed spec fn consumed(&self) -> Set<Consumed> {
        self.tracker@
    }

    /// A tag may be taken more than once.
    pub closed spec fn duplicates(&self) -> bool {
        self.allow_duplicates
    }

    /// The message type the parser works for.
    pub closed spec fn kind(&self) -> Seq<char> {
        self.message_type@
    }

    /// A parser over the fields of `block4`, with nothing taken yet.
    pub fn new(block4: &str, message_type: &str) -> (p: MessageParser)
        ensures
            p.map() == raw_field_map(block4@),
            p.consumed() == Set::<Consumed>::empty(),
            !p.duplicates(),
            p.kind() == message_type@,
    {
        MessageParser {
            fields: parse_block4_fields(block4),
            tracker: FieldConsumptionTracker::new(),
            message_type: message_type.to_string(),
            allow_duplicates: false,
        }
    }

    /// The same parser, with duplicates allowed or not.
    pub fn with_duplicates(self, allow: bool) -> (p: MessageParser)
        ensures
            p.map() == self.map(),
            p.consumed() == self.consumed(),
            p.duplicates() == allow,
            p.kind() == self.kind(),
    {
        MessageParser { allow_duplicates: allow, ..self }
    }

    /// A value of `tag` is still free.
    pub fn detect_field(&self, tag: &str) -> (b: bool)
        ensures
            b == (exact_hit(self.map(), self.consumed(), tag@) is Some),
    {
        let t = to_chars(tag);
        match self.fields.get_chars(&t) {
            Some(values) => {
                let r = self.tracker.first_available_index(&t, values);
                r.is_some()
            },
            None => false,
        }
    }

    /// Takes the first free value of `tag`, if any.
    fn take_exact(&mut self, tag: &Vec<char>) -> (r: Option<String>)
        ensures
            final(self).map() == old(self).map(),
            final(self).duplicates() == old(self).duplicates(),
            final(self).kind() == old(self).kind(),
            match exact_hit(old(self).map(), old(self).consumed(), tag@) {
                Some(v) => r matches Some(s) && s@ == v.0 && final(self).consumed() == old(self).consumed().insert((tag@, v.1)),
                None => r is None && final(self).consumed() == old(self).consumed(),
            },
    {
        match self.fields.get_chars(tag) {
            Some(values) => {
                match self.tracker.first_available_index(tag, values) {
                    Some(j) => {
                        proof {
                            lemma_first_available(self.tracker@, tag@, pos_views(values@));
                        }
                        let value = values[j].0.clone();
                        let pos = values[j].1;
                        self.tracker.mark_consumed_chars(tag, pos);
                        Some(value)
                    },
                    None => None,
                }
            },
            None => None,
        }
    }

    /// The error for a second take of `tag`.
    fn duplicate_error(tag: &Vec<char>) -> (e: ParseError)
        ensures
            error_is(e, ErrView::Duplicate(tag@)),
    {
        let mut m = to_chars("Duplicate field: ");
        append_chars(&mut m, tag);
        ParseError::InvalidFormat { message: from_chars(&m) }
    }

    /// Takes a mandatory field by its exact tag.
    pub fn parse_field(&mut self, tag: &str) -> (r: Result<RawField, ParseError>)
        ensures
            final(self).map() == old(self).map(),
            final(self).duplicates() == old(self).duplicates(),
            final(self).kind() == old(self).kind(),
            step_done(
                old(self).map(),
                old(self).consumed(),
                old(self).duplicates(),
                RuleView::Mandatory(tag@),
                match r {
                    Ok(f) => Ok(seq![f@]),
                    Err(e) => Err(e),
                },
                final(self).consumed(),
            ),
    {
        let t = to_chars(tag);
        if !self.allow_duplicates && self.tracker.has_consumed(&t) {
            return Err(Self::duplicate_error(&t));
        }
        match self.take_exact(&t) {
            Some(value) => Ok(RawField { tag: tag.to_string(), value }),
            None => Err(ParseError::MissingRequiredField { field_tag: tag.to_string() }),
        }
    }

    /// Takes an optional field by its exact tag.
    pub fn parse_optional_field(&mut self, tag: &str) -> (r: Result<Option<RawField>, ParseError>)
        ensures
            final(self).map() == old(self).map(),
            final(self).duplicates() == old(self).duplicates(),
            final(self).kind() == old(self).kind(),
            step_done(
                old(self).map(),
                old(self).consumed(),
                old(self).duplicates(),
                RuleView::Optional(tag@),
                match r {
                    Ok(f) => Ok(opt_slot(f)),
                    Err(e) => Err(e),
                },
                final(self).consumed(),
            ),
    {
        let t = to_chars(tag);
        match self.take_exact(&t) {
            Some(value) => Ok(Some(RawField { tag: tag.to_string(), value })),
            None => Ok(None),
        }
    }

    /// Takes every free value of `tag`, in order.
    pub fn parse_repeated(&mut self, tag: &str) -> (r: Vec<RawField>)
        ensures
            final(self).map() == old(self).map(),
            final(self).duplicates() == old(self).duplicates(),
            final(self).kind() == old(self).kind(),
            step_done(
                old(self).map(),
                old(self).consumed(),
                old(self).duplicates(),
                RuleView::Repeated(tag@),
                Ok(field_views(r@)),
                final(self).consumed(),
            ),
    {
        let t = to_chars(tag);
        let ghost c0 = self.tracker@;
        let ghost vals = values_of(self.fields@, t@);
        let mut out: Vec<RawField> = Vec::new();
        match self.fields.get_chars(&t) {
            Some(values) => {
                assert(pos_views(values@) == vals);
                let mut j: usize = 0;
                while j < values.len()
                    invariant
                        j <= values.len(),
                        pos_views(values@) == vals,
                        t@ == tag@,
                        self.fields@ == old(self).fields@,
                        self.allow_duplicates == old(self).allow_duplicates,
                        self.message_type@ == old(self).message_type@,
                        take_all(c0, t@, vals.take(j as int)).1 == self.tracker@,
                        tagged(t@, take_all(c0, t@, vals.take(j as int)).0) == field_views(out@),
                    decreases values.len() - j,
                {
                    proof {
                        assert(vals.take(j + 1).drop_last() =~= vals.take(j as int));
                        assert(vals.take(j + 1).last() == vals[j as int]);
                    }
                    let ghost got = take_all(c0, t@, vals.take(j as int)).0;
                    if !self.tracker.is_consumed(&t, values[j].1) {
                        let f = RawField { tag: tag.to_string(), value: values[j].0.clone() };
                        assert(f@ == (t@, vals[j as int].0));
                        self.tracker.mark_consumed_chars(&t, values[j].1);
                        let ghost before = out@;
                        out.push(f);
                        proof {
                            assert(field_views(out@) =~= field_views(before).push(out@.last()@));
                            assert(tagged(t@, got.push(vals[j as int].0)) =~= tagged(t@, got).push(
                                (t@, vals[j as int].0),
                            ));
                        }
                    }
                    j = j + 1;
                }
                assert(vals.take(values.len() as int) =~= vals);
            },
            None => {
                assert(field_views(out@) =~= tagged(t@, Seq::<Seq<char>>::empty()));
            },
        }
        out
    }

    /// Looks up a field by number and option letters.
    fn lookup(&mut self, base: &'static str, options: &Vec<&'static str>) -> (r: Option<
        (String, Option<String>, usize),
    >)
        ensures
            final(self).map() == old(self).map(),
            final(self).duplicates() == old(self).duplicates(),
            final(self).kind() == old(self).kind(),
            lookup_result(old(self).map(), old(self).consumed(), base@, str_views(options@)) == (
                lookup_view(r),
                final(self).consumed(),
            ),
    {
        let ghost c0 = self.tracker@;
        let sl = options.as_slice();
        assert(opt_str_views(Some(sl)) == Some(str_views(options@)));
        let r = find_field_with_variant_sequential_constrained(
            &self.fields,
            base,
            &mut self.tracker,
            Some(sl),
        );
        proof {
            lemma_lookup_result(self.fields@, c0, base@, str_views(options@), lookup_view(r), self.tracker@);
        }
        r
    }

    /// The field found by a lookup, under its full tag.
    fn found_field(base: &'static str, options: &Vec<&'static str>, x: (String, Option<String>, usize)) -> (r:
        Result<RawField, ParseError>)
        ensures
            match option_field(base@, str_views(options@), lookup_view(Some(x))->0, Set::empty()) {
                Ok((s, _)) => r matches Ok(f) && s == seq![f@],
                Err(e) => r matches Err(pe) && error_is(pe, e),
            },
    {
        proof {
            reveal_strlit("");
            assert(""@ =~= Seq::<char>::empty());
        }
        let (value, letter, _) = x;
        match letter {
            Some(l) => {
                let mut t = to_chars(base);
                append_chars(&mut t, &string_chars(&l));
                Ok(RawField { tag: from_chars(&t), value })
            },
            None => {
                let none = to_chars("");
                if crate::text::in_str_list(&none, options.as_slice()) {
                    Ok(RawField { tag: base.to_string(), value })
                } else {
                    Err(
                        ParseError::InvalidFieldFormat {
                            field_tag: base.to_string(),
                            message: "Field requires an option letter".to_string(),
                        },
                    )
                }
            },
        }
    }

    /// Takes a mandatory field by number and option letters.
    pub fn parse_variant_field(&mut self, base: &'static str, options: &Vec<&'static str>) -> (r: Result<
        RawField,
        ParseError,
    >)
        ensures
            final(self).map() == old(self).map(),
            final(self).duplicates() == old(self).duplicates(),
            final(self).kind() == old(self).kind(),
            step_done(
                old(self).map(),
                old(self).consumed(),
                old(self).duplicates(),
                RuleView::MandatoryOption(base@, str_views(options@)),
                match r {
                    Ok(f) => Ok(seq![f@]),
                    Err(e) => Err(e),
                },
                final(self).consumed(),
            ),
    {
        match self.lookup(base, options) {
            Some(x) => Self::found_field(base, options, x),
            None => Err(ParseError::MissingRequiredField { field_tag: base.to_string() }),
        }
    }

    /// Takes an optional field by number and option letters.
    pub fn parse_optional_variant_field(&mut self, base: &'static str, options: &Vec<&'static str>) -> (r:
        Result<Option<RawField>, ParseError>)
        ensures
            final(self).map() == old(self).map(),
            final(self).duplicates() == old(self).duplicates(),
            final(self).kind() == old(self).kind(),
            step_done(
                old(self).map(),
                old(self).consumed(),
                old(self).duplicates(),
                RuleView::OptionalOption(base@, str_views(options@)),
                match r {
                    Ok(f) => Ok(opt_slot(f)),
                    Err(e) => Err(e),
                },
                final(self).consumed(),
            ),
    {
        match self.lookup(base, options) {
            Some(x) => match Self::found_field(base, options, x) {
                Ok(f) => Ok(Some(f)),
                Err(e) => Err(e),
            },
            None => Ok(None),
        }
    }

    /// Applies one rule.
    pub fn apply_rule(&mut self, rule: &FieldRule) -> (r: Result<Vec<RawField>, ParseError>)
        ensures
            final(self).map() == old(self).map(),
            final(self).duplicates() == old(self).duplicates(),
            final(self).kind() == old(self).kind(),
            step_done(
                old(self).map(),
                old(self).consumed(),
                old(self).duplicates(),
                rule@,
                match r {
                    Ok(v) => Ok(field_views(v@)),
                    Err(e) => Err(e),
                },
                final(self).consumed(),
            ),
    {
        match rule {
            FieldRule::Mandatory(t) => match self.parse_field(t) {
                Ok(f) => {
                    let v = vec![f];
                    assert(field_views(v@) =~= seq![v@[0]@]);
                    Ok(v)
                },
                Err(e) => Err(e),
            },
            FieldRule::Optional(t) => match self.parse_optional_field(t) {
                Ok(f) => Ok(opt_vec(f)),
                Err(e) => Err(e),
            },
            FieldRule::Repeated(t) => Ok(self.parse_repeated(t)),
            FieldRule::MandatoryOption(t, o) => match self.parse_variant_field(t, o) {
                Ok(f) => {
                    let v = vec![f];
                    assert(field_views(v@) =~= seq![v@[0]@]);
                    Ok(v)
                },
                Err(e) => Err(e),
            },
            FieldRule::OptionalOption(t, o) => match self.parse_optional_variant_field(t, o) {
                Ok(f) => Ok(opt_vec(f)),
                Err(e) => Err(e),
            },
        }
    }

    /// Applies the rules in order: one slot of fields per rule.
    pub fn apply_rules(&mut self, rules: &Vec<FieldRule>) -> (r: Result<Vec<Vec<RawField>>, ParseError>)
        ensures
            final(self).map() == old(self).map(),
            final(self).duplicates() == old(self).duplicates(),
            final(self).kind() == old(self).kind(),
            match run_rules(
                old(self).map(),
                old(self).consumed(),
                old(self).duplicates(),
                rule_views(rules@),
            ) {
                Ok((slots, c)) => r matches Ok(v) && slot_views(v@) == slots && final(self).consumed() == c,
                Err(e) => r matches Err(pe) && error_is(pe, e),
            },
    {
        let ghost m = self.map();
        let ghost c0 = self.consumed();
        let ghost dup = self.duplicates();
        let ghost rv = rule_views(rules@);
        let mut out: Vec<Vec<RawField>> = Vec::new();
        let mut i: usize = 0;
        assert(rv.take(0) =~= Seq::<RuleView>::empty());
        assert(slot_views(out@) =~= Seq::<Seq<FieldView>>::empty());
        while i < rules.len()
            invariant
                i <= rules.len(),
                rv == rule_views(rules@),
                m == self.map(),
                dup == self.duplicates(),
                self.map() == old(self).map(),
                self.duplicates() == old(self).duplicates(),
                self.kind() == old(self).kind(),
                c0 == old(self).consumed(),
                run_rules(m, c0, dup, rv.take(i as int)) is Ok,
                run_rules(m, c0, dup, rv.take(i as int))->Ok_0.0 == slot_views(out@),
                run_rules(m, c0, dup, rv.take(i as int))->Ok_0.1 == self.consumed(),
            decreases rules.len() - i,
        {
            proof {
                assert(rv.take(i + 1).drop_last() =~= rv.take(i as int));
                assert(rv.take(i + 1).last() == rules@[i as int]@);
            }
            let ghost before = out@;
            match self.apply_rule(&rules[i]) {
                Ok(slot) => {
                    out.push(slot);
                    assert(slot_views(out@) =~= slot_views(before).push(field_views(out@.last()@)));
                },
                Err(e) => {
                    proof {
                        lemma_run_rules_err(m, c0, dup, rv, i + 1);
                    }
                    return Err(e);
                },
            }
            i = i + 1;
        }
        assert(rv.take(rules.len() as int) =~= rv);
        Ok(out)
    }

    /// Repeated items, each taken by `rules` with duplicates allowed, for
    /// as long as a value of `start` is free: at most as many items as
    /// `start` has values.
    pub fn apply_items(&mut self, start: &str, rules: &Vec<FieldRule>) -> (r: Result<
        Vec<Vec<Vec<RawField>>>,
        ParseError,
    >)
        ensures
            final(self).map() == old(self).map(),
            final(self).kind() == old(self).kind(),
            final(self).duplicates(),
            match run_items(
                old(self).map(),
                old(self).consumed(),
                start@,
                rule_views(rules@),
                values_of(old(self).map(), start@).len(),
            ) {
                Ok((items, c)) => r matches Ok(v) && item_views(v@) == items && final(self).consumed() == c,
                Err(e) => r matches Err(pe) && error_is(pe, e),
            },
    {
        self.allow_duplicates = true;
        let t = to_chars(start);
        let fuel0: usize = match self.fields.get_chars(&t) {
            Some(v) => v.len(),
            None => 0,
        };
        let ghost m = self.map();
        let ghost rv = rule_views(rules@);
        let ghost total = run_items(m, old(self).consumed(), start@, rv, fuel0 as nat);
        let mut fuel = fuel0;
        let mut out: Vec<Vec<Vec<RawField>>> = Vec::new();
        assert(item_views(out@) =~= Seq::<Seq<Seq<FieldView>>>::empty());
        proof {
            match total {
                Ok((rest, c)) => {
                    assert(item_views(out@) + rest =~= rest);
                },
                Err(e) => {},
            }
        }
        while fuel > 0 && self.detect_field(start)
            invariant
                fuel <= fuel0,
                m == self.map(),
                rv == rule_views(rules@),
                self.map() == old(self).map(),
                self.kind() == old(self).kind(),
                self.duplicates(),
                fuel0 == values_of(m, start@).len(),
                total == run_items(m, old(self).consumed(), start@, rv, fuel0 as nat),
                run_items(m, self.consumed(), start@, rv, fuel as nat) is Ok ==> total is Ok
                    && total->Ok_0.0 == item_views(out@) + run_items(
                    m,
                    self.consumed(),
                    start@,
                    rv,
                    fuel as nat,
                )->Ok_0.0 && total->Ok_0.1 == run_items(
                    m,
                    self.consumed(),
                    start@,
                    rv,
                    fuel as nat,
                )->Ok_0.1,
                run_items(m, self.consumed(), start@, rv, fuel as nat) is Err ==> total == run_items(
                    m,
                    self.consumed(),
                    start@,
                    rv,
                    fuel as nat,
                ),
            decreases fuel,
        {
            let ghost before = out@;
            let ghost c_before = self.consumed();
            match self.apply_rules(rules) {
                Ok(item) => {
                    out.push(item);
                    proof {
                        let iv = slot_views(out@.last()@);
                        assert(item_views(out@) =~= item_views(before).push(iv));
                        match run_items(m, self.consumed(), start@, rv, (fuel - 1) as nat) {
                            Ok((rest, c)) => {
                                assert(item_views(before) + (seq![iv] + rest) =~= item_views(out@)
                                    + rest);
                            },
                            Err(e) => {},
                        }
                    }
                },
                Err(e) => {
                    return Err(e);
                },
            }
            fuel = fuel - 1;
        }
        proof {
            assert(item_views(out@) + Seq::<Seq<Seq<FieldView>>>::empty() =~= item_views(out@));
        }
        Ok(out)
    }

    /// Every field has been taken.
    pub fn is_complete(&self) -> (b: bool)
        ensures
            b == (leftover(self.map(), self.consumed()).len() == 0),
    {
        self.remaining_tags().len() == 0
    }

    /// The tags of the fields not taken, one per field, in map order.
    fn remaining_tags(&self) -> (r: Vec<Vec<char>>)
        ensures
            crate::text::views(r@) == leftover(self.map(), self.consumed()),
    {
        let mut out: Vec<Vec<char>> = Vec::new();
        let mut i: usize = 0;
        assert(crate::text::views(out@) =~= leftover(self.fields@.take(0), self.tracker@));
        while i < self.fields.len()
            invariant
                i <= self.fields@.len(),
                crate::text::views(out@) == leftover(self.fields@.take(i as int), self.tracker@),
            decreases self.fields@.len() - i,
        {
            let (tag, values) = self.fields.group(i);
            let t = string_chars(tag);
            let ghost before = crate::text::views(out@);
            let ghost g = self.fields@[i as int];
            let mut j: usize = 0;
            assert(g.1.take(0) =~= Seq::<PosValue>::empty());
            assert(before + free_tags(self.tracker@, g.0, g.1.take(0)) =~= before);
            while j < values.len()
                invariant
                    j <= values.len(),
                    t@ == g.0,
                    tag@ == g.0,
                    pos_views(values@) == g.1,
                    crate::text::views(out@) == before + free_tags(
                        self.tracker@,
                        g.0,
                        g.1.take(j as int),
                    ),
                decreases values.len() - j,
            {
                proof {
                    assert(g.1.take(j + 1).drop_last() =~= g.1.take(j as int));
                    assert(g.1.take(j + 1).last() == g.1[j as int]);
                }
                if !self.tracker.is_consumed(&t, values[j].1) {
                    let ghost prev = out@;
                    let tc = string_chars(tag);
                    assert(tc@ == t@);
                    out.push(tc);
                    assert(out@ == prev.push(tc));
                    assert(crate::text::views(out@) =~= crate::text::views(prev).push(t@));
                }
                j = j + 1;
            }
            proof {
                assert(g.1.take(values.len() as int) =~= g.1);
                assert(self.fields@.take(i + 1).drop_last() =~= self.fields@.take(i as int));
                assert(self.fields@.take(i + 1).last() == g);
            }
            i = i + 1;
        }
        assert(self.fields@.take(self.fields@.len() as int) =~= self.fields@);
        out
    }

    /// The tags of the fields not taken, separated by `, `.
    pub fn remaining(&self) -> (s: String)
        ensures
            s@ == join(leftover(self.map(), self.consumed()), ", "@),
    {
        let tags = self.remaining_tags();
        let sep = to_chars(", ");
        from_chars(&crate::text::join_chars(&tags, &sep))
    }
}

/// A rule left the consumption `c1` and gave `res`, as `step` says: on
/// success the fields it took; on failure the matching error.
pub open spec fn step_done(
    m: Seq<TagGroup>,
    c0: Set<Consumed>,
    dup: bool,
    r: RuleView,
    res: Result<Seq<FieldView>, ParseError>,
    c1: Set<Consumed>,
) -> bool {
    match step(m, c0, dup, r) {
        Ok((slot, c2)) => res matches Ok(s) && s == slot && c1 == c2,
        Err(e) => res matches Err(pe) && error_is(pe, e),
    }
}

/// The slot of an optional field.
pub open spec fn opt_slot(f: Option<RawField>) -> Seq<FieldView> {
    match f {
        Some(x) => seq![x@],
        None => Seq::empty(),
    }
}

/// An optional field as a list of at most one.
fn opt_vec(f: Option<RawField>) -> (v: Vec<RawField>)
    ensures
        field_views(v@) == opt_slot(f),
{
    match f {
        Some(x) => {
            let v = vec![x];
            assert(field_views(v@) =~= seq![v@[0]@]);
            v
        },
        None => {
            let v: Vec<RawField> = Vec::new();
            assert(field_views(v@) =~= Seq::<FieldView>::empty());
            v
        },
    }
}

/// The layout of a message body: header rules, then (if there are item
/// rules) repeated items that each start with a free value of `item_start`,
/// then trailer rules.  When `complete` is set, every field must be taken.
pub struct MessageLayout {
    pub header: Vec<FieldRule>,
    pub item_start: &'static str,
    pub items: Vec<FieldRule>,
    pub trailer: Vec<FieldRule>,
    pub complete: bool,
}

/// A layout as the specifications see it.
pub struct LayoutView {
    pub header: Seq<RuleView>,
    pub item_start: Seq<char>,
    pub items: Seq<RuleView>,
    pub trailer: Seq<RuleView>,
    pub complete: bool,
}

impl View for MessageLayout {
    type V = LayoutView;

    open spec fn view(&self) -> LayoutView {
        LayoutView {
            header: rule_views(self.header@),
            item_start: self.item_start@,
            items: rule_views(self.items@),
            trailer: rule_views(self.trailer@),
            complete: self.complete,
        }
    }
}

/// The fields a layout took, as the specifications see them: header slots,
/// items (each a list of slots), trailer slots.
pub type ParsedView = (Seq<Seq<FieldView>>, Seq<Seq<Seq<FieldView>>>, Seq<Seq<FieldView>>);

/// The fields a layout took.
pub struct Parsed {
    pub header: Vec<Vec<RawField>>,
    pub items: Vec<Vec<Vec<RawField>>>,
    pub trailer: Vec<Vec<RawField>>,
}

impl View for Parsed {
    type V = ParsedView;

    open spec fn view(&self) -> ParsedView {
        (slot_views(self.header@), item_views(self.items@), slot_views(self.trailer@))
    }
}

/// What a layout makes of a block 4 text: the fields each rule took, or
/// why it failed; for a complete layout, fields left over at the end are a
/// failure.
pub open spec fn layout_outcome(block4: Seq<char>, l: LayoutView) -> Result<ParsedView, ErrView> {
    let m = raw_field_map(block4);
    match run_rules(m, Set::empty(), false, l.header) {
        Err(e) => Err(e),
        Ok((h, c1)) => {
            let its = if l.items.len() > 0 {
                run_items(m, c1, l.item_start, l.items, values_of(m, l.item_start).len())
            } else {
                Ok((Seq::empty(), c1))
            };
            match its {
                Err(e) => Err(e),
                Ok((items, c2)) => match run_rules(m, c2, l.items.len() > 0, l.trailer) {
                    Err(e) => Err(e),
                    Ok((t, c3)) => if !l.complete || leftover(m, c3).len() == 0 {
                        Ok((h, items, t))
                    } else {
                        Err(ErrView::Leftover(leftover(m, c3)))
                    },
                },
            }
        },
    }
}

/// The fields taken fit the layout's rules.
pub open spec fn layout_fits(l: LayoutView, p: ParsedView) -> bool {
    &&& slots_fit(l.header, p.0)
    &&& forall|i: int| 0 <= i < p.1.len() ==> slots_fit(l.items, #[trigger] p.1[i])
    &&& slots_fit(l.trailer, p.2)
}

/// Items that were taken fit their rules.
pub proof fn lemma_run_items_fit(
    m: Seq<TagGroup>,
    c: Set<Consumed>,
    start: Seq<char>,
    rules: Seq<RuleView>,
    fuel: nat,
)
    requires
        run_items(m, c, start, rules, fuel) is Ok,
    ensures
        forall|i: int|
            0 <= i < run_items(m, c, start, rules, fuel)->Ok_0.0.len() ==> slots_fit(
                rules,
                #[trigger] run_items(m, c, start, rules, fuel)->Ok_0.0[i],
            ),
    decreases fuel,
{
    if fuel > 0 && exact_hit(m, c, start) is Some {
        lemma_run_rules_fit(m, c, true, rules);
        let c1 = run_rules(m, c, true, rules)->Ok_0.1;
        lemma_run_items_fit(m, c1, start, rules, (fuel - 1) as nat);
        let items = run_items(m, c, start, rules, fuel)->Ok_0.0;
        let rest = run_items(m, c1, start, rules, (fuel - 1) as nat)->Ok_0.0;
        assert forall|i: int| 0 <= i < items.len() implies slots_fit(rules, #[trigger] items[i]) by {
            if i > 0 {
                assert(items[i] == rest[i - 1]);
            }
        }
    }
}

/// Takes the fields of `block4` by `layout`.
pub fn parse_layout(block4: &str, message_type: &str, layout: &MessageLayout) -> (r: Result<
    Parsed,
    ParseError,
>)
    ensures
        match layout_outcome(block4@, layout@) {
            Ok(p) => r matches Ok(x) && x@ == p && layout_fits(layout@, p),
            Err(e) => r matches Err(pe) && error_is(pe, e),
        },
{
    let ghost l = layout@;
    let ghost m = raw_field_map(block4@);
    let mut parser = MessageParser::new(block4, message_type);
    let header = match parser.apply_rules(&layout.header) {
        Ok(h) => h,
        Err(e) => return Err(e),
    };
    proof {
        lemma_run_rules_fit(m, Set::empty(), false, l.header);
    }
    let ghost c1 = parser.consumed();
    let items = if layout.items.len() > 0 {
        match parser.apply_items(layout.item_start, &layout.items) {
            Ok(v) => v,
            Err(e) => return Err(e),
        }
    } else {
        let v: Vec<Vec<Vec<RawField>>> = Vec::new();
        assert(item_views(v@) =~= Seq::<Seq<Seq<FieldView>>>::empty());
        v
    };
    proof {
        if l.items.len() > 0 {
            lemma_run_items_fit(m, c1, l.item_start, l.items, values_of(m, l.item_start).len());
        }
    }
    assert(parser.duplicates() == (l.items.len() > 0));
    let trailer = match parser.apply_rules(&layout.trailer) {
        Ok(t) => t,
        Err(e) => return Err(e),
    };
    proof {
        let c2 = if l.items.len() > 0 {
            run_items(m, c1, l.item_start, l.items, values_of(m, l.item_start).len())->Ok_0.1
        } else {
            c1
        };
        lemma_run_rules_fit(m, c2, l.items.len() > 0, l.trailer);
    }
    if layout.complete {
        match crate::parsing_utils::verify_parser_complete(&parser) {
            Ok(()) => {},
            Err(e) => return Err(e),
        }
    }
    Ok(Parsed { header, items, trailer })
}

/// Takes the last slot, which holds one field.
pub fn take_one(slots: &mut Vec<Vec<RawField>>, Ghost(all): Ghost<Seq<Seq<FieldView>>>) -> (f:
    RawField)
    requires
        0 < old(slots).len() <= all.len(),
        slot_views(old(slots)@) == all.take(old(slots).len() as int),
        all[old(slots).len() - 1].len() == 1,
    ensures
        final(slots).len() == old(slots).len() - 1,
        slot_views(final(slots)@) == all.take(final(slots).len() as int),
        seq![f@] == all[final(slots).len() as int],
{
    let ghost n = slots.len();
    let mut last = slots.pop().unwrap();
    assert(slot_views(slots@) =~= all.take(slots.len() as int)) by {
        assert forall|k: int| 0 <= k < slots.len() implies slot_views(slots@)[k] == all[k] by {
            assert(slot_views(old(slots)@)[k] == all.take(n as int)[k]);
        }
    }
    assert(field_views(last@) == slot_views(old(slots)@)[n - 1]);
    assert(all.take(n as int)[n - 1] == all[n - 1]);
    let f = last.pop().unwrap();
    assert(seq![f@] =~= all[n - 1]);
    f
}

/// Takes the last slot, which holds at most one field.
pub fn take_opt(slots: &mut Vec<Vec<RawField>>, Ghost(all): Ghost<Seq<Seq<FieldView>>>) -> (f:
    Option<RawField>)
    requires
        0 < old(slots).len() <= all.len(),
        slot_views(old(slots)@) == all.take(old(slots).len() as int),
        all[old(slots).len() - 1].len() <= 1,
    ensures
        final(slots).len() == old(slots).len() - 1,
        slot_views(final(slots)@) == all.take(final(slots).len() as int),
        opt_slot(f) == all[final(slots).len() as int],
{
    let ghost n = slots.len();
    let mut last = slots.pop().unwrap();
    assert(slot_views(slots@) =~= all.take(slots.len() as int)) by {
        assert forall|k: int| 0 <= k < slots.len() implies slot_views(slots@)[k] == all[k] by {
            assert(slot_views(old(slots)@)[k] == all.take(n as int)[k]);
        }
    }
    assert(field_views(last@) == slot_views(old(slots)@)[n - 1]);
    assert(all.take(n as int)[n - 1] == all[n - 1]);
    let f = last.pop();
    assert(opt_slot(f) =~= all[n - 1]);
    f
}

/// The slot of a repeated field: none when absent.
pub open spec fn many_slot(f: Option<Vec<RawField>>) -> Seq<FieldView> {
    match f {
        Some(v) => field_views(v@),
        None => Seq::empty(),
    }
}

/// Takes the last slot, a repeated field: `None` when it is empty.
pub fn take_many(slots: &mut Vec<Vec<RawField>>, Ghost(all): Ghost<Seq<Seq<FieldView>>>) -> (f:
    Option<Vec<RawField>>)
    requires
        0 < old(slots).len() <= all.len(),
        slot_views(old(slots)@) == all.take(old(slots).len() as int),
    ensures
        final(slots).len() == old(slots).len() - 1,
        slot_views(final(slots)@) == all.take(final(slots).len() as int),
        many_slot(f) == all[final(slots).len() as int],
        f matches Some(v) ==> v.len() > 0,
{
    let ghost n = slots.len();
    let last = slots.pop().unwrap();
    assert(slot_views(slots@) =~= all.take(slots.len() as int)) by {
        assert forall|k: int| 0 <= k < slots.len() implies slot_views(slots@)[k] == all[k] by {
            assert(slot_views(old(slots)@)[k] == all.take(n as int)[k]);
        }
    }
    assert(field_views(last@) == slot_views(old(slots)@)[n - 1]);
    assert(all.take(n as int)[n - 1] == all[n - 1]);
    if last.len() == 0 {
        assert(many_slot(None) =~= all[n - 1]);
        None
    } else {
        Some(last)
    }
}

} // verus!
