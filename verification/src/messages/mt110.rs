//! MT110: Advice of Cheque(s)

use vstd::prelude::*;
use crate::errors::ParseError;
use crate::message_parser::{
    error_is, item_views, layout_fits, layout_outcome, many_slot, opt_slot, parse_layout,
    rule_views, slot_fits, slot_views, slots_fit, take_many, take_one, take_opt, FieldRule, FieldView,
    LayoutView, MessageLayout, Parsed, ParsedView, RawField, RuleView,
};
use crate::parsing_utils::{
    block4_of, extract_block4, mt_text, pair_views, push_field, push_optional, push_repeated,
    render_mt,
};
use crate::text::str_views;
use crate::traits::SwiftMessageBody;

verus! {

/// The validation rules of the message, as JSONLogic.
pub const VALIDATION_RULES: &'static str = r#"{"rules": [
            {"id": "C1", "description": "Maximum 10 cheque details allowed", "condition": true},
            {"id": "C2", "description": "Currency must be consistent across all cheques", "condition": true}
        ]}"#;

/// One cheque of an MT110.
#[derive(Debug, Clone, PartialEq)]
pub struct MT110Cheque {
    pub field_21: RawField,
    pub field_30: RawField,
    pub field_32: RawField,
    pub field_50: Option<RawField>,
    pub field_52: Option<RawField>,
    pub field_59: RawField,
}

impl MT110Cheque {
    /// The rules by which an item is taken.
    pub open spec fn rules() -> Seq<RuleView> {
        seq![
            RuleView::Mandatory("21"@),
            RuleView::Mandatory("30"@),
            RuleView::MandatoryOption("32"@, seq!["A"@, "B"@]),
            RuleView::OptionalOption("50"@, seq!["A"@, "F"@, "K"@]),
            RuleView::OptionalOption("52"@, seq!["A"@, "B"@, "D"@]),
            RuleView::MandatoryOption("59"@, seq![""@, "A"@, "F"@]),
        ]
    }

    /// The fields of the item as its rules took them.
    pub open spec fn slots(&self) -> Seq<Seq<FieldView>> {
        seq![
            seq![self.field_21@],
            seq![self.field_30@],
            seq![self.field_32@],
            opt_slot(self.field_50),
            opt_slot(self.field_52),
            seq![self.field_59@],
        ]
    }

    /// The fields of the item in writing order.
    #[verifier::opaque]
    pub open spec fn fields_in_order(&self) -> Seq<FieldView> {
        seq![self.field_21@]
            + seq![self.field_30@]
            + seq![self.field_32@]
            + opt_slot(self.field_50)
            + opt_slot(self.field_52)
            + seq![self.field_59@]
    }

    /// The rules by which an item is taken.
    fn rule_list() -> (r: Vec<FieldRule>)
        ensures
            rule_views(r@) == Self::rules(),
    {
        let r = vec![
            FieldRule::Mandatory("21"),
            FieldRule::Mandatory("30"),
            FieldRule::MandatoryOption("32", vec!["A", "B"]),
            FieldRule::OptionalOption("50", vec!["A", "F", "K"]),
            FieldRule::OptionalOption("52", vec!["A", "B", "D"]),
            FieldRule::MandatoryOption("59", vec!["", "A", "F"]),
        ];
        assert(rule_views(r@) =~~= Self::rules());
        r
    }

    /// The item built from the slots its rules took.
    fn from_slots(slots: Vec<Vec<RawField>>) -> (item: MT110Cheque)
        requires
            slots_fit(Self::rules(), slot_views(slots@)),
        ensures
            item.slots() == slot_views(slots@),
    {
        let ghost all = slot_views(slots@);
        let mut slots = slots;
        assert(slot_views(slots@) =~= all.take(slots.len() as int));
        let field_59 = take_one(&mut slots, Ghost(all));
        let field_52 = take_opt(&mut slots, Ghost(all));
        let field_50 = take_opt(&mut slots, Ghost(all));
        let field_32 = take_one(&mut slots, Ghost(all));
        let field_30 = take_one(&mut slots, Ghost(all));
        let field_21 = take_one(&mut slots, Ghost(all));
        let item = MT110Cheque { field_21, field_30, field_32, field_50, field_52, field_59 };
        assert(item.slots() =~= all);
        item
    }

    /// Items built from the slots their rules took, in order.
    #[verifier::spinoff_prover]
    fn from_items(items: Vec<Vec<Vec<RawField>>>) -> (v: Vec<MT110Cheque>)
        requires
            forall|i: int|
                0 <= i < items@.len() ==> slots_fit(Self::rules(), #[trigger] item_views(items@)[i]),
        ensures
            Self::item_slots(v@) == item_views(items@),
    {
        let ghost all = item_views(items@);
        let mut rest = items;
        let mut out: Vec<MT110Cheque> = Vec::new();
        assert(Self::item_slots(out@) + item_views(rest@) =~= all);
        while rest.len() > 0
            invariant
                Self::item_slots(out@) + item_views(rest@) == all,
                forall|i: int|
                    0 <= i < rest@.len() ==> slots_fit(Self::rules(), #[trigger] item_views(rest@)[i]),
            decreases rest.len(),
        {
            let ghost before = rest@;
            let first = rest.remove(0);
            assert(item_views(before)[0] == slot_views(first@));
            assert forall|i: int| 0 <= i < rest@.len() implies slots_fit(
                Self::rules(),
                #[trigger] item_views(rest@)[i],
            ) by {
                assert(item_views(rest@)[i] == item_views(before)[i + 1]);
            }
            let item = Self::from_slots(first);
            let ghost prev = out@;
            out.push(item);
            assert(Self::item_slots(out@) =~= Self::item_slots(prev).push(item.slots()));
            assert(item_views(before) =~= seq![item.slots()] + item_views(rest@));
            assert(Self::item_slots(out@) + item_views(rest@) =~= Self::item_slots(prev) + item_views(
                before,
            ));
        }
        assert(item_views(rest@) =~= Seq::<Seq<Seq<FieldView>>>::empty());
        assert(Self::item_slots(out@) + item_views(rest@) =~= Self::item_slots(out@));
        out
    }

    /// The slots of a list of items.
    pub open spec fn item_slots(v: Seq<MT110Cheque>) -> Seq<Seq<Seq<FieldView>>> {
        v.map_values(|t: MT110Cheque| t.slots())
    }

    /// The fields of a list of items, in writing order.
    pub open spec fn items_in_order(v: Seq<MT110Cheque>) -> Seq<FieldView>
        decreases v.len(),
    {
        if v.len() == 0 {
            Seq::empty()
        } else {
            Self::items_in_order(v.drop_last()) + v.last().fields_in_order()
        }
    }

    /// The fields of the item as (tag, content) pairs, in writing order.
    pub fn to_ordered_fields(&self) -> (r: Vec<(String, String)>)
        ensures
            pair_views(r@) == self.fields_in_order(),
    {
        proof {
            reveal(MT110Cheque::fields_in_order);
        }
        let mut v: Vec<(String, String)> = Vec::new();
        push_field(&mut v, &self.field_21);
        assert(pair_views(v@) =~= seq![self.field_21@]);
        push_field(&mut v, &self.field_30);
        push_field(&mut v, &self.field_32);
        push_optional(&mut v, &self.field_50);
        push_optional(&mut v, &self.field_52);
        push_field(&mut v, &self.field_59);
        v
    }

    /// Adds the fields of the item, in writing order.
    fn push_ordered(&self, v: &mut Vec<(String, String)>)
        ensures
            pair_views(final(v)@) == pair_views(old(v)@) + self.fields_in_order(),
    {
        let mut w = self.to_ordered_fields();
        let ghost pv0 = pair_views(v@);
        let ghost pw = pair_views(w@);
        v.append(&mut w);
        assert(pair_views(v@) =~= pv0 + pw);
    }

    /// Adds the fields of each item, in writing order.
    #[verifier::spinoff_prover]
    #[verifier::rlimit(60)]
    fn push_items(items: &Vec<MT110Cheque>, v: &mut Vec<(String, String)>)
        ensures
            pair_views(final(v)@) == pair_views(old(v)@) + Self::items_in_order(items@),
    {
        let ghost start = pair_views(v@);
        let mut i: usize = 0;
        assert(start + Self::items_in_order(items@.take(0)) =~= start);
        while i < items.len()
            invariant
                i <= items.len(),
                pair_views(v@) == start + Self::items_in_order(items@.take(i as int)),
            decreases items.len() - i,
        {
            items[i].push_ordered(v);
            assert(items@.take(i + 1).drop_last() =~= items@.take(i as int));
            assert(start + Self::items_in_order(items@.take(i as int)) + items@[i as int].fields_in_order()
                =~= start + Self::items_in_order(items@.take(i + 1)));
            i = i + 1;
        }
        assert(items@.take(items.len() as int) =~= items@);
    }
}

/// MT110: Advice of Cheque(s)
#[derive(Debug, Clone, PartialEq)]
pub struct MT110 {
    pub field_20: RawField,
    pub field_53a: Option<RawField>,
    pub field_54a: Option<RawField>,
    pub field_72: Option<RawField>,
    /// Cheque details (repeating sequence)
    pub cheques: Vec<MT110Cheque>,
}

impl MT110 {
    /// The layout of the message body.
    pub open spec fn body_layout() -> LayoutView {
        LayoutView {
            header: seq![
                RuleView::Mandatory("20"@),
                RuleView::OptionalOption("53"@, seq!["A"@, "B"@, "D"@]),
                RuleView::OptionalOption("54"@, seq!["A"@, "B"@, "D"@]),
                RuleView::Optional("72"@),
            ],
            item_start: "21"@,
            items: MT110Cheque::rules(),
            trailer: Seq::empty(),
            complete: false,
        }
    }

    /// The fields of the message as its layout took them.
    pub open spec fn slots(&self) -> ParsedView {
        (
            seq![
                seq![self.field_20@],
                opt_slot(self.field_53a),
                opt_slot(self.field_54a),
                opt_slot(self.field_72),
            ],
            MT110Cheque::item_slots(self.cheques@),
            Seq::empty(),
        )
    }

    /// The fields of the message in writing order.
    pub open spec fn fields_in_order(&self) -> Seq<FieldView> {
        seq![self.field_20@]
            + opt_slot(self.field_53a)
            + opt_slot(self.field_54a)
            + opt_slot(self.field_72)
            + MT110Cheque::items_in_order(self.cheques@)
    }

    /// The layout of the message body.
    #[verifier::spinoff_prover]
    fn layout_rules() -> (l: MessageLayout)
        ensures
            l@ == Self::body_layout(),
    {
        let l = MessageLayout {
            header: vec![
                FieldRule::Mandatory("20"),
                FieldRule::OptionalOption("53", vec!["A", "B", "D"]),
                FieldRule::OptionalOption("54", vec!["A", "B", "D"]),
                FieldRule::Optional("72"),
            ],
            item_start: "21",
            items: MT110Cheque::rule_list(),
            trailer: Vec::new(),
            complete: false,
        };
        assert(l@.header =~~= Self::body_layout().header);
        assert(l@.trailer =~~= Self::body_layout().trailer);
        assert(l@.items =~~= Self::body_layout().items);
        l
    }

    /// The message built from the fields its layout took.
    #[verifier::spinoff_prover]
    #[verifier::rlimit(80)]
    fn from_parsed(p: Parsed) -> (m: MT110)
        requires
            layout_fits(Self::body_layout(), p@),
        ensures
            m.slots() == p@,
    {
        let ghost pv = p@;
        let ghost all = pv.0;
        let ghost tail = pv.2;
        let Parsed { header, items, trailer } = p;
        let mut slots = header;
        assert(slot_views(slots@) =~= all.take(slots.len() as int));
        assert(slot_fits(Self::body_layout().header[0], all[0]));
        assert(slot_fits(Self::body_layout().header[1], all[1]));
        assert(slot_fits(Self::body_layout().header[2], all[2]));
        assert(slot_fits(Self::body_layout().header[3], all[3]));
        let field_72 = take_opt(&mut slots, Ghost(all));
        let field_54a = take_opt(&mut slots, Ghost(all));
        let field_53a = take_opt(&mut slots, Ghost(all));
        let field_20 = take_one(&mut slots, Ghost(all));
        let mut tslots = trailer;
        assert(slot_views(tslots@) =~= tail.take(tslots.len() as int));
        assert(forall|i: int|
            0 <= i < item_views(items@).len() ==> slots_fit(
                MT110Cheque::rules(),
                #[trigger] item_views(items@)[i],
            )) by {
            assert(item_views(items@) == pv.1);
        }
        let cheques = MT110Cheque::from_items(items);
        let m = MT110 { field_20, field_53a, field_54a, field_72, cheques };
        assert(m.slots().0 =~= pv.0);
        assert(m.slots().1 =~= pv.1);
        assert(m.slots().2 =~= pv.2);
        m
    }

    /// What parsing `block4` by the layout gives: the message with the
    /// fields each rule took, or the error that stands for the failure.
    pub open spec fn taken(block4: Seq<char>, r: Result<MT110, ParseError>) -> bool {
        match layout_outcome(block4, Self::body_layout()) {
            Ok(p) => match cheques_check(slot_currencies(p.1)) {
                Ok(()) => r matches Ok(m) && m.slots() == p,
                Err(msg) => r matches Err(ParseError::InvalidFormat { message }) && message@ == msg,
            },
            Err(e) => r matches Err(pe) && error_is(pe, e),
        }
    }

    /// Parse message from Block 4 content
    pub fn parse_from_block4(block4: &str) -> (r: Result<MT110, ParseError>)
        ensures
            Self::taken(block4@, r),
    {
        let layout = Self::layout_rules();
        match parse_layout(block4, "110", &layout) {
            Ok(p) => {
                let ghost items = p@.1;
                let m = Self::from_parsed(p);
                assert(cheque_currencies(m.cheques@) =~= slot_currencies(items));
                match m.validate_instance() {
                    Ok(()) => Ok(m),
                    Err(e) => Err(e),
                }
            },
            Err(e) => Err(e),
        }
    }

    /// The fields of the message as (tag, content) pairs, in writing order.
    pub fn to_ordered_fields(&self) -> (r: Vec<(String, String)>)
        ensures
            pair_views(r@) == self.fields_in_order(),
    {
        let mut v: Vec<(String, String)> = Vec::new();
        push_field(&mut v, &self.field_20);
        assert(pair_views(v@) =~= seq![self.field_20@]);
        push_optional(&mut v, &self.field_53a);
        push_optional(&mut v, &self.field_54a);
        push_optional(&mut v, &self.field_72);
        MT110Cheque::push_items(&self.cheques, &mut v);
        v
    }

    /// Convert to SWIFT MT text format
    pub fn to_mt_string(&self) -> (r: String)
        ensures
            r@ == mt_text(self.fields_in_order()),
    {
        render_mt(&self.to_ordered_fields())
    }

    /// Validation rules for the message
    pub fn validate() -> (r: &'static str)
        ensures
            r@ == VALIDATION_RULES@,
    {
        VALIDATION_RULES
    }
}

impl SwiftMessageBody for MT110 {
    open spec fn type_code() -> Seq<char> {
        "110"@
    }

    open spec fn layout() -> LayoutView {
        Self::body_layout()
    }

    open spec fn parsed(&self) -> ParsedView {
        self.slots()
    }

    open spec fn ordered(&self) -> Seq<FieldView> {
        self.fields_in_order()
    }

    open spec fn parse_spec(block4: Seq<char>, r: Result<Self, ParseError>) -> bool {
        Self::taken(block4, r)
    }

    open spec fn required_tags() -> Seq<Seq<char>> {
        seq![
            "20"@,
            "21"@,
            "30"@,
            "32"@,
            "59F"@,
        ]
    }

    open spec fn optional_tags() -> Seq<Seq<char>> {
        seq![
            "53"@,
            "54"@,
            "72"@,
            "50"@,
            "52"@,
        ]
    }

    open spec fn rejected(&self) -> bool {
        false
    }

    open spec fn returned(&self) -> bool {
        false
    }

    open spec fn cover(&self) -> bool {
        false
    }

    open spec fn stp(&self) -> bool {
        false
    }

    fn message_type() -> (r: &'static str) {
        "110"
    }

    fn parse_from_block4(block4: &str) -> (r: Result<Self, ParseError>) {
        MT110::parse_from_block4(block4)
    }

    fn to_ordered_fields(&self) -> (r: Vec<(String, String)>) {
        MT110::to_ordered_fields(self)
    }

    fn to_mt_string(&self) -> (r: String) {
        MT110::to_mt_string(self)
    }

    fn required_fields() -> (r: Vec<&'static str>) {
        let r = vec![
            "20",
            "21",
            "30",
            "32",
            "59F",
        ];
        assert(str_views(r@) =~= Self::required_tags());
        r
    }

    fn optional_fields() -> (r: Vec<&'static str>) {
        let r = vec![
            "53",
            "54",
            "72",
            "50",
            "52",
        ];
        assert(str_views(r@) =~= Self::optional_tags());
        r
    }

    fn has_reject_codes(&self) -> (b: bool) {
        false
    }

    fn has_return_codes(&self) -> (b: bool) {
        false
    }

    fn is_cover_message(&self) -> (b: bool) {
        false
    }

    fn is_stp_message(&self) -> (b: bool) {
        false
    }
}

/// `s` from `a` to `b`, each cut to the length of `s`.
pub open spec fn clip(s: Seq<char>, a: int, b: int) -> Seq<char> {
    let x = if a < s.len() { a } else { s.len() as int };
    let y = if b < s.len() { b } else { s.len() as int };
    if x < y { s.subrange(x, y) } else { Seq::empty() }
}

/// The currency of an amount field: after the date in a field 32A, the
/// first three characters otherwise.
pub open spec fn amount_currency(f: FieldView) -> Seq<char> {
    if f.0 == "32A"@ {
        clip(f.1, 6, 9)
    } else {
        clip(f.1, 0, 3)
    }
}

/// The currencies of the cheques.
pub open spec fn cheque_currencies(cs: Seq<MT110Cheque>) -> Seq<Seq<char>> {
    cs.map_values(|c: MT110Cheque| amount_currency(c.field_32@))
}

/// The rules on the cheques, given their currencies: one to ten cheques,
/// all in the currency of the first.
pub open spec fn cheques_check(cur: Seq<Seq<char>>) -> Result<(), Seq<char>> {
    if cur.len() > 10 {
        Err("MT110: Maximum 10 cheque details allowed (NVR C1)"@)
    } else if cur.len() == 0 {
        Err("MT110: At least one cheque detail is required"@)
    } else {
        match first_other(cur, 1) {
            Some(i) => Err("MT110: Currency mismatch in cheque "@ + crate::numeric::decimal((i + 1) as nat)
                + ": expected "@ + cur[0] + ", found "@ + cur[i] + " (NVR C2)"@),
            None => Ok(()),
        }
    }
}

/// The currencies of the cheques as the layout took them: that of the
/// amount field, the third slot of each cheque.
pub open spec fn slot_currencies(items: Seq<Seq<Seq<FieldView>>>) -> Seq<Seq<char>> {
    items.map_values(|it: Seq<Seq<FieldView>>| amount_currency(it[2][0]))
}

/// The first index from `i` on whose currency is not that of the first.
pub open spec fn first_other(cur: Seq<Seq<char>>, i: int) -> Option<int>
    decreases cur.len() - i,
{
    if i < 1 || i >= cur.len() {
        None
    } else if cur[i] != cur[0] {
        Some(i)
    } else {
        first_other(cur, i + 1)
    }
}

/// The text `s` from `a` to `b`, each cut to its length.
fn clip_exec(s: &Vec<char>, a: usize, b: usize) -> (r: Vec<char>)
    ensures
        r@ == clip(s@, a as int, b as int),
{
    let x = if a < s.len() { a } else { s.len() };
    let y = if b < s.len() { b } else { s.len() };
    if x < y {
        crate::text::slice_chars(s, x, y)
    } else {
        Vec::new()
    }
}

/// The currency of an amount field.
fn amount_currency_exec(f: &RawField) -> (r: Vec<char>)
    ensures
        r@ == amount_currency(f@),
{
    let v = crate::text::string_chars(&f.value);
    if crate::text::chars_eq(&crate::text::string_chars(&f.tag), &crate::text::to_chars("32A")) {
        clip_exec(&v, 6, 9)
    } else {
        clip_exec(&v, 0, 3)
    }
}

impl MT110 {
    /// The instance rules: one to ten cheques, all in one currency.
    pub open spec fn instance_check(&self) -> Result<(), Seq<char>> {
        cheques_check(cheque_currencies(self.cheques@))
    }

    /// Validate the message instance according to MT110 rules
    pub fn validate_instance(&self) -> (r: Result<(), ParseError>)
        ensures
            match self.instance_check() {
                Ok(()) => r is Ok,
                Err(msg) => r matches Err(ParseError::InvalidFormat { message }) && message@ == msg,
            },
    {
        let n = self.cheques.len();
        if n > 10 {
            return Err(ParseError::InvalidFormat {
                message: "MT110: Maximum 10 cheque details allowed (NVR C1)".to_string(),
            });
        }
        if n == 0 {
            return Err(ParseError::InvalidFormat {
                message: "MT110: At least one cheque detail is required".to_string(),
            });
        }
        let ghost cur = cheque_currencies(self.cheques@);
        let first = amount_currency_exec(&self.cheques[0].field_32);
        assert(first@ == cur[0]);
        let mut i: usize = 1;
        while i < n
            invariant
                1 <= i <= n,
                n <= 10,
                n == self.cheques@.len(),
                cur == cheque_currencies(self.cheques@),
                first@ == cur[0],
                first_other(cur, 1) == first_other(cur, i as int),
            decreases n - i,
        {
            let c = amount_currency_exec(&self.cheques[i].field_32);
            assert(c@ == cur[i as int]);
            if !crate::text::chars_eq(&c, &first) {
                let mut m = crate::text::to_chars("MT110: Currency mismatch in cheque ");
                crate::text::append_chars(&mut m, &crate::numeric::usize_to_decimal(i + 1));
                crate::text::append_chars(&mut m, &crate::text::to_chars(": expected "));
                crate::text::append_chars(&mut m, &first);
                crate::text::append_chars(&mut m, &crate::text::to_chars(", found "));
                crate::text::append_chars(&mut m, &c);
                crate::text::append_chars(&mut m, &crate::text::to_chars(" (NVR C2)"));
                proof {
                    assert(cur[i as int] != cur[0]);
                    assert(first_other(cur, i as int) == Some(i as int));
                    assert(m@ =~= "MT110: Currency mismatch in cheque "@ + crate::numeric::decimal(
                        (i + 1) as nat,
                    ) + ": expected "@ + cur[0] + ", found "@ + cur[i as int] + " (NVR C2)"@);
                }
                return Err(ParseError::InvalidFormat { message: crate::text::from_chars(&m) });
            }
            i = i + 1;
        }
        Ok(())
    }
}

impl MT110 {
    /// A parsed message keeps the cheque rules: one to ten cheques, all in
    /// the currency of the first.
    pub proof fn lemma_parsed_cheques(block4: Seq<char>, m: MT110)
        requires
            Self::taken(block4, Ok(m)),
        ensures
            m.instance_check() is Ok,
            1 <= m.cheques@.len() <= 10,
            forall|i: int| 0 <= i < m.cheques@.len() ==> #[trigger] cheque_currencies(m.cheques@)[i] == cheque_currencies(m.cheques@)[0],
    {
        let p = layout_outcome(block4, Self::body_layout())->Ok_0;
        assert(m.slots() == p);
        assert(cheque_currencies(m.cheques@) =~= slot_currencies(p.1)) by {
            assert forall|i: int| 0 <= i < m.cheques@.len() implies #[trigger] cheque_currencies(m.cheques@)[i] == slot_currencies(p.1)[i] by {
                assert(p.1[i] == m.cheques@[i].slots());
            }
        }
        let cur = cheque_currencies(m.cheques@);
        lemma_no_other(cur, 1);
    }
}

/// With no index from `i` on whose currency differs from the first, all
/// from `i` on share it.
proof fn lemma_no_other(cur: Seq<Seq<char>>, i: int)
    requires
        1 <= i,
        first_other(cur, i) is None,
    ensures
        forall|k: int| i <= k < cur.len() ==> #[trigger] cur[k] == cur[0],
    decreases cur.len() - i,
{
    if i < cur.len() {
        lemma_no_other(cur, i + 1);
    }
}

impl MT110 {
    /// The fields of the message as a field map: each value under its tag,
    /// with its place in writing order.
    pub fn to_fields(&self) -> (r: crate::field_map::FieldMap)
        ensures
            r@ == crate::field_map::map_from_pairs(crate::block4::positioned_pairs(self.fields_in_order())),
    {
        let v = self.to_ordered_fields();
        let ghost fs = self.fields_in_order();
        let mut r = crate::field_map::FieldMap::new();
        let mut i: usize = 0;
        while i < v.len()
            invariant
                i <= v.len(),
                pair_views(v@) == fs,
                r@ == crate::field_map::map_from_pairs(crate::block4::positioned_pairs(fs.take(i as int))),
            decreases v.len() - i,
        {
            let t = crate::text::string_chars(&v[i].0);
            proof {
                assert(fs[i as int] == (v@[i as int].0@, v@[i as int].1@));
                let pp = crate::block4::positioned_pairs(fs.take(i + 1));
                assert(pp.drop_last() =~= crate::block4::positioned_pairs(fs.take(i as int)));
                assert(pp.last() == (fs[i as int].0, (fs[i as int].1, i)));
            }
            r.insert(&t, v[i].1.clone(), i);
            i = i + 1;
        }
        assert(fs.take(v.len() as int) =~= fs);
        r
    }
}

impl MT110Cheque {
    /// The fields of the items in writing order are those of their slots,
    /// item after item.
    pub proof fn lemma_items_text(v: Seq<MT110Cheque>)
        ensures
            Self::items_in_order(v) == crate::sequence_round_trip::items_text(Self::item_slots(v)),
        decreases v.len(),
    {
        if v.len() == 0 {
            assert(Self::item_slots(v) =~= Seq::<Seq<Seq<FieldView>>>::empty());
        } else {
            Self::lemma_items_text(v.drop_last());
            assert(Self::item_slots(v).drop_last() =~= Self::item_slots(v.drop_last()));
            reveal(MT110Cheque::fields_in_order);
            reveal_with_fuel(crate::round_trip::flat, 7);
            assert(crate::round_trip::flat(v.last().slots()) =~= v.last().fields_in_order());
        }
    }
}

impl MT110 {
    /// Writing the message and parsing the text again gives back its
    /// fields, slot by slot and item by item, wherever each slot comes back
    /// to its rule: its fields carry tags that the rule reads back, and no
    /// rule finds a field that stands further on in place of its own.
    #[verifier::rlimit(50)]
    #[verifier::spinoff_prover]
    pub proof fn lemma_round_trip(m: MT110)
        requires
            cheques_check(slot_currencies(m.slots().1)) is Ok,
            crate::sequence_round_trip::sequential_parsed(Self::body_layout(), m.slots()),
            crate::round_trip::writable_fields(m.fields_in_order()),
            m.fields_in_order().len() <= usize::MAX,
        ensures
            forall|r: Result<MT110, ParseError>|
                Self::taken(mt_text(m.fields_in_order()), r) ==> (r matches Ok(x) && x.slots() == m.slots()),
    {
        MT110Cheque::lemma_items_text(m.cheques@);
        reveal_with_fuel(crate::round_trip::flat, 6);
        assert(crate::sequence_round_trip::parsed_text(m.slots()) =~= m.fields_in_order());
        crate::sequence_round_trip::lemma_sequential_layout_round_trip(Self::body_layout(), m.slots());
    }
}

impl MT110 {
    /// A request without cheques, or with more than ten, is invalid.
    pub proof fn lemma_cheque_count(m: MT110)
        requires
            m.cheques.len() == 0 || m.cheques.len() > 10,
        ensures
            m.instance_check() is Err,
    {
    }

    /// A cheque whose amount is in another currency than the first cheque's
    /// makes the request invalid.
    pub proof fn lemma_cheque_currency(m: MT110, i: int)
        requires
            1 <= i < m.cheques.len(),
            amount_currency(m.cheques@[i].field_32@) != amount_currency(m.cheques@[0].field_32@),
        ensures
            m.instance_check() is Err,
    {
        let cur = cheque_currencies(m.cheques@);
        assert(cur[i] != cur[0]);
        lemma_other_found(cur, 1, i);
    }

    /// One to ten cheques, all with amounts in the first cheque's currency,
    /// make a valid request.
    pub proof fn lemma_one_currency_valid(m: MT110)
        requires
            1 <= m.cheques.len() <= 10,
            forall|i: int| 0 <= i < m.cheques.len() ==> amount_currency(#[trigger] m.cheques@[i].field_32@) == amount_currency(
                m.cheques@[0].field_32@,
            ),
        ensures
            m.instance_check() is Ok,
    {
        let cur = cheque_currencies(m.cheques@);
        assert forall|i: int| 0 <= i < cur.len() implies #[trigger] cur[i] == cur[0] by {
            assert(cur[i] == amount_currency(m.cheques@[i].field_32@));
        }
        lemma_other_none(cur, 1);
    }
}

/// A currency at `i` other than the first is found, there or before.
proof fn lemma_other_found(cur: Seq<Seq<char>>, j: int, i: int)
    requires
        1 <= j <= i < cur.len(),
        cur[i] != cur[0],
    ensures
        first_other(cur, j) is Some,
    decreases i - j,
{
    if j < i && cur[j] == cur[0] {
        lemma_other_found(cur, j + 1, i);
    }
}

/// Where every currency is the first, none other is found.
proof fn lemma_other_none(cur: Seq<Seq<char>>, j: int)
    requires
        1 <= j,
        forall|i: int| 0 <= i < cur.len() ==> #[trigger] cur[i] == cur[0],
    ensures
        first_other(cur, j) is None,
    decreases cur.len() - j,
{
    if j < cur.len() {
        lemma_other_none(cur, j + 1);
    }
}

} // verus!
