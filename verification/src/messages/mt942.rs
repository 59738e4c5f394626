//! MT942: Interim Transaction Report

use vstd::prelude::*;
use crate::errors::ParseError;
use crate::message_parser::{
    error_is, item_views, layout_fits, layout_outcome, many_slot, opt_slot, parse_layout,
    rule_views, slot_fits, slot_views, slots_fit, take_many, take_one, take_opt, FieldRule, FieldView,
    LayoutView, MessageLayout, Parsed, ParsedView, RawField, RuleView,
};
use crate::parsing_utils::{
    block4_of, extract_block4, mt_text, pair_views, push_field, push_optional, push_repeated,
    render_mt,
};
use crate::text::str_views;
use crate::traits::SwiftMessageBody;

verus! {

/// The validation rules of the message, as JSONLogic.
pub const VALIDATION_RULES: &'static str = r#"{"rules": [
            {"id": "C1", "description": "The first two characters of the three-character currency code in fields 34F, 61, 90D, and 90C must be the same for all occurrences"},
            {"id": "C2", "description": "The debit/credit mark in the first occurrence of field 34F may be D or C, but the second occurrence must have C"}
        ]}"#;

/// One statement line of an MT942: field 61 with its optional field 86.
#[derive(Debug, Clone, PartialEq)]
pub struct MT942StatementLine {
    pub field_61: RawField,
    pub field_86: Option<RawField>,
}

impl MT942StatementLine {
    /// The rules by which an item is taken.
    pub open spec fn rules() -> Seq<RuleView> {
        seq![
            RuleView::Mandatory("61"@),
            RuleView::Optional("86"@),
        ]
    }

    /// The fields of the item as its rules took them.
    pub open spec fn slots(&self) -> Seq<Seq<FieldView>> {
        seq![
            seq![self.field_61@],
            opt_slot(self.field_86),
        ]
    }

    /// The fields of the item in writing order.
    #[verifier::opaque]
    pub open spec fn fields_in_order(&self) -> Seq<FieldView> {
        seq![self.field_61@]
            + opt_slot(self.field_86)
    }

    /// The rules by which an item is taken.
    fn rule_list() -> (r: Vec<FieldRule>)
        ensures
            rule_views(r@) == Self::rules(),
    {
        let r = vec![
            FieldRule::Mandatory("61"),
            FieldRule::Optional("86"),
        ];
        assert(rule_views(r@) =~~= Self::rules());
        r
    }

    /// The item built from the slots its rules took.
    fn from_slots(slots: Vec<Vec<RawField>>) -> (item: MT942StatementLine)
        requires
            slots_fit(Self::rules(), slot_views(slots@)),
        ensures
            item.slots() == slot_views(slots@),
    {
        let ghost all = slot_views(slots@);
        let mut slots = slots;
        assert(slot_views(slots@) =~= all.take(slots.len() as int));
        let field_86 = take_opt(&mut slots, Ghost(all));
        let field_61 = take_one(&mut slots, Ghost(all));
        let item = MT942StatementLine { field_61, field_86 };
        assert(item.slots() =~= all);
        item
    }

    /// Items built from the slots their rules took, in order.
    #[verifier::spinoff_prover]
    fn from_items(items: Vec<Vec<Vec<RawField>>>) -> (v: Vec<MT942StatementLine>)
        requires
            forall|i: int|
                0 <= i < items@.len() ==> slots_fit(Self::rules(), #[trigger] item_views(items@)[i]),
        ensures
            Self::item_slots(v@) == item_views(items@),
    {
        let ghost all = item_views(items@);
        let mut rest = items;
        let mut out: Vec<MT942StatementLine> = Vec::new();
        assert(Self::item_slots(out@) + item_views(rest@) =~= all);
        while rest.len() > 0
            invariant
                Self::item_slots(out@) + item_views(rest@) == all,
                forall|i: int|
                    0 <= i < rest@.len() ==> slots_fit(Self::rules(), #[trigger] item_views(rest@)[i]),
            decreases rest.len(),
        {
            let ghost before = rest@;
            let first = rest.remove(0);
            assert(item_views(before)[0] == slot_views(first@));
            assert forall|i: int| 0 <= i < rest@.len() implies slots_fit(
                Self::rules(),
                #[trigger] item_views(rest@)[i],
            ) by {
                assert(item_views(rest@)[i] == item_views(before)[i + 1]);
            }
            let item = Self::from_slots(first);
            let ghost prev = out@;
            out.push(item);
            assert(Self::item_slots(out@) =~= Self::item_slots(prev).push(item.slots()));
            assert(item_views(before) =~= seq![item.slots()] + item_views(rest@));
            assert(Self::item_slots(out@) + item_views(rest@) =~= Self::item_slots(prev) + item_views(
                before,
            ));
        }
        assert(item_views(rest@) =~= Seq::<Seq<Seq<FieldView>>>::empty());
        assert(Self::item_slots(out@) + item_views(rest@) =~= Self::item_slots(out@));
        out
    }

    /// The slots of a list of items.
    pub open spec fn item_slots(v: Seq<MT942StatementLine>) -> Seq<Seq<Seq<FieldView>>> {
        v.map_values(|t: MT942StatementLine| t.slots())
    }

    /// The fields of a list of items, in writing order.
    pub open spec fn items_in_order(v: Seq<MT942StatementLine>) -> Seq<FieldView>
        decreases v.len(),
    {
        if v.len() == 0 {
            Seq::empty()
        } else {
            Self::items_in_order(v.drop_last()) + v.last().fields_in_order()
        }
    }

    /// The fields of the item as (tag, content) pairs, in writing order.
    pub fn to_ordered_fields(&self) -> (r: Vec<(String, String)>)
        ensures
            pair_views(r@) == self.fields_in_order(),
    {
        proof {
            reveal(MT942StatementLine::fields_in_order);
        }
        let mut v: Vec<(String, String)> = Vec::new();
        push_field(&mut v, &self.field_61);
        assert(pair_views(v@) =~= seq![self.field_61@]);
        push_optional(&mut v, &self.field_86);
        v
    }

    /// Adds the fields of the item, in writing order.
    fn push_ordered(&self, v: &mut Vec<(String, String)>)
        ensures
            pair_views(final(v)@) == pair_views(old(v)@) + self.fields_in_order(),
    {
        let mut w = self.to_ordered_fields();
        let ghost pv0 = pair_views(v@);
        let ghost pw = pair_views(w@);
        v.append(&mut w);
        assert(pair_views(v@) =~= pv0 + pw);
    }

    /// Adds the fields of each item, in writing order.
    #[verifier::spinoff_prover]
    #[verifier::rlimit(60)]
    fn push_items(items: &Vec<MT942StatementLine>, v: &mut Vec<(String, String)>)
        ensures
            pair_views(final(v)@) == pair_views(old(v)@) + Self::items_in_order(items@),
    {
        let ghost start = pair_views(v@);
        let mut i: usize = 0;
        assert(start + Self::items_in_order(items@.take(0)) =~= start);
        while i < items.len()
            invariant
                i <= items.len(),
                pair_views(v@) == start + Self::items_in_order(items@.take(i as int)),
            decreases items.len() - i,
        {
            items[i].push_ordered(v);
            assert(items@.take(i + 1).drop_last() =~= items@.take(i as int));
            assert(start + Self::items_in_order(items@.take(i as int)) + items@[i as int].fields_in_order()
                =~= start + Self::items_in_order(items@.take(i + 1)));
            i = i + 1;
        }
        assert(items@.take(items.len() as int) =~= items@);
    }
}

/// MT942: Interim Transaction Report
#[derive(Debug, Clone, PartialEq)]
pub struct MT942 {
    pub field_20: RawField,
    pub field_21: Option<RawField>,
    pub field_25: RawField,
    pub field_28c: RawField,
    pub floor_limit_debit: RawField,
    pub floor_limit_credit: Option<RawField>,
    pub field_13d: RawField,
    pub field_90d: Option<RawField>,
    pub field_90c: Option<RawField>,
    pub field_86: Option<RawField>,
    /// Statement lines
    pub statement_lines: Vec<MT942StatementLine>,
}

impl MT942 {
    /// The layout of the message body.
    pub open spec fn body_layout() -> LayoutView {
        LayoutView {
            header: seq![
                RuleView::Mandatory("13D"@),
                RuleView::Mandatory("20"@),
                RuleView::Optional("21"@),
                RuleView::Mandatory("25"@),
                RuleView::Mandatory("28C"@),
                RuleView::Mandatory("34F"@),
                RuleView::Optional("34F"@),
            ],
            item_start: "61"@,
            items: MT942StatementLine::rules(),
            trailer: seq![
                RuleView::Optional("90D"@),
                RuleView::Optional("90C"@),
                RuleView::Optional("86"@),
            ],
            complete: false,
        }
    }

    /// The fields of the message as its layout took them.
    pub open spec fn slots(&self) -> ParsedView {
        (
            seq![
                seq![self.field_13d@],
                seq![self.field_20@],
                opt_slot(self.field_21),
                seq![self.field_25@],
                seq![self.field_28c@],
                seq![self.floor_limit_debit@],
                opt_slot(self.floor_limit_credit),
            ],
            MT942StatementLine::item_slots(self.statement_lines@),
            seq![
                opt_slot(self.field_90d),
                opt_slot(self.field_90c),
                opt_slot(self.field_86),
            ],
        )
    }

    /// The fields of the message in writing order.
    pub open spec fn fields_in_order(&self) -> Seq<FieldView> {
        seq![self.field_20@]
            + opt_slot(self.field_21)
            + seq![self.field_25@]
            + seq![self.field_28c@]
            + seq![self.floor_limit_debit@]
            + opt_slot(self.floor_limit_credit)
            + seq![self.field_13d@]
            + MT942StatementLine::items_in_order(self.statement_lines@)
            + opt_slot(self.field_90d)
            + opt_slot(self.field_90c)
            + opt_slot(self.field_86)
    }

    /// The layout of the message body.
    #[verifier::spinoff_prover]
    fn layout_rules() -> (l: MessageLayout)
        ensures
            l@ == Self::body_layout(),
    {
        let l = MessageLayout {
            header: vec![
                FieldRule::Mandatory("13D"),
                FieldRule::Mandatory("20"),
                FieldRule::Optional("21"),
                FieldRule::Mandatory("25"),
                FieldRule::Mandatory("28C"),
                FieldRule::Mandatory("34F"),
                FieldRule::Optional("34F"),
            ],
            item_start: "61",
            items: MT942StatementLine::rule_list(),
            trailer: vec![
                FieldRule::Optional("90D"),
                FieldRule::Optional("90C"),
                FieldRule::Optional("86"),
            ],
            complete: false,
        };
        assert(l@.header =~~= Self::body_layout().header);
        assert(l@.trailer =~~= Self::body_layout().trailer);
        assert(l@.items =~~= Self::body_layout().items);
        l
    }

    /// The message built from the fields its layout took.
    #[verifier::spinoff_prover]
    #[verifier::rlimit(80)]
    fn from_parsed(p: Parsed) -> (m: MT942)
        requires
            layout_fits(Self::body_layout(), p@),
        ensures
            m.slots() == p@,
    {
        let ghost pv = p@;
        let ghost all = pv.0;
        let ghost tail = pv.2;
        let Parsed { header, items, trailer } = p;
        let mut slots = header;
        assert(slot_views(slots@) =~= all.take(slots.len() as int));
        assert(slot_fits(Self::body_layout().header[0], all[0]));
        assert(slot_fits(Self::body_layout().header[1], all[1]));
        assert(slot_fits(Self::body_layout().header[2], all[2]));
        assert(slot_fits(Self::body_layout().header[3], all[3]));
        assert(slot_fits(Self::body_layout().header[4], all[4]));
        assert(slot_fits(Self::body_layout().header[5], all[5]));
        assert(slot_fits(Self::body_layout().header[6], all[6]));
        let floor_limit_credit = take_opt(&mut slots, Ghost(all));
        let floor_limit_debit = take_one(&mut slots, Ghost(all));
        let field_28c = take_one(&mut slots, Ghost(all));
        let field_25 = take_one(&mut slots, Ghost(all));
        let field_21 = take_opt(&mut slots, Ghost(all));
        let field_20 = take_one(&mut slots, Ghost(all));
        let field_13d = take_one(&mut slots, Ghost(all));
        let mut tslots = trailer;
        assert(slot_views(tslots@) =~= tail.take(tslots.len() as int));
        assert(slot_fits(Self::body_layout().trailer[0], tail[0]));
        assert(slot_fits(Self::body_layout().trailer[1], tail[1]));
        assert(slot_fits(Self::body_layout().trailer[2], tail[2]));
        assert(forall|i: int|
            0 <= i < item_views(items@).len() ==> slots_fit(
                MT942StatementLine::rules(),
                #[trigger] item_views(items@)[i],
            )) by {
            assert(item_views(items@) == pv.1);
        }
        let field_86 = take_opt(&mut tslots, Ghost(tail));
        let field_90c = take_opt(&mut tslots, Ghost(tail));
        let field_90d = take_opt(&mut tslots, Ghost(tail));
        let statement_lines = MT942StatementLine::from_items(items);
        let m = MT942 { field_20, field_21, field_25, field_28c, floor_limit_debit, floor_limit_credit, field_13d, field_90d, field_90c, field_86, statement_lines };
        assert(m.slots().0 =~= pv.0);
        assert(m.slots().1 =~= pv.1);
        assert(m.slots().2 =~= pv.2);
        m
    }

    /// What parsing `block4` by the layout gives: the message with the
    /// fields each rule took, or the error that stands for the failure.
    pub open spec fn taken(block4: Seq<char>, r: Result<MT942, ParseError>) -> bool {
        match layout_outcome(block4, Self::body_layout()) {
            Ok(p) => r matches Ok(m) && m.slots() == p,
            Err(e) => r matches Err(pe) && error_is(pe, e),
        }
    }

    /// Parse message from Block 4 content
    pub fn parse_from_block4(block4: &str) -> (r: Result<MT942, ParseError>)
        ensures
            Self::taken(block4@, r),
    {
        let layout = Self::layout_rules();
        match parse_layout(block4, "942", &layout) {
            Ok(p) => Ok(Self::from_parsed(p)),
            Err(e) => Err(e),
        }
    }

    /// The fields of the message as (tag, content) pairs, in writing order.
    pub fn to_ordered_fields(&self) -> (r: Vec<(String, String)>)
        ensures
            pair_views(r@) == self.fields_in_order(),
    {
        let mut v: Vec<(String, String)> = Vec::new();
        push_field(&mut v, &self.field_20);
        assert(pair_views(v@) =~= seq![self.field_20@]);
        push_optional(&mut v, &self.field_21);
        push_field(&mut v, &self.field_25);
        push_field(&mut v, &self.field_28c);
        push_field(&mut v, &self.floor_limit_debit);
        push_optional(&mut v, &self.floor_limit_credit);
        push_field(&mut v, &self.field_13d);
        MT942StatementLine::push_items(&self.statement_lines, &mut v);
        push_optional(&mut v, &self.field_90d);
        push_optional(&mut v, &self.field_90c);
        push_optional(&mut v, &self.field_86);
        v
    }

    /// Convert to SWIFT MT text format
    pub fn to_mt_string(&self) -> (r: String)
        ensures
            r@ == mt_text(self.fields_in_order()),
    {
        render_mt(&self.to_ordered_fields())
    }

    /// Validation rules for the message
    pub fn validate() -> (r: &'static str)
        ensures
            r@ == VALIDATION_RULES@,
    {
        VALIDATION_RULES
    }
}

impl SwiftMessageBody for MT942 {
    open spec fn type_code() -> Seq<char> {
        "942"@
    }

    open spec fn layout() -> LayoutView {
        Self::body_layout()
    }

    open spec fn parsed(&self) -> ParsedView {
        self.slots()
    }

    open spec fn ordered(&self) -> Seq<FieldView> {
        self.fields_in_order()
    }

    open spec fn parse_spec(block4: Seq<char>, r: Result<Self, ParseError>) -> bool {
        Self::taken(block4, r)
    }

    open spec fn required_tags() -> Seq<Seq<char>> {
        seq![
            "13D"@,
            "20"@,
            "25"@,
            "28C"@,
            "34F"@,
            "61"@,
        ]
    }

    open spec fn optional_tags() -> Seq<Seq<char>> {
        seq![
            "21"@,
            "34F"@,
            "90D"@,
            "90C"@,
            "86"@,
        ]
    }

    open spec fn rejected(&self) -> bool {
        false
    }

    open spec fn returned(&self) -> bool {
        false
    }

    open spec fn cover(&self) -> bool {
        false
    }

    open spec fn stp(&self) -> bool {
        false
    }

    fn message_type() -> (r: &'static str) {
        "942"
    }

    fn parse_from_block4(block4: &str) -> (r: Result<Self, ParseError>) {
        MT942::parse_from_block4(block4)
    }

    fn to_ordered_fields(&self) -> (r: Vec<(String, String)>) {
        MT942::to_ordered_fields(self)
    }

    fn to_mt_string(&self) -> (r: String) {
        MT942::to_mt_string(self)
    }

    fn required_fields() -> (r: Vec<&'static str>) {
        let r = vec![
            "13D",
            "20",
            "25",
            "28C",
            "34F",
            "61",
        ];
        assert(str_views(r@) =~= Self::required_tags());
        r
    }

    fn optional_fields() -> (r: Vec<&'static str>) {
        let r = vec![
            "21",
            "34F",
            "90D",
            "90C",
            "86",
        ];
        assert(str_views(r@) =~= Self::optional_tags());
        r
    }

    fn has_reject_codes(&self) -> (b: bool) {
        false
    }

    fn has_return_codes(&self) -> (b: bool) {
        false
    }

    fn is_cover_message(&self) -> (b: bool) {
        false
    }

    fn is_stp_message(&self) -> (b: bool) {
        false
    }
}

/// The currency prefix of an optional field, by where its currency stands.
pub open spec fn opt_prefix(f: Option<RawField>, sum: bool) -> Option<Seq<char>> {
    match f {
        Some(x) => Some(
            crate::messages::amounts::prefix2(
                if sum {
                    crate::messages::amounts::sum_currency(x.value@)
                } else {
                    crate::messages::amounts::balance_currency(x.value@)
                },
            ),
        ),
        None => None,
    }
}

/// The currency prefix of an optional field.
fn opt_prefix_exec(f: &Option<RawField>, sum: bool) -> (r: Option<Vec<char>>)
    ensures
        match opt_prefix(*f, sum) {
            Some(p) => r matches Some(x) && x@ == p,
            None => r is None,
        },
{
    match f {
        Some(x) => {
            let c = if sum {
                crate::messages::amounts::sum_currency_exec(&x.value)
            } else {
                crate::messages::amounts::balance_currency_exec(&x.value)
            };
            Some(crate::messages::amounts::prefix2_exec(&c))
        },
        None => None,
    }
}

/// `a` then `b` then `c` then `d` then `e`, as one text.
fn cat5(a: &str, b: &Vec<char>, c: &str, d: &Vec<char>, e: &str) -> (r: String)
    ensures
        r@ == a@ + b@ + c@ + d@ + e@,
{
    let mut m = crate::text::to_chars(a);
    crate::text::append_chars(&mut m, b);
    crate::text::append_chars(&mut m, &crate::text::to_chars(c));
    crate::text::append_chars(&mut m, d);
    crate::text::append_chars(&mut m, &crate::text::to_chars(e));
    crate::text::from_chars(&m)
}

/// The message of a currency mismatch: `head` names the field.
pub open spec fn mismatch_942(head: Seq<char>, p: Seq<char>, base: Seq<char>) -> Seq<char> {
    head + p + "' does not match base currency '"@ + base + "'"@
}

/// The debug text of an optional indicator: `Some('C')` or `None`.
pub open spec fn indicator_text(i: Option<char>) -> Seq<char> {
    match i {
        Some(c) => "Some('"@ + seq![c] + "')"@,
        None => "None"@,
    }
}

impl MT942 {
    /// The instance rules: the currencies of the credit floor limit, 90D
    /// and 90C start with the same two characters as that of the debit
    /// floor limit, and the credit floor limit has the indicator C.
    pub open spec fn instance_check(&self) -> Result<(), Seq<char>> {
        let base = crate::messages::amounts::prefix2(
            crate::messages::amounts::floor_currency(self.floor_limit_debit.value@),
        );
        let credit = match self.floor_limit_credit {
            Some(x) => Some(crate::messages::amounts::prefix2(
                crate::messages::amounts::floor_currency(x.value@),
            )),
            None => None,
        };
        if credit matches Some(p) && p != base {
            Err(mismatch_942("MT942: Currency code mismatch - credit floor limit currency '"@, credit->0, base))
        } else if opt_prefix(self.field_90d, true) matches Some(p) && p != base {
            Err(mismatch_942("MT942: Currency code mismatch - field 90D currency '"@, opt_prefix(self.field_90d, true)->0, base))
        } else if opt_prefix(self.field_90c, true) matches Some(p) && p != base {
            Err(mismatch_942("MT942: Currency code mismatch - field 90C currency '"@, opt_prefix(self.field_90c, true)->0, base))
        } else {
            match self.floor_limit_credit {
                Some(x) => if crate::messages::amounts::floor_indicator(x.value@) != Some('C') {
                    Err("MT942: Second occurrence of field 34F must have indicator 'C', found '"@
                        + indicator_text(crate::messages::amounts::floor_indicator(x.value@)) + "'"@)
                } else {
                    Ok(())
                },
                None => Ok(()),
            }
        }
    }

    /// Validate the message instance according to MT942 rules
    pub fn validate_instance(&self) -> (r: Result<(), ParseError>)
        ensures
            match self.instance_check() {
                Ok(()) => r is Ok,
                Err(msg) => r matches Err(ParseError::InvalidFormat { message }) && message@ == msg,
            },
    {
        let base = crate::messages::amounts::prefix2_exec(
            &crate::messages::amounts::floor_currency_exec(&self.floor_limit_debit.value),
        );
        if let Some(x) = &self.floor_limit_credit {
            let p = crate::messages::amounts::prefix2_exec(
                &crate::messages::amounts::floor_currency_exec(&x.value),
            );
            if !crate::text::chars_eq(&p, &base) {
                let m = cat5("MT942: Currency code mismatch - credit floor limit currency '", &p, "' does not match base currency '", &base, "'");
                proof { assert(m@ =~= mismatch_942("MT942: Currency code mismatch - credit floor limit currency '"@, p@, base@)); }
                return Err(ParseError::InvalidFormat { message: m });
            }
        }
        if let Some(p) = opt_prefix_exec(&self.field_90d, true) {
            if !crate::text::chars_eq(&p, &base) {
                let m = cat5("MT942: Currency code mismatch - field 90D currency '", &p, "' does not match base currency '", &base, "'");
                proof { assert(m@ =~= mismatch_942("MT942: Currency code mismatch - field 90D currency '"@, p@, base@)); }
                return Err(ParseError::InvalidFormat { message: m });
            }
        }
        if let Some(p) = opt_prefix_exec(&self.field_90c, true) {
            if !crate::text::chars_eq(&p, &base) {
                let m = cat5("MT942: Currency code mismatch - field 90C currency '", &p, "' does not match base currency '", &base, "'");
                proof { assert(m@ =~= mismatch_942("MT942: Currency code mismatch - field 90C currency '"@, p@, base@)); }
                return Err(ParseError::InvalidFormat { message: m });
            }
        }
        if let Some(x) = &self.floor_limit_credit {
            let ind = crate::messages::amounts::floor_indicator_exec(&x.value);
            let is_c = match ind {
                Some(c) => c == 'C',
                None => false,
            };
            if !is_c {
                let mut m = crate::text::to_chars("MT942: Second occurrence of field 34F must have indicator 'C', found '");
                match ind {
                    Some(c) => {
                        crate::text::append_chars(&mut m, &crate::text::to_chars("Some('"));
                        m.push(c);
                        crate::text::append_chars(&mut m, &crate::text::to_chars("')"));
                    },
                    None => {
                        crate::text::append_chars(&mut m, &crate::text::to_chars("None"));
                    },
                }
                crate::text::append_chars(&mut m, &crate::text::to_chars("'"));
                proof {
                    assert(m@ =~= "MT942: Second occurrence of field 34F must have indicator 'C', found '"@
                        + indicator_text(ind) + "'"@);
                }
                return Err(ParseError::InvalidFormat { message: crate::text::from_chars(&m) });
            }
        }
        Ok(())
    }
}

impl MT942 {
    /// A credit floor limit (second 34F) whose currency starts with other
    /// letters than the debit floor limit's makes the message invalid.
    pub proof fn lemma_floor_currency_mismatch(m: MT942)
        requires
            m.floor_limit_credit matches Some(c) && c.value@.len() >= 2 && m.floor_limit_debit.value@.len() >= 2 && (
            c.value@[0] != m.floor_limit_debit.value@[0] || c.value@[1] != m.floor_limit_debit.value@[1]),
        ensures
            m.instance_check() is Err,
    {
        let c = m.floor_limit_credit->0.value@;
        let d = m.floor_limit_debit.value@;
        assert(crate::messages::amounts::prefix2(crate::messages::amounts::floor_currency(c)) =~= seq![c[0], c[1]]);
        assert(crate::messages::amounts::prefix2(crate::messages::amounts::floor_currency(d)) =~= seq![d[0], d[1]]);
    }

    /// A credit floor limit (second 34F) without the indicator `C` after
    /// its currency makes the message invalid.
    pub proof fn lemma_credit_floor_indicator(m: MT942)
        requires
            m.floor_limit_credit matches Some(c) && (c.value@.len() <= 3 || c.value@[3] != 'C'),
        ensures
            m.instance_check() is Err,
    {
    }

    /// A summary of debit (90D) entries whose currency, after the number of
    /// entries (its first `k` characters, digits), starts with other letters
    /// than the debit floor limit's makes the message invalid.
    pub proof fn lemma_field_90d_currency(m: MT942, k: int)
        requires
            m.field_90d matches Some(f) && 0 <= k && k + 2 <= f.value@.len() && (forall|i: int|
                0 <= i < k ==> crate::text::is_ascii_digit(#[trigger] f.value@[i])) && !crate::text::is_ascii_digit(f.value@[k])
                && m.floor_limit_debit.value@.len() >= 2 && (f.value@[k] != m.floor_limit_debit.value@[0] || f.value@[k + 1]
                != m.floor_limit_debit.value@[1]),
        ensures
            m.instance_check() is Err,
    {
        let d = m.floor_limit_debit.value@;
        assert(crate::messages::amounts::prefix2(crate::messages::amounts::floor_currency(d)) =~= seq![d[0], d[1]]);
        crate::messages::mt941::lemma_summary_letters(m.field_90d->0.value@, k);
    }

    /// A summary of credit (90C) entries whose currency, after the number of
    /// entries (its first `k` characters, digits), starts with other letters
    /// than the debit floor limit's makes the message invalid.
    pub proof fn lemma_field_90c_currency(m: MT942, k: int)
        requires
            m.field_90c matches Some(f) && 0 <= k && k + 2 <= f.value@.len() && (forall|i: int|
                0 <= i < k ==> crate::text::is_ascii_digit(#[trigger] f.value@[i])) && !crate::text::is_ascii_digit(f.value@[k])
                && m.floor_limit_debit.value@.len() >= 2 && (f.value@[k] != m.floor_limit_debit.value@[0] || f.value@[k + 1]
                != m.floor_limit_debit.value@[1]),
        ensures
            m.instance_check() is Err,
    {
        let d = m.floor_limit_debit.value@;
        assert(crate::messages::amounts::prefix2(crate::messages::amounts::floor_currency(d)) =~= seq![d[0], d[1]]);
        crate::messages::mt941::lemma_summary_letters(m.field_90c->0.value@, k);
    }

    /// Without summaries (90D, 90C), a message whose credit floor limit, if
    /// any, is in a currency starting with the debit floor limit's letters
    /// and carries the indicator `C` is valid.
    pub proof fn lemma_matching_floor_limits_valid(m: MT942)
        requires
            m.field_90d is None,
            m.field_90c is None,
            m.floor_limit_debit.value@.len() >= 2,
            m.floor_limit_credit matches Some(c) ==> c.value@.len() >= 4 && c.value@[0] == m.floor_limit_debit.value@[0]
                && c.value@[1] == m.floor_limit_debit.value@[1] && c.value@[3] == 'C',
        ensures
            m.instance_check() is Ok,
    {
        let d = m.floor_limit_debit.value@;
        assert(crate::messages::amounts::prefix2(crate::messages::amounts::floor_currency(d)) =~= seq![d[0], d[1]]);
        if m.floor_limit_credit is Some {
            let c = m.floor_limit_credit->0.value@;
            assert(crate::messages::amounts::prefix2(crate::messages::amounts::floor_currency(c)) =~= seq![c[0], c[1]]);
        }
    }
}

} // verus!
