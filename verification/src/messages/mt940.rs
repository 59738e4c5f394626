//! MT940: Customer Statement Message

use vstd::prelude::*;
use crate::errors::ParseError;
use crate::message_parser::{
    error_is, item_views, layout_fits, layout_outcome, many_slot, opt_slot, parse_layout,
    rule_views, slot_fits, slot_views, slots_fit, take_many, take_one, take_opt, FieldRule, FieldView,
    LayoutView, MessageLayout, Parsed, ParsedView, RawField, RuleView,
};
use crate::parsing_utils::{
    block4_of, extract_block4, mt_text, pair_views, push_field, push_optional, push_repeated,
    render_mt,
};
use crate::text::str_views;
use crate::traits::SwiftMessageBody;

verus! {

/// The validation rules of the message, as JSONLogic.
pub const VALIDATION_RULES: &'static str = r#"{"rules": [
            {"id": "C1", "description": "The repetitive sequence starting with field 61 must appear at least once and no more than 500 times"},
            {"id": "C2", "description": "If field 64 is present, fields 60F and 62F must also be present"}
        ]}"#;

/// One statement line of an MT940: field 61 with its optional field 86.
#[derive(Debug, Clone, PartialEq)]
pub struct MT940StatementLine {
    pub field_61: RawField,
    pub field_86: Option<RawField>,
}

impl MT940StatementLine {
    /// The rules by which an item is taken.
    pub open spec fn rules() -> Seq<RuleView> {
        seq![
            RuleView::Mandatory("61"@),
            RuleView::Optional("86"@),
        ]
    }

    /// The fields of the item as its rules took them.
    pub open spec fn slots(&self) -> Seq<Seq<FieldView>> {
        seq![
            seq![self.field_61@],
            opt_slot(self.field_86),
        ]
    }

    /// The fields of the item in writing order.
    #[verifier::opaque]
    pub open spec fn fields_in_order(&self) -> Seq<FieldView> {
        seq![self.field_61@]
            + opt_slot(self.field_86)
    }

    /// The rules by which an item is taken.
    fn rule_list() -> (r: Vec<FieldRule>)
        ensures
            rule_views(r@) == Self::rules(),
    {
        let r = vec![
            FieldRule::Mandatory("61"),
            FieldRule::Optional("86"),
        ];
        assert(rule_views(r@) =~~= Self::rules());
        r
    }

    /// The item built from the slots its rules took.
    fn from_slots(slots: Vec<Vec<RawField>>) -> (item: MT940StatementLine)
        requires
            slots_fit(Self::rules(), slot_views(slots@)),
        ensures
            item.slots() == slot_views(slots@),
    {
        let ghost all = slot_views(slots@);
        let mut slots = slots;
        assert(slot_views(slots@) =~= all.take(slots.len() as int));
        let field_86 = take_opt(&mut slots, Ghost(all));
        let field_61 = take_one(&mut slots, Ghost(all));
        let item = MT940StatementLine { field_61, field_86 };
        assert(item.slots() =~= all);
        item
    }

    /// Items built from the slots their rules took, in order.
    #[verifier::spinoff_prover]
    fn from_items(items: Vec<Vec<Vec<RawField>>>) -> (v: Vec<MT940StatementLine>)
        requires
            forall|i: int|
                0 <= i < items@.len() ==> slots_fit(Self::rules(), #[trigger] item_views(items@)[i]),
        ensures
            Self::item_slots(v@) == item_views(items@),
    {
        let ghost all = item_views(items@);
        let mut rest = items;
        let mut out: Vec<MT940StatementLine> = Vec::new();
        assert(Self::item_slots(out@) + item_views(rest@) =~= all);
        while rest.len() > 0
            invariant
                Self::item_slots(out@) + item_views(rest@) == all,
                forall|i: int|
                    0 <= i < rest@.len() ==> slots_fit(Self::rules(), #[trigger] item_views(rest@)[i]),
            decreases rest.len(),
        {
            let ghost before = rest@;
            let first = rest.remove(0);
            assert(item_views(before)[0] == slot_views(first@));
            assert forall|i: int| 0 <= i < rest@.len() implies slots_fit(
                Self::rules(),
                #[trigger] item_views(rest@)[i],
            ) by {
                assert(item_views(rest@)[i] == item_views(before)[i + 1]);
            }
            let item = Self::from_slots(first);
            let ghost prev = out@;
            out.push(item);
            assert(Self::item_slots(out@) =~= Self::item_slots(prev).push(item.slots()));
            assert(item_views(before) =~= seq![item.slots()] + item_views(rest@));
            assert(Self::item_slots(out@) + item_views(rest@) =~= Self::item_slots(prev) + item_views(
                before,
            ));
        }
        assert(item_views(rest@) =~= Seq::<Seq<Seq<FieldView>>>::empty());
        assert(Self::item_slots(out@) + item_views(rest@) =~= Self::item_slots(out@));
        out
    }

    /// The slots of a list of items.
    pub open spec fn item_slots(v: Seq<MT940StatementLine>) -> Seq<Seq<Seq<FieldView>>> {
        v.map_values(|t: MT940StatementLine| t.slots())
    }

    /// The fields of a list of items, in writing order.
    pub open spec fn items_in_order(v: Seq<MT940StatementLine>) -> Seq<FieldView>
        decreases v.len(),
    {
        if v.len() == 0 {
            Seq::empty()
        } else {
            Self::items_in_order(v.drop_last()) + v.last().fields_in_order()
        }
    }

    /// The fields of the item as (tag, content) pairs, in writing order.
    pub fn to_ordered_fields(&self) -> (r: Vec<(String, String)>)
        ensures
            pair_views(r@) == self.fields_in_order(),
    {
        proof {
            reveal(MT940StatementLine::fields_in_order);
        }
        let mut v: Vec<(String, String)> = Vec::new();
        push_field(&mut v, &self.field_61);
        assert(pair_views(v@) =~= seq![self.field_61@]);
        push_optional(&mut v, &self.field_86);
        v
    }

    /// Adds the fields of the item, in writing order.
    fn push_ordered(&self, v: &mut Vec<(String, String)>)
        ensures
            pair_views(final(v)@) == pair_views(old(v)@) + self.fields_in_order(),
    {
        let mut w = self.to_ordered_fields();
        let ghost pv0 = pair_views(v@);
        let ghost pw = pair_views(w@);
        v.append(&mut w);
        assert(pair_views(v@) =~= pv0 + pw);
    }

    /// Adds the fields of each item, in writing order.
    #[verifier::spinoff_prover]
    #[verifier::rlimit(60)]
    fn push_items(items: &Vec<MT940StatementLine>, v: &mut Vec<(String, String)>)
        ensures
            pair_views(final(v)@) == pair_views(old(v)@) + Self::items_in_order(items@),
    {
        let ghost start = pair_views(v@);
        let mut i: usize = 0;
        assert(start + Self::items_in_order(items@.take(0)) =~= start);
        while i < items.len()
            invariant
                i <= items.len(),
                pair_views(v@) == start + Self::items_in_order(items@.take(i as int)),
            decreases items.len() - i,
        {
            items[i].push_ordered(v);
            assert(items@.take(i + 1).drop_last() =~= items@.take(i as int));
            assert(start + Self::items_in_order(items@.take(i as int)) + items@[i as int].fields_in_order()
                =~= start + Self::items_in_order(items@.take(i + 1)));
            i = i + 1;
        }
        assert(items@.take(items.len() as int) =~= items@);
    }
}

/// MT940: Customer Statement Message
#[derive(Debug, Clone, PartialEq)]
pub struct MT940 {
    pub field_20: RawField,
    pub field_21: Option<RawField>,
    pub field_25: RawField,
    pub field_28c: RawField,
    pub field_60f: RawField,
    pub field_62f: RawField,
    pub field_64: Option<RawField>,
    pub field_65: Option<Vec<RawField>>,
    /// Statement lines
    pub statement_lines: Vec<MT940StatementLine>,
}

impl MT940 {
    /// The layout of the message body.
    pub open spec fn body_layout() -> LayoutView {
        LayoutView {
            header: seq![
                RuleView::Mandatory("20"@),
                RuleView::Optional("21"@),
                RuleView::Mandatory("25"@),
                RuleView::Mandatory("28C"@),
                RuleView::Mandatory("60F"@),
            ],
            item_start: "61"@,
            items: MT940StatementLine::rules(),
            trailer: seq![
                RuleView::Mandatory("62F"@),
                RuleView::Optional("64"@),
                RuleView::Repeated("65"@),
            ],
            complete: false,
        }
    }

    /// The fields of the message as its layout took them.
    pub open spec fn slots(&self) -> ParsedView {
        (
            seq![
                seq![self.field_20@],
                opt_slot(self.field_21),
                seq![self.field_25@],
                seq![self.field_28c@],
                seq![self.field_60f@],
            ],
            MT940StatementLine::item_slots(self.statement_lines@),
            seq![
                seq![self.field_62f@],
                opt_slot(self.field_64),
                many_slot(self.field_65),
            ],
        )
    }

    /// The fields of the message in writing order.
    pub open spec fn fields_in_order(&self) -> Seq<FieldView> {
        seq![self.field_20@]
            + opt_slot(self.field_21)
            + seq![self.field_25@]
            + seq![self.field_28c@]
            + seq![self.field_60f@]
            + MT940StatementLine::items_in_order(self.statement_lines@)
            + seq![self.field_62f@]
            + opt_slot(self.field_64)
            + many_slot(self.field_65)
    }

    /// The layout of the message body.
    #[verifier::spinoff_prover]
    fn layout_rules() -> (l: MessageLayout)
        ensures
            l@ == Self::body_layout(),
    {
        let l = MessageLayout {
            header: vec![
                FieldRule::Mandatory("20"),
                FieldRule::Optional("21"),
                FieldRule::Mandatory("25"),
                FieldRule::Mandatory("28C"),
                FieldRule::Mandatory("60F"),
            ],
            item_start: "61",
            items: MT940StatementLine::rule_list(),
            trailer: vec![
                FieldRule::Mandatory("62F"),
                FieldRule::Optional("64"),
                FieldRule::Repeated("65"),
            ],
            complete: false,
        };
        assert(l@.header =~~= Self::body_layout().header);
        assert(l@.trailer =~~= Self::body_layout().trailer);
        assert(l@.items =~~= Self::body_layout().items);
        l
    }

    /// The message built from the fields its layout took.
    #[verifier::spinoff_prover]
    #[verifier::rlimit(80)]
    fn from_parsed(p: Parsed) -> (m: MT940)
        requires
            layout_fits(Self::body_layout(), p@),
        ensures
            m.slots() == p@,
    {
        let ghost pv = p@;
        let ghost all = pv.0;
        let ghost tail = pv.2;
        let Parsed { header, items, trailer } = p;
        let mut slots = header;
        assert(slot_views(slots@) =~= all.take(slots.len() as int));
        assert(slot_fits(Self::body_layout().header[0], all[0]));
        assert(slot_fits(Self::body_layout().header[1], all[1]));
        assert(slot_fits(Self::body_layout().header[2], all[2]));
        assert(slot_fits(Self::body_layout().header[3], all[3]));
        assert(slot_fits(Self::body_layout().header[4], all[4]));
        let field_60f = take_one(&mut slots, Ghost(all));
        let field_28c = take_one(&mut slots, Ghost(all));
        let field_25 = take_one(&mut slots, Ghost(all));
        let field_21 = take_opt(&mut slots, Ghost(all));
        let field_20 = take_one(&mut slots, Ghost(all));
        let mut tslots = trailer;
        assert(slot_views(tslots@) =~= tail.take(tslots.len() as int));
        assert(slot_fits(Self::body_layout().trailer[0], tail[0]));
        assert(slot_fits(Self::body_layout().trailer[1], tail[1]));
        assert(slot_fits(Self::body_layout().trailer[2], tail[2]));
        assert(forall|i: int|
            0 <= i < item_views(items@).len() ==> slots_fit(
                MT940StatementLine::rules(),
                #[trigger] item_views(items@)[i],
            )) by {
            assert(item_views(items@) == pv.1);
        }
        let field_65 = take_many(&mut tslots, Ghost(tail));
        let field_64 = take_opt(&mut tslots, Ghost(tail));
        let field_62f = take_one(&mut tslots, Ghost(tail));
        let statement_lines = MT940StatementLine::from_items(items);
        let m = MT940 { field_20, field_21, field_25, field_28c, field_60f, field_62f, field_64, field_65, statement_lines };
        assert(m.slots().0 =~= pv.0);
        assert(m.slots().1 =~= pv.1);
        assert(m.slots().2 =~= pv.2);
        m
    }

    /// What parsing `block4` by the layout gives: the message with the
    /// fields each rule took, or the error that stands for the failure.
    pub open spec fn taken(block4: Seq<char>, r: Result<MT940, ParseError>) -> bool {
        match layout_outcome(block4, Self::body_layout()) {
            Ok(p) => if p.1.len() == 0 {
                r matches Err(ParseError::InvalidFormat { message }) && message@
                    == "MT940: At least one statement line (field 61) is required"@
            } else {
                r matches Ok(m) && m.slots() == p
            },
            Err(e) => r matches Err(pe) && error_is(pe, e),
        }
    }

    /// Parse message from Block 4 content
    pub fn parse_from_block4(block4: &str) -> (r: Result<MT940, ParseError>)
        ensures
            Self::taken(block4@, r),
    {
        let layout = Self::layout_rules();
        match parse_layout(block4, "940", &layout) {
            Ok(p) => {
                if p.items.len() == 0 {
                    return Err(ParseError::InvalidFormat {
                        message: "MT940: At least one statement line (field 61) is required".to_string(),
                    });
                }
                Ok(Self::from_parsed(p))
            },
            Err(e) => Err(e),
        }
    }

    /// The fields of the message as (tag, content) pairs, in writing order.
    pub fn to_ordered_fields(&self) -> (r: Vec<(String, String)>)
        ensures
            pair_views(r@) == self.fields_in_order(),
    {
        let mut v: Vec<(String, String)> = Vec::new();
        push_field(&mut v, &self.field_20);
        assert(pair_views(v@) =~= seq![self.field_20@]);
        push_optional(&mut v, &self.field_21);
        push_field(&mut v, &self.field_25);
        push_field(&mut v, &self.field_28c);
        push_field(&mut v, &self.field_60f);
        MT940StatementLine::push_items(&self.statement_lines, &mut v);
        push_field(&mut v, &self.field_62f);
        push_optional(&mut v, &self.field_64);
        push_repeated(&mut v, &self.field_65);
        v
    }

    /// Convert to SWIFT MT text format
    pub fn to_mt_string(&self) -> (r: String)
        ensures
            r@ == mt_text(self.fields_in_order()),
    {
        render_mt(&self.to_ordered_fields())
    }

    /// Validation rules for the message
    pub fn validate() -> (r: &'static str)
        ensures
            r@ == VALIDATION_RULES@,
    {
        VALIDATION_RULES
    }
}

impl SwiftMessageBody for MT940 {
    open spec fn type_code() -> Seq<char> {
        "940"@
    }

    open spec fn layout() -> LayoutView {
        Self::body_layout()
    }

    open spec fn parsed(&self) -> ParsedView {
        self.slots()
    }

    open spec fn ordered(&self) -> Seq<FieldView> {
        self.fields_in_order()
    }

    open spec fn parse_spec(block4: Seq<char>, r: Result<Self, ParseError>) -> bool {
        Self::taken(block4, r)
    }

    open spec fn required_tags() -> Seq<Seq<char>> {
        seq![
            "20"@,
            "25"@,
            "28C"@,
            "60F"@,
            "62F"@,
            "61"@,
        ]
    }

    open spec fn optional_tags() -> Seq<Seq<char>> {
        seq![
            "21"@,
            "64"@,
            "65"@,
            "86"@,
        ]
    }

    open spec fn rejected(&self) -> bool {
        false
    }

    open spec fn returned(&self) -> bool {
        false
    }

    open spec fn cover(&self) -> bool {
        false
    }

    open spec fn stp(&self) -> bool {
        false
    }

    fn message_type() -> (r: &'static str) {
        "940"
    }

    fn parse_from_block4(block4: &str) -> (r: Result<Self, ParseError>) {
        MT940::parse_from_block4(block4)
    }

    fn to_ordered_fields(&self) -> (r: Vec<(String, String)>) {
        MT940::to_ordered_fields(self)
    }

    fn to_mt_string(&self) -> (r: String) {
        MT940::to_mt_string(self)
    }

    fn required_fields() -> (r: Vec<&'static str>) {
        let r = vec![
            "20",
            "25",
            "28C",
            "60F",
            "62F",
            "61",
        ];
        assert(str_views(r@) =~= Self::required_tags());
        r
    }

    fn optional_fields() -> (r: Vec<&'static str>) {
        let r = vec![
            "21",
            "64",
            "65",
            "86",
        ];
        assert(str_views(r@) =~= Self::optional_tags());
        r
    }

    fn has_reject_codes(&self) -> (b: bool) {
        false
    }

    fn has_return_codes(&self) -> (b: bool) {
        false
    }

    fn is_cover_message(&self) -> (b: bool) {
        false
    }

    fn is_stp_message(&self) -> (b: bool) {
        false
    }
}

impl MT940 {
    /// The instance rules: the statement lines occur 1 to 500 times.
    pub open spec fn instance_check(&self) -> Result<(), Seq<char>> {
        let n = self.statement_lines@.len();
        if n == 0 || n > 500 {
            Err("MT940: Statement lines must occur 1-500 times, found "@ + crate::numeric::decimal(n))
        } else {
            Ok(())
        }
    }

    /// Validate the message instance according to MT940 rules
    pub fn validate_instance(&self) -> (r: Result<(), ParseError>)
        ensures
            match self.instance_check() {
                Ok(()) => r is Ok,
                Err(msg) => r matches Err(ParseError::InvalidFormat { message }) && message@ == msg,
            },
    {
        let n = self.statement_lines.len();
        if n == 0 || n > 500 {
            let mut m = crate::text::to_chars("MT940: Statement lines must occur 1-500 times, found ");
            crate::text::append_chars(&mut m, &crate::numeric::usize_to_decimal(n));
            return Err(ParseError::InvalidFormat { message: crate::text::from_chars(&m) });
        }
        Ok(())
    }
}

impl MT940StatementLine {
    /// The fields of the items in writing order are those of their slots,
    /// item after item.
    pub proof fn lemma_items_text(v: Seq<MT940StatementLine>)
        ensures
            Self::items_in_order(v) == crate::sequence_round_trip::items_text(Self::item_slots(v)),
        decreases v.len(),
    {
        if v.len() == 0 {
            assert(Self::item_slots(v) =~= Seq::<Seq<Seq<FieldView>>>::empty());
        } else {
            Self::lemma_items_text(v.drop_last());
            assert(Self::item_slots(v).drop_last() =~= Self::item_slots(v.drop_last()));
            reveal(MT940StatementLine::fields_in_order);
            reveal_with_fuel(crate::round_trip::flat, 3);
            assert(crate::round_trip::flat(v.last().slots()) =~= v.last().fields_in_order());
        }
    }
}

impl MT940 {
    /// Writing the message and parsing the text again gives back its
    /// fields, slot by slot and item by item, wherever each slot comes back
    /// to its rule: its fields carry tags that the rule reads back, and no
    /// rule finds a field that stands further on in place of its own.
    #[verifier::rlimit(50)]
    #[verifier::spinoff_prover]
    pub proof fn lemma_round_trip(m: MT940)
        requires
            m.statement_lines.len() > 0,
            crate::sequence_round_trip::sequential_parsed(Self::body_layout(), m.slots()),
            crate::round_trip::writable_fields(m.fields_in_order()),
            m.fields_in_order().len() <= usize::MAX,
        ensures
            forall|r: Result<MT940, ParseError>|
                Self::taken(mt_text(m.fields_in_order()), r) ==> (r matches Ok(x) && x.slots() == m.slots()),
    {
        MT940StatementLine::lemma_items_text(m.statement_lines@);
        reveal_with_fuel(crate::round_trip::flat, 10);
        assert(crate::sequence_round_trip::parsed_text(m.slots()) =~= m.fields_in_order());
        crate::sequence_round_trip::lemma_sequential_layout_round_trip(Self::body_layout(), m.slots());
    }
}

impl MT940 {
    /// A statement without statement lines, or with more than 500, is
    /// invalid; one with 1 to 500 lines is valid.
    pub proof fn lemma_statement_line_count(m: MT940)
        ensures
            m.instance_check() is Ok <==> 1 <= m.statement_lines.len() <= 500,
    {
    }
}

} // verus!
