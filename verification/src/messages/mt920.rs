//! MT920: Request Message
//!
//! Used to request an account statement or report, one sequence per account.

use vstd::prelude::*;
use crate::errors::ParseError;
use crate::message_parser::{
    error_is, item_views, layout_fits, layout_outcome, many_slot, opt_slot, parse_layout,
    rule_views, slot_fits, slot_views, slots_fit, take_many, take_one, take_opt, FieldRule, FieldView,
    LayoutView, MessageLayout, Parsed, ParsedView, RawField, RuleView,
};
use crate::parsing_utils::{
    block4_of, extract_block4, mt_text, pair_views, push_field, push_optional, push_repeated,
    render_mt,
};
use crate::text::str_views;
use crate::traits::SwiftMessageBody;
use crate::numeric::{decimal, usize_to_decimal};
use crate::text::{append_chars, from_chars, to_chars};

verus! {

/// The validation rules of the message, as JSONLogic.
pub const VALIDATION_RULES: &'static str = r#"{"rules": [{"id": "BASIC", "description": "Basic validation", "condition": true}]}"#;

/// The network validation rules of the message, as JSONLogic.
pub const NETWORK_RULES: &'static str = r#"{
  "rules": [
    {
      "id": "C1",
      "description": "At least one sequence must be present",
      "condition": {
        "min_sequences": 1
      }
    },
    {
      "id": "C2",
      "description": "Maximum 100 sequences allowed",
      "condition": {
        "max_sequences": 100
      }
    }
  ]
}"#;

/// One request of an MT920: the message requested and the account, with optional floor limits.
#[derive(Debug, Clone, PartialEq)]
pub struct MT920Sequence {
    pub field_12: RawField,
    pub field_25: RawField,
    pub floor_limit_debit: Option<RawField>,
    pub floor_limit_credit: Option<RawField>,
}

impl MT920Sequence {
    /// The rules by which an item is taken.
    pub open spec fn rules() -> Seq<RuleView> {
        seq![
            RuleView::Mandatory("12"@),
            RuleView::MandatoryOption("25"@, seq![""@, "A"@]),
            RuleView::Optional("34F"@),
            RuleView::Optional("34F"@),
        ]
    }

    /// The fields of the item as its rules took them.
    pub open spec fn slots(&self) -> Seq<Seq<FieldView>> {
        seq![
            seq![self.field_12@],
            seq![self.field_25@],
            opt_slot(self.floor_limit_debit),
            opt_slot(self.floor_limit_credit),
        ]
    }

    /// The fields of the item in writing order.
    #[verifier::opaque]
    pub open spec fn fields_in_order(&self) -> Seq<FieldView> {
        seq![self.field_12@]
            + seq![self.field_25@]
            + opt_slot(self.floor_limit_debit)
            + opt_slot(self.floor_limit_credit)
    }

    /// The rules by which an item is taken.
    fn rule_list() -> (r: Vec<FieldRule>)
        ensures
            rule_views(r@) == Self::rules(),
    {
        let r = vec![
            FieldRule::Mandatory("12"),
            FieldRule::MandatoryOption("25", vec!["", "A"]),
            FieldRule::Optional("34F"),
            FieldRule::Optional("34F"),
        ];
        assert(rule_views(r@) =~~= Self::rules());
        r
    }

    /// The item built from the slots its rules took.
    fn from_slots(slots: Vec<Vec<RawField>>) -> (item: MT920Sequence)
        requires
            slots_fit(Self::rules(), slot_views(slots@)),
        ensures
            item.slots() == slot_views(slots@),
    {
        let ghost all = slot_views(slots@);
        let mut slots = slots;
        assert(slot_views(slots@) =~= all.take(slots.len() as int));
        let floor_limit_credit = take_opt(&mut slots, Ghost(all));
        let floor_limit_debit = take_opt(&mut slots, Ghost(all));
        let field_25 = take_one(&mut slots, Ghost(all));
        let field_12 = take_one(&mut slots, Ghost(all));
        let item = MT920Sequence { field_12, field_25, floor_limit_debit, floor_limit_credit };
        assert(item.slots() =~= all);
        item
    }

    /// Items built from the slots their rules took, in order.
    #[verifier::spinoff_prover]
    fn from_items(items: Vec<Vec<Vec<RawField>>>) -> (v: Vec<MT920Sequence>)
        requires
            forall|i: int|
                0 <= i < items@.len() ==> slots_fit(Self::rules(), #[trigger] item_views(items@)[i]),
        ensures
            Self::item_slots(v@) == item_views(items@),
    {
        let ghost all = item_views(items@);
        let mut rest = items;
        let mut out: Vec<MT920Sequence> = Vec::new();
        assert(Self::item_slots(out@) + item_views(rest@) =~= all);
        while rest.len() > 0
            invariant
                Self::item_slots(out@) + item_views(rest@) == all,
                forall|i: int|
                    0 <= i < rest@.len() ==> slots_fit(Self::rules(), #[trigger] item_views(rest@)[i]),
            decreases rest.len(),
        {
            let ghost before = rest@;
            let first = rest.remove(0);
            assert(item_views(before)[0] == slot_views(first@));
            assert forall|i: int| 0 <= i < rest@.len() implies slots_fit(
                Self::rules(),
                #[trigger] item_views(rest@)[i],
            ) by {
                assert(item_views(rest@)[i] == item_views(before)[i + 1]);
            }
            let item = Self::from_slots(first);
            let ghost prev = out@;
            out.push(item);
            assert(Self::item_slots(out@) =~= Self::item_slots(prev).push(item.slots()));
            assert(item_views(before) =~= seq![item.slots()] + item_views(rest@));
            assert(Self::item_slots(out@) + item_views(rest@) =~= Self::item_slots(prev) + item_views(
                before,
            ));
        }
        assert(item_views(rest@) =~= Seq::<Seq<Seq<FieldView>>>::empty());
        assert(Self::item_slots(out@) + item_views(rest@) =~= Self::item_slots(out@));
        out
    }

    /// The slots of a list of items.
    pub open spec fn item_slots(v: Seq<MT920Sequence>) -> Seq<Seq<Seq<FieldView>>> {
        v.map_values(|t: MT920Sequence| t.slots())
    }

    /// The fields of a list of items, in writing order.
    pub open spec fn items_in_order(v: Seq<MT920Sequence>) -> Seq<FieldView>
        decreases v.len(),
    {
        if v.len() == 0 {
            Seq::empty()
        } else {
            Self::items_in_order(v.drop_last()) + v.last().fields_in_order()
        }
    }

    /// The fields of the item as (tag, content) pairs, in writing order.
    pub fn to_ordered_fields(&self) -> (r: Vec<(String, String)>)
        ensures
            pair_views(r@) == self.fields_in_order(),
    {
        proof {
            reveal(MT920Sequence::fields_in_order);
        }
        let mut v: Vec<(String, String)> = Vec::new();
        push_field(&mut v, &self.field_12);
        assert(pair_views(v@) =~= seq![self.field_12@]);
        push_field(&mut v, &self.field_25);
        push_optional(&mut v, &self.floor_limit_debit);
        push_optional(&mut v, &self.floor_limit_credit);
        v
    }

    /// Adds the fields of the item, in writing order.
    fn push_ordered(&self, v: &mut Vec<(String, String)>)
        ensures
            pair_views(final(v)@) == pair_views(old(v)@) + self.fields_in_order(),
    {
        let mut w = self.to_ordered_fields();
        let ghost pv0 = pair_views(v@);
        let ghost pw = pair_views(w@);
        v.append(&mut w);
        assert(pair_views(v@) =~= pv0 + pw);
    }

    /// Adds the fields of each item, in writing order.
    #[verifier::spinoff_prover]
    #[verifier::rlimit(60)]
    fn push_items(items: &Vec<MT920Sequence>, v: &mut Vec<(String, String)>)
        ensures
            pair_views(final(v)@) == pair_views(old(v)@) + Self::items_in_order(items@),
    {
        let ghost start = pair_views(v@);
        let mut i: usize = 0;
        assert(start + Self::items_in_order(items@.take(0)) =~= start);
        while i < items.len()
            invariant
                i <= items.len(),
                pair_views(v@) == start + Self::items_in_order(items@.take(i as int)),
            decreases items.len() - i,
        {
            items[i].push_ordered(v);
            assert(items@.take(i + 1).drop_last() =~= items@.take(i as int));
            assert(start + Self::items_in_order(items@.take(i as int)) + items@[i as int].fields_in_order()
                =~= start + Self::items_in_order(items@.take(i + 1)));
            i = i + 1;
        }
        assert(items@.take(items.len() as int) =~= items@);
    }
}

/// MT920: Request Message
#[derive(Debug, Clone, PartialEq)]
pub struct MT920 {
    pub field_20: RawField,
    /// The requests, one per account
    pub sequence: Vec<MT920Sequence>,
}

impl MT920 {
    /// The layout of the message body.
    pub open spec fn body_layout() -> LayoutView {
        LayoutView {
            header: seq![
                RuleView::Mandatory("20"@),
            ],
            item_start: "12"@,
            items: MT920Sequence::rules(),
            trailer: Seq::empty(),
            complete: true,
        }
    }

    /// The fields of the message as its layout took them.
    pub open spec fn slots(&self) -> ParsedView {
        (
            seq![
                seq![self.field_20@],
            ],
            MT920Sequence::item_slots(self.sequence@),
            Seq::empty(),
        )
    }

    /// The fields of the message in writing order.
    pub open spec fn fields_in_order(&self) -> Seq<FieldView> {
        seq![self.field_20@]
            + MT920Sequence::items_in_order(self.sequence@)
    }

    /// The layout of the message body.
    #[verifier::spinoff_prover]
    fn layout_rules() -> (l: MessageLayout)
        ensures
            l@ == Self::body_layout(),
    {
        let l = MessageLayout {
            header: vec![
                FieldRule::Mandatory("20"),
            ],
            item_start: "12",
            items: MT920Sequence::rule_list(),
            trailer: Vec::new(),
            complete: true,
        };
        assert(l@.header =~~= Self::body_layout().header);
        assert(l@.trailer =~~= Self::body_layout().trailer);
        assert(l@.items =~~= Self::body_layout().items);
        l
    }

    /// The message built from the fields its layout took.
    #[verifier::spinoff_prover]
    #[verifier::rlimit(80)]
    fn from_parsed(p: Parsed) -> (m: MT920)
        requires
            layout_fits(Self::body_layout(), p@),
        ensures
            m.slots() == p@,
    {
        let ghost pv = p@;
        let ghost all = pv.0;
        let ghost tail = pv.2;
        let Parsed { header, items, trailer } = p;
        let mut slots = header;
        assert(slot_views(slots@) =~= all.take(slots.len() as int));
        assert(slot_fits(Self::body_layout().header[0], all[0]));
        let field_20 = take_one(&mut slots, Ghost(all));
        let mut tslots = trailer;
        assert(slot_views(tslots@) =~= tail.take(tslots.len() as int));
        assert(forall|i: int|
            0 <= i < item_views(items@).len() ==> slots_fit(
                MT920Sequence::rules(),
                #[trigger] item_views(items@)[i],
            )) by {
            assert(item_views(items@) == pv.1);
        }
        let sequence = MT920Sequence::from_items(items);
        let m = MT920 { field_20, sequence };
        assert(m.slots().0 =~= pv.0);
        assert(m.slots().1 =~= pv.1);
        assert(m.slots().2 =~= pv.2);
        m
    }

    /// What parsing `block4` by the layout gives: the message with the
    /// fields each rule took, or the error that stands for the failure.
    pub open spec fn taken(block4: Seq<char>, r: Result<MT920, ParseError>) -> bool {
        match layout_outcome(block4, Self::body_layout()) {
            Ok(p) => if p.1.len() > 100 {
                r matches Err(ParseError::InvalidFormat { message }) && message@ == "Maximum 100 repetitions allowed"@
            } else {
                r matches Ok(m) && m.slots() == p
            },
            Err(e) => r matches Err(pe) && error_is(pe, e),
        }
    }

    /// Parse message from Block 4 content
    pub fn parse_from_block4(block4: &str) -> (r: Result<MT920, ParseError>)
        ensures
            Self::taken(block4@, r),
    {
        let layout = Self::layout_rules();
        match parse_layout(block4, "920", &layout) {
            Ok(p) => {
                if p.items.len() > 100 {
                    return Err(ParseError::InvalidFormat { message: "Maximum 100 repetitions allowed".to_string() });
                }
                Ok(Self::from_parsed(p))
            },
            Err(e) => Err(e),
        }
    }

    /// The fields of the message as (tag, content) pairs, in writing order.
    pub fn to_ordered_fields(&self) -> (r: Vec<(String, String)>)
        ensures
            pair_views(r@) == self.fields_in_order(),
    {
        let mut v: Vec<(String, String)> = Vec::new();
        push_field(&mut v, &self.field_20);
        assert(pair_views(v@) =~= seq![self.field_20@]);
        MT920Sequence::push_items(&self.sequence, &mut v);
        v
    }

    /// Convert to SWIFT MT text format
    pub fn to_mt_string(&self) -> (r: String)
        ensures
            r@ == mt_text(self.fields_in_order()),
    {
        render_mt(&self.to_ordered_fields())
    }

    /// Validation rules for the message
    pub fn validate() -> (r: &'static str)
        ensures
            r@ == VALIDATION_RULES@,
    {
        VALIDATION_RULES
    }

    /// Parse from SWIFT MT text format, then apply the network rules.
    pub fn parse(input: &str) -> (r: Result<MT920, ParseError>)
        ensures
            match block4_of(input@) {
                Some(b) => match layout_outcome(b, Self::body_layout()) {
                    Ok(p) => if p.1.len() > 100 {
                        r matches Err(ParseError::InvalidFormat { message }) && message@
                            == "Maximum 100 repetitions allowed"@
                    } else if p.1.len() == 0 {
                        r matches Err(ParseError::InvalidFormat { message }) && message@
                            == "MT920: At least one sequence must be present"@
                    } else {
                        r matches Ok(m) && m.slots() == p
                    },
                    Err(e) => r matches Err(pe) && error_is(pe, e),
                },
                None => r matches Err(ParseError::InvalidFormat { message }) && message@
                    == "Block 4 not found"@,
            },
    {
        let block4 = match extract_block4(input) {
            Ok(b) => b,
            Err(e) => return Err(e),
        };
        let message = match Self::parse_from_block4(block4.as_str()) {
            Ok(m) => m,
            Err(e) => return Err(e),
        };
        match message.validate_network_rules() {
            Ok(()) => Ok(message),
            Err(e) => Err(e),
        }
    }

    /// The network rules: at least one and at most 100 sequences.
    pub fn validate_network_rules(&self) -> (r: Result<(), ParseError>)
        ensures
            self.sequence.len() == 0 ==> (r matches Err(ParseError::InvalidFormat { message })
                && message@ == "MT920: At least one sequence must be present"@),
            self.sequence.len() > 100 ==> (r matches Err(ParseError::InvalidFormat { message })
                && message@ == "MT920: Maximum 100 sequences allowed, found "@ + decimal(
                self.sequence.len() as nat,
            )),
            1 <= self.sequence.len() <= 100 ==> r is Ok,
    {
        if self.sequence.len() == 0 {
            return Err(
                ParseError::InvalidFormat {
                    message: "MT920: At least one sequence must be present".to_string(),
                },
            );
        }
        if self.sequence.len() > 100 {
            let mut m = to_chars("MT920: Maximum 100 sequences allowed, found ");
            append_chars(&mut m, &usize_to_decimal(self.sequence.len()));
            return Err(ParseError::InvalidFormat { message: from_chars(&m) });
        }
        Ok(())
    }

    /// The network validation rules of the message, as JSONLogic.
    pub fn validation_rules() -> (r: &'static str)
        ensures
            r@ == NETWORK_RULES@,
    {
        NETWORK_RULES
    }
}

impl SwiftMessageBody for MT920 {
    open spec fn type_code() -> Seq<char> {
        "920"@
    }

    open spec fn layout() -> LayoutView {
        Self::body_layout()
    }

    open spec fn parsed(&self) -> ParsedView {
        self.slots()
    }

    open spec fn ordered(&self) -> Seq<FieldView> {
        self.fields_in_order()
    }

    open spec fn parse_spec(block4: Seq<char>, r: Result<Self, ParseError>) -> bool {
        Self::taken(block4, r)
    }

    open spec fn required_tags() -> Seq<Seq<char>> {
        seq![
            "20"@,
            "12"@,
            "25"@,
        ]
    }

    open spec fn optional_tags() -> Seq<Seq<char>> {
        seq![
            "34F"@,
        ]
    }

    open spec fn rejected(&self) -> bool {
        false
    }

    open spec fn returned(&self) -> bool {
        false
    }

    open spec fn cover(&self) -> bool {
        false
    }

    open spec fn stp(&self) -> bool {
        false
    }

    fn message_type() -> (r: &'static str) {
        "920"
    }

    fn parse_from_block4(block4: &str) -> (r: Result<Self, ParseError>) {
        MT920::parse_from_block4(block4)
    }

    fn to_ordered_fields(&self) -> (r: Vec<(String, String)>) {
        MT920::to_ordered_fields(self)
    }

    fn to_mt_string(&self) -> (r: String) {
        MT920::to_mt_string(self)
    }

    fn required_fields() -> (r: Vec<&'static str>) {
        let r = vec![
            "20",
            "12",
            "25",
        ];
        assert(str_views(r@) =~= Self::required_tags());
        r
    }

    fn optional_fields() -> (r: Vec<&'static str>) {
        let r = vec![
            "34F",
        ];
        assert(str_views(r@) =~= Self::optional_tags());
        r
    }

    fn has_reject_codes(&self) -> (b: bool) {
        false
    }

    fn has_return_codes(&self) -> (b: bool) {
        false
    }

    fn is_cover_message(&self) -> (b: bool) {
        false
    }

    fn is_stp_message(&self) -> (b: bool) {
        false
    }
}

impl MT920Sequence {
    /// The fields of the items in writing order are those of their slots,
    /// item after item.
    pub proof fn lemma_items_text(v: Seq<MT920Sequence>)
        ensures
            Self::items_in_order(v) == crate::sequence_round_trip::items_text(Self::item_slots(v)),
        decreases v.len(),
    {
        if v.len() == 0 {
            assert(Self::item_slots(v) =~= Seq::<Seq<Seq<FieldView>>>::empty());
        } else {
            Self::lemma_items_text(v.drop_last());
            assert(Self::item_slots(v).drop_last() =~= Self::item_slots(v.drop_last()));
            reveal(MT920Sequence::fields_in_order);
            reveal_with_fuel(crate::round_trip::flat, 5);
            assert(crate::round_trip::flat(v.last().slots()) =~= v.last().fields_in_order());
        }
    }
}

impl MT920 {
    /// Writing the message and parsing the text again gives back its
    /// fields, slot by slot and item by item, wherever each slot comes back
    /// to its rule: its fields carry tags that the rule reads back, and no
    /// rule finds a field that stands further on in place of its own.
    #[verifier::rlimit(50)]
    #[verifier::spinoff_prover]
    pub proof fn lemma_round_trip(m: MT920)
        requires
            m.sequence.len() <= 100,
            crate::sequence_round_trip::sequential_parsed(Self::body_layout(), m.slots()),
            crate::round_trip::writable_fields(m.fields_in_order()),
            m.fields_in_order().len() <= usize::MAX,
        ensures
            forall|r: Result<MT920, ParseError>|
                Self::taken(mt_text(m.fields_in_order()), r) ==> (r matches Ok(x) && x.slots() == m.slots()),
    {
        MT920Sequence::lemma_items_text(m.sequence@);
        reveal_with_fuel(crate::round_trip::flat, 3);
        assert(crate::sequence_round_trip::parsed_text(m.slots()) =~= m.fields_in_order());
        crate::sequence_round_trip::lemma_sequential_layout_round_trip(Self::body_layout(), m.slots());
    }
}

} // verus!
