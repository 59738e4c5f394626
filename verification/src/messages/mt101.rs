//! MT101: Request for Transfer
//!
//! Used to instruct the account servicing institution to debit an account held by
//! the sender and to arrange for the payment to the beneficiary(ies).
//! Contains one or more transfer instructions.

use vstd::prelude::*;
use crate::errors::ParseError;
use crate::message_parser::{
    error_is, item_views, layout_fits, layout_outcome, many_slot, opt_slot, parse_layout,
    rule_views, slot_fits, slot_views, slots_fit, take_many, take_one, take_opt, FieldRule, FieldView,
    LayoutView, MessageLayout, Parsed, ParsedView, RawField, RuleView,
};
use crate::parsing_utils::{
    block4_of, extract_block4, mt_text, pair_views, push_field, push_optional, push_repeated,
    render_mt,
};
use crate::text::str_views;
use crate::traits::SwiftMessageBody;

verus! {

/// The validation rules of the message, as JSONLogic.
pub const VALIDATION_RULES: &'static str = r#"{"rules": [{"id": "BASIC", "description": "Basic validation", "condition": true}]}"#;

/// One transfer instruction of an MT101 (sequence B).
#[derive(Debug, Clone, PartialEq)]
pub struct MT101Transaction {
    pub field_21: RawField,
    pub field_21f: Option<RawField>,
    pub field_23e: Option<Vec<RawField>>,
    pub field_32b: RawField,
    pub instructing_party_tx: Option<RawField>,
    pub ordering_customer_tx: Option<RawField>,
    pub field_52: Option<RawField>,
    pub field_56: Option<RawField>,
    pub field_57: Option<RawField>,
    pub field_59: RawField,
    pub field_70: Option<RawField>,
    pub field_77b: Option<RawField>,
    pub field_33b: Option<RawField>,
    pub field_71a: RawField,
    pub field_25a: Option<RawField>,
    pub field_36: Option<RawField>,
}

impl MT101Transaction {
    /// The rules by which an item is taken.
    pub open spec fn rules() -> Seq<RuleView> {
        seq![
            RuleView::Mandatory("21"@),
            RuleView::Optional("21F"@),
            RuleView::Repeated("23E"@),
            RuleView::Mandatory("32B"@),
            RuleView::OptionalOption("50"@, seq!["C"@, "L"@]),
            RuleView::OptionalOption("50"@, seq!["F"@, "G"@, "H"@]),
            RuleView::OptionalOption("52"@, seq!["A"@, "C"@]),
            RuleView::OptionalOption("56"@, seq!["A"@, "C"@, "D"@]),
            RuleView::OptionalOption("57"@, seq!["A"@, "B"@, "C"@, "D"@]),
            RuleView::MandatoryOption("59"@, seq![""@, "A"@, "F"@]),
            RuleView::Optional("70"@),
            RuleView::Optional("77B"@),
            RuleView::Optional("33B"@),
            RuleView::Mandatory("71A"@),
            RuleView::Optional("25A"@),
            RuleView::Optional("36"@),
        ]
    }

    /// The fields of the item as its rules took them.
    pub open spec fn slots(&self) -> Seq<Seq<FieldView>> {
        seq![
            seq![self.field_21@],
            opt_slot(self.field_21f),
            many_slot(self.field_23e),
            seq![self.field_32b@],
            opt_slot(self.instructing_party_tx),
            opt_slot(self.ordering_customer_tx),
            opt_slot(self.field_52),
            opt_slot(self.field_56),
            opt_slot(self.field_57),
            seq![self.field_59@],
            opt_slot(self.field_70),
            opt_slot(self.field_77b),
            opt_slot(self.field_33b),
            seq![self.field_71a@],
            opt_slot(self.field_25a),
            opt_slot(self.field_36),
        ]
    }

    /// The fields of the item in writing order.
    #[verifier::opaque]
    pub open spec fn fields_in_order(&self) -> Seq<FieldView> {
        seq![self.field_21@]
            + opt_slot(self.field_21f)
            + many_slot(self.field_23e)
            + seq![self.field_32b@]
            + opt_slot(self.instructing_party_tx)
            + opt_slot(self.ordering_customer_tx)
            + opt_slot(self.field_52)
            + opt_slot(self.field_56)
            + opt_slot(self.field_57)
            + seq![self.field_59@]
            + opt_slot(self.field_70)
            + opt_slot(self.field_77b)
            + opt_slot(self.field_33b)
            + seq![self.field_71a@]
            + opt_slot(self.field_25a)
            + opt_slot(self.field_36)
    }

    /// The rules by which an item is taken.
    fn rule_list() -> (r: Vec<FieldRule>)
        ensures
            rule_views(r@) == Self::rules(),
    {
        let r = vec![
            FieldRule::Mandatory("21"),
            FieldRule::Optional("21F"),
            FieldRule::Repeated("23E"),
            FieldRule::Mandatory("32B"),
            FieldRule::OptionalOption("50", vec!["C", "L"]),
            FieldRule::OptionalOption("50", vec!["F", "G", "H"]),
            FieldRule::OptionalOption("52", vec!["A", "C"]),
            FieldRule::OptionalOption("56", vec!["A", "C", "D"]),
            FieldRule::OptionalOption("57", vec!["A", "B", "C", "D"]),
            FieldRule::MandatoryOption("59", vec!["", "A", "F"]),
            FieldRule::Optional("70"),
            FieldRule::Optional("77B"),
            FieldRule::Optional("33B"),
            FieldRule::Mandatory("71A"),
            FieldRule::Optional("25A"),
            FieldRule::Optional("36"),
        ];
        assert(rule_views(r@) =~~= Self::rules());
        r
    }

    /// The item built from the slots its rules took.
    fn from_slots(slots: Vec<Vec<RawField>>) -> (item: MT101Transaction)
        requires
            slots_fit(Self::rules(), slot_views(slots@)),
        ensures
            item.slots() == slot_views(slots@),
    {
        let ghost all = slot_views(slots@);
        let mut slots = slots;
        assert(slot_views(slots@) =~= all.take(slots.len() as int));
        let field_36 = take_opt(&mut slots, Ghost(all));
        let field_25a = take_opt(&mut slots, Ghost(all));
        let field_71a = take_one(&mut slots, Ghost(all));
        let field_33b = take_opt(&mut slots, Ghost(all));
        let field_77b = take_opt(&mut slots, Ghost(all));
        let field_70 = take_opt(&mut slots, Ghost(all));
        let field_59 = take_one(&mut slots, Ghost(all));
        let field_57 = take_opt(&mut slots, Ghost(all));
        let field_56 = take_opt(&mut slots, Ghost(all));
        let field_52 = take_opt(&mut slots, Ghost(all));
        let ordering_customer_tx = take_opt(&mut slots, Ghost(all));
        let instructing_party_tx = take_opt(&mut slots, Ghost(all));
        let field_32b = take_one(&mut slots, Ghost(all));
        let field_23e = take_many(&mut slots, Ghost(all));
        let field_21f = take_opt(&mut slots, Ghost(all));
        let field_21 = take_one(&mut slots, Ghost(all));
        let item = MT101Transaction { field_21, field_21f, field_23e, field_32b, instructing_party_tx, ordering_customer_tx, field_52, field_56, field_57, field_59, field_70, field_77b, field_33b, field_71a, field_25a, field_36 };
        assert(item.slots() =~= all);
        item
    }

    /// Items built from the slots their rules took, in order.
    #[verifier::spinoff_prover]
    fn from_items(items: Vec<Vec<Vec<RawField>>>) -> (v: Vec<MT101Transaction>)
        requires
            forall|i: int|
                0 <= i < items@.len() ==> slots_fit(Self::rules(), #[trigger] item_views(items@)[i]),
        ensures
            Self::item_slots(v@) == item_views(items@),
    {
        let ghost all = item_views(items@);
        let mut rest = items;
        let mut out: Vec<MT101Transaction> = Vec::new();
        assert(Self::item_slots(out@) + item_views(rest@) =~= all);
        while rest.len() > 0
            invariant
                Self::item_slots(out@) + item_views(rest@) == all,
                forall|i: int|
                    0 <= i < rest@.len() ==> slots_fit(Self::rules(), #[trigger] item_views(rest@)[i]),
            decreases rest.len(),
        {
            let ghost before = rest@;
            let first = rest.remove(0);
            assert(item_views(before)[0] == slot_views(first@));
            assert forall|i: int| 0 <= i < rest@.len() implies slots_fit(
                Self::rules(),
                #[trigger] item_views(rest@)[i],
            ) by {
                assert(item_views(rest@)[i] == item_views(before)[i + 1]);
            }
            let item = Self::from_slots(first);
            let ghost prev = out@;
            out.push(item);
            assert(Self::item_slots(out@) =~= Self::item_slots(prev).push(item.slots()));
            assert(item_views(before) =~= seq![item.slots()] + item_views(rest@));
            assert(Self::item_slots(out@) + item_views(rest@) =~= Self::item_slots(prev) + item_views(
                before,
            ));
        }
        assert(item_views(rest@) =~= Seq::<Seq<Seq<FieldView>>>::empty());
        assert(Self::item_slots(out@) + item_views(rest@) =~= Self::item_slots(out@));
        out
    }

    /// The slots of a list of items.
    pub open spec fn item_slots(v: Seq<MT101Transaction>) -> Seq<Seq<Seq<FieldView>>> {
        v.map_values(|t: MT101Transaction| t.slots())
    }

    /// The fields of a list of items, in writing order.
    pub open spec fn items_in_order(v: Seq<MT101Transaction>) -> Seq<FieldView>
        decreases v.len(),
    {
        if v.len() == 0 {
            Seq::empty()
        } else {
            Self::items_in_order(v.drop_last()) + v.last().fields_in_order()
        }
    }

    /// The fields of the item as (tag, content) pairs, in writing order.
    pub fn to_ordered_fields(&self) -> (r: Vec<(String, String)>)
        ensures
            pair_views(r@) == self.fields_in_order(),
    {
        proof {
            reveal(MT101Transaction::fields_in_order);
        }
        let mut v: Vec<(String, String)> = Vec::new();
        push_field(&mut v, &self.field_21);
        assert(pair_views(v@) =~= seq![self.field_21@]);
        push_optional(&mut v, &self.field_21f);
        push_repeated(&mut v, &self.field_23e);
        push_field(&mut v, &self.field_32b);
        push_optional(&mut v, &self.instructing_party_tx);
        push_optional(&mut v, &self.ordering_customer_tx);
        push_optional(&mut v, &self.field_52);
        push_optional(&mut v, &self.field_56);
        push_optional(&mut v, &self.field_57);
        push_field(&mut v, &self.field_59);
        push_optional(&mut v, &self.field_70);
        push_optional(&mut v, &self.field_77b);
        push_optional(&mut v, &self.field_33b);
        push_field(&mut v, &self.field_71a);
        push_optional(&mut v, &self.field_25a);
        push_optional(&mut v, &self.field_36);
        v
    }

    /// Adds the fields of the item, in writing order.
    fn push_ordered(&self, v: &mut Vec<(String, String)>)
        ensures
            pair_views(final(v)@) == pair_views(old(v)@) + self.fields_in_order(),
    {
        let mut w = self.to_ordered_fields();
        let ghost pv0 = pair_views(v@);
        let ghost pw = pair_views(w@);
        v.append(&mut w);
        assert(pair_views(v@) =~= pv0 + pw);
    }

    /// Adds the fields of each item, in writing order.
    #[verifier::spinoff_prover]
    #[verifier::rlimit(60)]
    fn push_items(items: &Vec<MT101Transaction>, v: &mut Vec<(String, String)>)
        ensures
            pair_views(final(v)@) == pair_views(old(v)@) + Self::items_in_order(items@),
    {
        let ghost start = pair_views(v@);
        let mut i: usize = 0;
        assert(start + Self::items_in_order(items@.take(0)) =~= start);
        while i < items.len()
            invariant
                i <= items.len(),
                pair_views(v@) == start + Self::items_in_order(items@.take(i as int)),
            decreases items.len() - i,
        {
            items[i].push_ordered(v);
            assert(items@.take(i + 1).drop_last() =~= items@.take(i as int));
            assert(start + Self::items_in_order(items@.take(i as int)) + items@[i as int].fields_in_order()
                =~= start + Self::items_in_order(items@.take(i + 1)));
            i = i + 1;
        }
        assert(items@.take(items.len() as int) =~= items@);
    }
}

/// MT101: Request for Transfer
#[derive(Debug, Clone, PartialEq)]
pub struct MT101 {
    pub field_20: RawField,
    pub field_21r: Option<RawField>,
    pub field_28d: RawField,
    pub instructing_party: Option<RawField>,
    pub ordering_customer: Option<RawField>,
    pub field_52a: Option<RawField>,
    pub field_51a: Option<RawField>,
    pub field_30: RawField,
    pub field_25: Option<RawField>,
    /// Transaction Details (repeating sequence)
    pub transactions: Vec<MT101Transaction>,
}

impl MT101 {
    /// The layout of the message body.
    pub open spec fn body_layout() -> LayoutView {
        LayoutView {
            header: seq![
                RuleView::Mandatory("20"@),
                RuleView::Optional("21R"@),
                RuleView::Mandatory("28D"@),
                RuleView::OptionalOption("50"@, seq!["C"@, "L"@]),
                RuleView::OptionalOption("50"@, seq!["F"@, "G"@, "H"@]),
                RuleView::OptionalOption("52"@, seq!["A"@, "C"@]),
                RuleView::Optional("51A"@),
                RuleView::Mandatory("30"@),
                RuleView::Optional("25"@),
            ],
            item_start: "21"@,
            items: MT101Transaction::rules(),
            trailer: Seq::empty(),
            complete: true,
        }
    }

    /// The fields of the message as its layout took them.
    pub open spec fn slots(&self) -> ParsedView {
        (
            seq![
                seq![self.field_20@],
                opt_slot(self.field_21r),
                seq![self.field_28d@],
                opt_slot(self.instructing_party),
                opt_slot(self.ordering_customer),
                opt_slot(self.field_52a),
                opt_slot(self.field_51a),
                seq![self.field_30@],
                opt_slot(self.field_25),
            ],
            MT101Transaction::item_slots(self.transactions@),
            Seq::empty(),
        )
    }

    /// The fields of the message in writing order.
    pub open spec fn fields_in_order(&self) -> Seq<FieldView> {
        seq![self.field_20@]
            + opt_slot(self.field_21r)
            + seq![self.field_28d@]
            + opt_slot(self.instructing_party)
            + opt_slot(self.ordering_customer)
            + opt_slot(self.field_52a)
            + opt_slot(self.field_51a)
            + seq![self.field_30@]
            + opt_slot(self.field_25)
            + MT101Transaction::items_in_order(self.transactions@)
    }

    /// The layout of the message body.
    #[verifier::spinoff_prover]
    fn layout_rules() -> (l: MessageLayout)
        ensures
            l@ == Self::body_layout(),
    {
        let l = MessageLayout {
            header: vec![
                FieldRule::Mandatory("20"),
                FieldRule::Optional("21R"),
                FieldRule::Mandatory("28D"),
                FieldRule::OptionalOption("50", vec!["C", "L"]),
                FieldRule::OptionalOption("50", vec!["F", "G", "H"]),
                FieldRule::OptionalOption("52", vec!["A", "C"]),
                FieldRule::Optional("51A"),
                FieldRule::Mandatory("30"),
                FieldRule::Optional("25"),
            ],
            item_start: "21",
            items: MT101Transaction::rule_list(),
            trailer: Vec::new(),
            complete: true,
        };
        assert(l@.header =~~= Self::body_layout().header);
        assert(l@.trailer =~~= Self::body_layout().trailer);
        assert(l@.items =~~= Self::body_layout().items);
        l
    }

    /// The message built from the fields its layout took.
    #[verifier::spinoff_prover]
    #[verifier::rlimit(80)]
    fn from_parsed(p: Parsed) -> (m: MT101)
        requires
            layout_fits(Self::body_layout(), p@),
        ensures
            m.slots() == p@,
    {
        let ghost pv = p@;
        let ghost all = pv.0;
        let ghost tail = pv.2;
        let Parsed { header, items, trailer } = p;
        let mut slots = header;
        assert(slot_views(slots@) =~= all.take(slots.len() as int));
        assert(slot_fits(Self::body_layout().header[0], all[0]));
        assert(slot_fits(Self::body_layout().header[1], all[1]));
        assert(slot_fits(Self::body_layout().header[2], all[2]));
        assert(slot_fits(Self::body_layout().header[3], all[3]));
        assert(slot_fits(Self::body_layout().header[4], all[4]));
        assert(slot_fits(Self::body_layout().header[5], all[5]));
        assert(slot_fits(Self::body_layout().header[6], all[6]));
        assert(slot_fits(Self::body_layout().header[7], all[7]));
        assert(slot_fits(Self::body_layout().header[8], all[8]));
        let field_25 = take_opt(&mut slots, Ghost(all));
        let field_30 = take_one(&mut slots, Ghost(all));
        let field_51a = take_opt(&mut slots, Ghost(all));
        let field_52a = take_opt(&mut slots, Ghost(all));
        let ordering_customer = take_opt(&mut slots, Ghost(all));
        let instructing_party = take_opt(&mut slots, Ghost(all));
        let field_28d = take_one(&mut slots, Ghost(all));
        let field_21r = take_opt(&mut slots, Ghost(all));
        let field_20 = take_one(&mut slots, Ghost(all));
        let mut tslots = trailer;
        assert(slot_views(tslots@) =~= tail.take(tslots.len() as int));
        assert(forall|i: int|
            0 <= i < item_views(items@).len() ==> slots_fit(
                MT101Transaction::rules(),
                #[trigger] item_views(items@)[i],
            )) by {
            assert(item_views(items@) == pv.1);
        }
        let transactions = MT101Transaction::from_items(items);
        let m = MT101 { field_20, field_21r, field_28d, instructing_party, ordering_customer, field_52a, field_51a, field_30, field_25, transactions };
        assert(m.slots().0 =~= pv.0);
        assert(m.slots().1 =~= pv.1);
        assert(m.slots().2 =~= pv.2);
        m
    }

    /// What parsing `block4` by the layout gives: the message with the
    /// fields each rule took, or the error that stands for the failure.
    pub open spec fn taken(block4: Seq<char>, r: Result<MT101, ParseError>) -> bool {
        match layout_outcome(block4, Self::body_layout()) {
            Ok(p) => r matches Ok(m) && m.slots() == p,
            Err(e) => r matches Err(pe) && error_is(pe, e),
        }
    }

    /// Parse message from Block 4 content
    pub fn parse_from_block4(block4: &str) -> (r: Result<MT101, ParseError>)
        ensures
            Self::taken(block4@, r),
    {
        let layout = Self::layout_rules();
        match parse_layout(block4, "101", &layout) {
            Ok(p) => Ok(Self::from_parsed(p)),
            Err(e) => Err(e),
        }
    }

    /// The fields of the message as (tag, content) pairs, in writing order.
    pub fn to_ordered_fields(&self) -> (r: Vec<(String, String)>)
        ensures
            pair_views(r@) == self.fields_in_order(),
    {
        let mut v: Vec<(String, String)> = Vec::new();
        push_field(&mut v, &self.field_20);
        assert(pair_views(v@) =~= seq![self.field_20@]);
        push_optional(&mut v, &self.field_21r);
        push_field(&mut v, &self.field_28d);
        push_optional(&mut v, &self.instructing_party);
        push_optional(&mut v, &self.ordering_customer);
        push_optional(&mut v, &self.field_52a);
        push_optional(&mut v, &self.field_51a);
        push_field(&mut v, &self.field_30);
        push_optional(&mut v, &self.field_25);
        MT101Transaction::push_items(&self.transactions, &mut v);
        v
    }

    /// Convert to SWIFT MT text format
    pub fn to_mt_string(&self) -> (r: String)
        ensures
            r@ == mt_text(self.fields_in_order()),
    {
        render_mt(&self.to_ordered_fields())
    }

    /// Parse from SWIFT MT text format
    pub fn parse(input: &str) -> (r: Result<MT101, ParseError>)
        ensures
            match block4_of(input@) {
                Some(b) => Self::taken(b, r),
                None => r matches Err(ParseError::InvalidFormat { message }) && message@
                    == "Block 4 not found"@,
            },
    {
        match extract_block4(input) {
            Ok(b) => Self::parse_from_block4(b.as_str()),
            Err(e) => Err(e),
        }
    }

    /// Validation rules for the message
    pub fn validate() -> (r: &'static str)
        ensures
            r@ == VALIDATION_RULES@,
    {
        VALIDATION_RULES
    }
}

impl SwiftMessageBody for MT101 {
    open spec fn type_code() -> Seq<char> {
        "101"@
    }

    open spec fn layout() -> LayoutView {
        Self::body_layout()
    }

    open spec fn parsed(&self) -> ParsedView {
        self.slots()
    }

    open spec fn ordered(&self) -> Seq<FieldView> {
        self.fields_in_order()
    }

    open spec fn parse_spec(block4: Seq<char>, r: Result<Self, ParseError>) -> bool {
        Self::taken(block4, r)
    }

    open spec fn required_tags() -> Seq<Seq<char>> {
        seq![
            "20"@,
            "28D"@,
            "30"@,
            "21"@,
            "32B"@,
            "59"@,
            "71A"@,
        ]
    }

    open spec fn optional_tags() -> Seq<Seq<char>> {
        seq![
            "21R"@,
            "50"@,
            "52"@,
            "51A"@,
            "25"@,
            "21F"@,
            "23E"@,
            "56"@,
            "57"@,
            "70"@,
            "77B"@,
            "33B"@,
            "25A"@,
            "36"@,
        ]
    }

    open spec fn rejected(&self) -> bool {
        false
    }

    open spec fn returned(&self) -> bool {
        false
    }

    open spec fn cover(&self) -> bool {
        false
    }

    open spec fn stp(&self) -> bool {
        false
    }

    fn message_type() -> (r: &'static str) {
        "101"
    }

    fn parse_from_block4(block4: &str) -> (r: Result<Self, ParseError>) {
        MT101::parse_from_block4(block4)
    }

    fn to_ordered_fields(&self) -> (r: Vec<(String, String)>) {
        MT101::to_ordered_fields(self)
    }

    fn to_mt_string(&self) -> (r: String) {
        MT101::to_mt_string(self)
    }

    fn required_fields() -> (r: Vec<&'static str>) {
        let r = vec![
            "20",
            "28D",
            "30",
            "21",
            "32B",
            "59",
            "71A",
        ];
        assert(str_views(r@) =~= Self::required_tags());
        r
    }

    fn optional_fields() -> (r: Vec<&'static str>) {
        let r = vec![
            "21R",
            "50",
            "52",
            "51A",
            "25",
            "21F",
            "23E",
            "56",
            "57",
            "70",
            "77B",
            "33B",
            "25A",
            "36",
        ];
        assert(str_views(r@) =~= Self::optional_tags());
        r
    }

    fn has_reject_codes(&self) -> (b: bool) {
        false
    }

    fn has_return_codes(&self) -> (b: bool) {
        false
    }

    fn is_cover_message(&self) -> (b: bool) {
        false
    }

    fn is_stp_message(&self) -> (b: bool) {
        false
    }
}

impl MT101Transaction {
    /// The fields of the items in writing order are those of their slots,
    /// item after item.
    pub proof fn lemma_items_text(v: Seq<MT101Transaction>)
        ensures
            Self::items_in_order(v) == crate::sequence_round_trip::items_text(Self::item_slots(v)),
        decreases v.len(),
    {
        if v.len() == 0 {
            assert(Self::item_slots(v) =~= Seq::<Seq<Seq<FieldView>>>::empty());
        } else {
            Self::lemma_items_text(v.drop_last());
            assert(Self::item_slots(v).drop_last() =~= Self::item_slots(v.drop_last()));
            reveal(MT101Transaction::fields_in_order);
            reveal_with_fuel(crate::round_trip::flat, 17);
            assert(crate::round_trip::flat(v.last().slots()) =~= v.last().fields_in_order());
        }
    }
}

impl MT101 {
    /// Writing the message and parsing the text again gives back its
    /// fields, slot by slot and item by item, wherever each slot comes back
    /// to its rule: its fields carry tags that the rule reads back, and no
    /// rule finds a field that stands further on in place of its own.
    #[verifier::rlimit(50)]
    #[verifier::spinoff_prover]
    pub proof fn lemma_round_trip(m: MT101)
        requires
            crate::sequence_round_trip::sequential_parsed(Self::body_layout(), m.slots()),
            crate::round_trip::writable_fields(m.fields_in_order()),
            m.fields_in_order().len() <= usize::MAX,
        ensures
            forall|r: Result<MT101, ParseError>|
                Self::taken(mt_text(m.fields_in_order()), r) ==> (r matches Ok(x) && x.slots() == m.slots()),
    {
        MT101Transaction::lemma_items_text(m.transactions@);
        reveal_with_fuel(crate::round_trip::flat, 11);
        assert(crate::sequence_round_trip::parsed_text(m.slots()) =~= m.fields_in_order());
        crate::sequence_round_trip::lemma_sequential_layout_round_trip(Self::body_layout(), m.slots());
    }
}

} // verus!
