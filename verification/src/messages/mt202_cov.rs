//! MT202 COV: General Financial Institution Transfer for Cover Payments

use vstd::prelude::*;
use crate::errors::ParseError;
use crate::message_parser::{
    error_is, item_views, layout_fits, layout_outcome, many_slot, opt_slot, parse_layout,
    rule_views, slot_fits, slot_views, slots_fit, take_many, take_one, take_opt, FieldRule, FieldView,
    LayoutView, MessageLayout, Parsed, ParsedView, RawField, RuleView,
};
use crate::parsing_utils::{
    block4_of, extract_block4, mt_text, pair_views, push_field, push_optional, push_repeated,
    render_mt,
};
use crate::text::str_views;
use crate::traits::SwiftMessageBody;

verus! {

/// The validation rules of the message, as JSONLogic.
pub const MT202_COV_VALIDATION_RULES: &'static str = r#"{
  "rules": [
    {
      "id": "C1",
      "description": "Sequence A: If 56a is present, 57a becomes mandatory",
      "condition": {
        "if": [
          {"or": [
            {"var": "field_56a.is_some"},
            {"var": "field_56d.is_some"}
          ]},
          {"or": [
            {"var": "field_57a.is_some"},
            {"var": "field_57b.is_some"},
            {"var": "field_57d.is_some"}
          ]},
          true
        ]
      }
    },
    {
      "id": "C2",
      "description": "Sequence B: If 56a is present, 57a becomes mandatory",
      "condition": {
        "if": [
          {"or": [
            {"var": "field_56a_seq_b.is_some"},
            {"var": "field_56c_seq_b.is_some"},
            {"var": "field_56d_seq_b.is_some"}
          ]},
          {"or": [
            {"var": "field_57a_seq_b.is_some"},
            {"var": "field_57b_seq_b.is_some"},
            {"var": "field_57c_seq_b.is_some"},
            {"var": "field_57d_seq_b.is_some"}
          ]},
          true
        ]
      }
    }
  ],
  "constants": {
    "VALID_TIME_CODES": ["CLS", "RNC", "SND"],
    "VALID_INSTRUCTION_CODES": ["/ACC/", "/INS/", "/INT/", "/COV/", "/REIMBURSEMENT/", "/SETTLEMENT/", "/SDVA/", "/RETN/", "/REJT/"],
    "VALID_CUSTOMER_OPTIONS": ["A", "F", "K"],
    "VALID_INSTITUTION_OPTIONS": ["A", "B", "C", "D"]
  }
}"#;

/// MT202 COV: General Financial Institution Transfer for Cover Payments
#[derive(Debug, Clone, PartialEq)]
pub struct MT202COV {
    pub field_20: RawField,
    pub field_21: RawField,
    pub field_32a: RawField,
    pub field_58a: RawField,
    pub field_13c: Option<Vec<RawField>>,
    pub field_52a: Option<RawField>,
    pub field_52d: Option<RawField>,
    pub field_53a: Option<RawField>,
    pub field_53b: Option<RawField>,
    pub field_53d: Option<RawField>,
    pub field_54a: Option<RawField>,
    pub field_54b: Option<RawField>,
    pub field_54d: Option<RawField>,
    pub field_56a: Option<RawField>,
    pub field_56d: Option<RawField>,
    pub field_57a: Option<RawField>,
    pub field_57b: Option<RawField>,
    pub field_57d: Option<RawField>,
    pub field_72: Option<RawField>,
    pub field_50a_seq_b: RawField,
    pub field_59a_seq_b: RawField,
    pub field_52a_seq_b: Option<RawField>,
    pub field_52d_seq_b: Option<RawField>,
    pub field_56a_seq_b: Option<RawField>,
    pub field_56c_seq_b: Option<RawField>,
    pub field_56d_seq_b: Option<RawField>,
    pub field_57a_seq_b: Option<RawField>,
    pub field_57b_seq_b: Option<RawField>,
    pub field_57c_seq_b: Option<RawField>,
    pub field_57d_seq_b: Option<RawField>,
    pub field_70: Option<RawField>,
    pub field_72_seq_b: Option<RawField>,
    pub field_33b: Option<RawField>,
}

impl MT202COV {
    /// The layout of the message body.
    pub open spec fn body_layout() -> LayoutView {
        LayoutView {
            header: seq![
                RuleView::Mandatory("20"@),
                RuleView::Mandatory("21"@),
                RuleView::Mandatory("32A"@),
                RuleView::Mandatory("58A"@),
                RuleView::Repeated("13C"@),
                RuleView::Optional("52A"@),
                RuleView::Optional("52D"@),
                RuleView::Optional("53A"@),
                RuleView::Optional("53B"@),
                RuleView::Optional("53D"@),
                RuleView::Optional("54A"@),
                RuleView::Optional("54B"@),
                RuleView::Optional("54D"@),
                RuleView::Optional("56A"@),
                RuleView::Optional("56D"@),
                RuleView::Optional("57A"@),
                RuleView::Optional("57B"@),
                RuleView::Optional("57D"@),
                RuleView::Optional("72"@),
                RuleView::Mandatory("50A"@),
                RuleView::Mandatory("59A"@),
                RuleView::Optional("52A"@),
                RuleView::Optional("52D"@),
                RuleView::Optional("56A"@),
                RuleView::Optional("56C"@),
                RuleView::Optional("56D"@),
                RuleView::Optional("57A"@),
                RuleView::Optional("57B"@),
                RuleView::Optional("57C"@),
                RuleView::Optional("57D"@),
                RuleView::Optional("70"@),
                RuleView::Optional("72"@),
                RuleView::Optional("33B"@),
            ],
            item_start: ""@,
            items: Seq::empty(),
            trailer: Seq::empty(),
            complete: false,
        }
    }

    /// The fields of the message as its layout took them.
    pub open spec fn slots(&self) -> ParsedView {
        (
            seq![
                seq![self.field_20@],
                seq![self.field_21@],
                seq![self.field_32a@],
                seq![self.field_58a@],
                many_slot(self.field_13c),
                opt_slot(self.field_52a),
                opt_slot(self.field_52d),
                opt_slot(self.field_53a),
                opt_slot(self.field_53b),
                opt_slot(self.field_53d),
                opt_slot(self.field_54a),
                opt_slot(self.field_54b),
                opt_slot(self.field_54d),
                opt_slot(self.field_56a),
                opt_slot(self.field_56d),
                opt_slot(self.field_57a),
                opt_slot(self.field_57b),
                opt_slot(self.field_57d),
                opt_slot(self.field_72),
                seq![self.field_50a_seq_b@],
                seq![self.field_59a_seq_b@],
                opt_slot(self.field_52a_seq_b),
                opt_slot(self.field_52d_seq_b),
                opt_slot(self.field_56a_seq_b),
                opt_slot(self.field_56c_seq_b),
                opt_slot(self.field_56d_seq_b),
                opt_slot(self.field_57a_seq_b),
                opt_slot(self.field_57b_seq_b),
                opt_slot(self.field_57c_seq_b),
                opt_slot(self.field_57d_seq_b),
                opt_slot(self.field_70),
                opt_slot(self.field_72_seq_b),
                opt_slot(self.field_33b),
            ],
            Seq::empty(),
            Seq::empty(),
        )
    }

    /// The fields of the message in writing order.
    pub open spec fn fields_in_order(&self) -> Seq<FieldView> {
        seq![self.field_20@]
            + seq![self.field_21@]
            + seq![self.field_32a@]
            + seq![self.field_58a@]
            + many_slot(self.field_13c)
            + opt_slot(self.field_52a)
            + opt_slot(self.field_52d)
            + opt_slot(self.field_53a)
            + opt_slot(self.field_53b)
            + opt_slot(self.field_53d)
            + opt_slot(self.field_54a)
            + opt_slot(self.field_54b)
            + opt_slot(self.field_54d)
            + opt_slot(self.field_56a)
            + opt_slot(self.field_56d)
            + opt_slot(self.field_57a)
            + opt_slot(self.field_57b)
            + opt_slot(self.field_57d)
            + opt_slot(self.field_72)
            + seq![self.field_50a_seq_b@]
            + seq![self.field_59a_seq_b@]
            + opt_slot(self.field_52a_seq_b)
            + opt_slot(self.field_52d_seq_b)
            + opt_slot(self.field_56a_seq_b)
            + opt_slot(self.field_56c_seq_b)
            + opt_slot(self.field_56d_seq_b)
            + opt_slot(self.field_57a_seq_b)
            + opt_slot(self.field_57b_seq_b)
            + opt_slot(self.field_57c_seq_b)
            + opt_slot(self.field_57d_seq_b)
            + opt_slot(self.field_70)
            + opt_slot(self.field_72_seq_b)
            + opt_slot(self.field_33b)
    }

    /// The layout of the message body.
    #[verifier::spinoff_prover]
    fn layout_rules() -> (l: MessageLayout)
        ensures
            l@ == Self::body_layout(),
    {
        let l = MessageLayout {
            header: vec![
                FieldRule::Mandatory("20"),
                FieldRule::Mandatory("21"),
                FieldRule::Mandatory("32A"),
                FieldRule::Mandatory("58A"),
                FieldRule::Repeated("13C"),
                FieldRule::Optional("52A"),
                FieldRule::Optional("52D"),
                FieldRule::Optional("53A"),
                FieldRule::Optional("53B"),
                FieldRule::Optional("53D"),
                FieldRule::Optional("54A"),
                FieldRule::Optional("54B"),
                FieldRule::Optional("54D"),
                FieldRule::Optional("56A"),
                FieldRule::Optional("56D"),
                FieldRule::Optional("57A"),
                FieldRule::Optional("57B"),
                FieldRule::Optional("57D"),
                FieldRule::Optional("72"),
                FieldRule::Mandatory("50A"),
                FieldRule::Mandatory("59A"),
                FieldRule::Optional("52A"),
                FieldRule::Optional("52D"),
                FieldRule::Optional("56A"),
                FieldRule::Optional("56C"),
                FieldRule::Optional("56D"),
                FieldRule::Optional("57A"),
                FieldRule::Optional("57B"),
                FieldRule::Optional("57C"),
                FieldRule::Optional("57D"),
                FieldRule::Optional("70"),
                FieldRule::Optional("72"),
                FieldRule::Optional("33B"),
            ],
            item_start: "",
            items: Vec::new(),
            trailer: Vec::new(),
            complete: false,
        };
        assert(l@.header =~~= Self::body_layout().header);
        assert(l@.trailer =~~= Self::body_layout().trailer);
        assert(l@.items =~~= Self::body_layout().items);
        l
    }

    /// The message built from the fields its layout took.
    #[verifier::spinoff_prover]
    #[verifier::rlimit(80)]
    fn from_parsed(p: Parsed) -> (m: MT202COV)
        requires
            layout_fits(Self::body_layout(), p@),
            p@.1.len() == 0,
        ensures
            m.slots() == p@,
    {
        let ghost pv = p@;
        let ghost all = pv.0;
        let ghost tail = pv.2;
        let Parsed { header, items, trailer } = p;
        let mut slots = header;
        assert(slot_views(slots@) =~= all.take(slots.len() as int));
        assert(slot_fits(Self::body_layout().header[0], all[0]));
        assert(slot_fits(Self::body_layout().header[1], all[1]));
        assert(slot_fits(Self::body_layout().header[2], all[2]));
        assert(slot_fits(Self::body_layout().header[3], all[3]));
        assert(slot_fits(Self::body_layout().header[4], all[4]));
        assert(slot_fits(Self::body_layout().header[5], all[5]));
        assert(slot_fits(Self::body_layout().header[6], all[6]));
        assert(slot_fits(Self::body_layout().header[7], all[7]));
        assert(slot_fits(Self::body_layout().header[8], all[8]));
        assert(slot_fits(Self::body_layout().header[9], all[9]));
        assert(slot_fits(Self::body_layout().header[10], all[10]));
        assert(slot_fits(Self::body_layout().header[11], all[11]));
        assert(slot_fits(Self::body_layout().header[12], all[12]));
        assert(slot_fits(Self::body_layout().header[13], all[13]));
        assert(slot_fits(Self::body_layout().header[14], all[14]));
        assert(slot_fits(Self::body_layout().header[15], all[15]));
        assert(slot_fits(Self::body_layout().header[16], all[16]));
        assert(slot_fits(Self::body_layout().header[17], all[17]));
        assert(slot_fits(Self::body_layout().header[18], all[18]));
        assert(slot_fits(Self::body_layout().header[19], all[19]));
        assert(slot_fits(Self::body_layout().header[20], all[20]));
        assert(slot_fits(Self::body_layout().header[21], all[21]));
        assert(slot_fits(Self::body_layout().header[22], all[22]));
        assert(slot_fits(Self::body_layout().header[23], all[23]));
        assert(slot_fits(Self::body_layout().header[24], all[24]));
        assert(slot_fits(Self::body_layout().header[25], all[25]));
        assert(slot_fits(Self::body_layout().header[26], all[26]));
        assert(slot_fits(Self::body_layout().header[27], all[27]));
        assert(slot_fits(Self::body_layout().header[28], all[28]));
        assert(slot_fits(Self::body_layout().header[29], all[29]));
        assert(slot_fits(Self::body_layout().header[30], all[30]));
        assert(slot_fits(Self::body_layout().header[31], all[31]));
        assert(slot_fits(Self::body_layout().header[32], all[32]));
        let field_33b = take_opt(&mut slots, Ghost(all));
        let field_72_seq_b = take_opt(&mut slots, Ghost(all));
        let field_70 = take_opt(&mut slots, Ghost(all));
        let field_57d_seq_b = take_opt(&mut slots, Ghost(all));
        let field_57c_seq_b = take_opt(&mut slots, Ghost(all));
        let field_57b_seq_b = take_opt(&mut slots, Ghost(all));
        let field_57a_seq_b = take_opt(&mut slots, Ghost(all));
        let field_56d_seq_b = take_opt(&mut slots, Ghost(all));
        let field_56c_seq_b = take_opt(&mut slots, Ghost(all));
        let field_56a_seq_b = take_opt(&mut slots, Ghost(all));
        let field_52d_seq_b = take_opt(&mut slots, Ghost(all));
        let field_52a_seq_b = take_opt(&mut slots, Ghost(all));
        let field_59a_seq_b = take_one(&mut slots, Ghost(all));
        let field_50a_seq_b = take_one(&mut slots, Ghost(all));
        let field_72 = take_opt(&mut slots, Ghost(all));
        let field_57d = take_opt(&mut slots, Ghost(all));
        let field_57b = take_opt(&mut slots, Ghost(all));
        let field_57a = take_opt(&mut slots, Ghost(all));
        let field_56d = take_opt(&mut slots, Ghost(all));
        let field_56a = take_opt(&mut slots, Ghost(all));
        let field_54d = take_opt(&mut slots, Ghost(all));
        let field_54b = take_opt(&mut slots, Ghost(all));
        let field_54a = take_opt(&mut slots, Ghost(all));
        let field_53d = take_opt(&mut slots, Ghost(all));
        let field_53b = take_opt(&mut slots, Ghost(all));
        let field_53a = take_opt(&mut slots, Ghost(all));
        let field_52d = take_opt(&mut slots, Ghost(all));
        let field_52a = take_opt(&mut slots, Ghost(all));
        let field_13c = take_many(&mut slots, Ghost(all));
        let field_58a = take_one(&mut slots, Ghost(all));
        let field_32a = take_one(&mut slots, Ghost(all));
        let field_21 = take_one(&mut slots, Ghost(all));
        let field_20 = take_one(&mut slots, Ghost(all));
        let mut tslots = trailer;
        assert(slot_views(tslots@) =~= tail.take(tslots.len() as int));
        let m = MT202COV { field_20, field_21, field_32a, field_58a, field_13c, field_52a, field_52d, field_53a, field_53b, field_53d, field_54a, field_54b, field_54d, field_56a, field_56d, field_57a, field_57b, field_57d, field_72, field_50a_seq_b, field_59a_seq_b, field_52a_seq_b, field_52d_seq_b, field_56a_seq_b, field_56c_seq_b, field_56d_seq_b, field_57a_seq_b, field_57b_seq_b, field_57c_seq_b, field_57d_seq_b, field_70, field_72_seq_b, field_33b };
        assert(m.slots().0 =~= pv.0);
        assert(m.slots().1 =~= pv.1);
        assert(m.slots().2 =~= pv.2);
        m
    }

    /// What parsing `block4` by the layout gives: the message with the
    /// fields each rule took, or the error that stands for the failure.
    pub open spec fn taken(block4: Seq<char>, r: Result<MT202COV, ParseError>) -> bool {
        match layout_outcome(block4, Self::body_layout()) {
            Ok(p) => r matches Ok(m) && m.slots() == p,
            Err(e) => r matches Err(pe) && error_is(pe, e),
        }
    }

    /// Parse message from Block 4 content
    pub fn parse_from_block4(block4: &str) -> (r: Result<MT202COV, ParseError>)
        ensures
            Self::taken(block4@, r),
    {
        let layout = Self::layout_rules();
        match parse_layout(block4, "202", &layout) {
            Ok(p) => Ok(Self::from_parsed(p)),
            Err(e) => Err(e),
        }
    }

    /// The fields of the message as (tag, content) pairs, in writing order.
    pub fn to_ordered_fields(&self) -> (r: Vec<(String, String)>)
        ensures
            pair_views(r@) == self.fields_in_order(),
    {
        let mut v: Vec<(String, String)> = Vec::new();
        push_field(&mut v, &self.field_20);
        assert(pair_views(v@) =~= seq![self.field_20@]);
        push_field(&mut v, &self.field_21);
        push_field(&mut v, &self.field_32a);
        push_field(&mut v, &self.field_58a);
        push_repeated(&mut v, &self.field_13c);
        push_optional(&mut v, &self.field_52a);
        push_optional(&mut v, &self.field_52d);
        push_optional(&mut v, &self.field_53a);
        push_optional(&mut v, &self.field_53b);
        push_optional(&mut v, &self.field_53d);
        push_optional(&mut v, &self.field_54a);
        push_optional(&mut v, &self.field_54b);
        push_optional(&mut v, &self.field_54d);
        push_optional(&mut v, &self.field_56a);
        push_optional(&mut v, &self.field_56d);
        push_optional(&mut v, &self.field_57a);
        push_optional(&mut v, &self.field_57b);
        push_optional(&mut v, &self.field_57d);
        push_optional(&mut v, &self.field_72);
        push_field(&mut v, &self.field_50a_seq_b);
        push_field(&mut v, &self.field_59a_seq_b);
        push_optional(&mut v, &self.field_52a_seq_b);
        push_optional(&mut v, &self.field_52d_seq_b);
        push_optional(&mut v, &self.field_56a_seq_b);
        push_optional(&mut v, &self.field_56c_seq_b);
        push_optional(&mut v, &self.field_56d_seq_b);
        push_optional(&mut v, &self.field_57a_seq_b);
        push_optional(&mut v, &self.field_57b_seq_b);
        push_optional(&mut v, &self.field_57c_seq_b);
        push_optional(&mut v, &self.field_57d_seq_b);
        push_optional(&mut v, &self.field_70);
        push_optional(&mut v, &self.field_72_seq_b);
        push_optional(&mut v, &self.field_33b);
        v
    }

    /// Convert to SWIFT MT text format
    pub fn to_mt_string(&self) -> (r: String)
        ensures
            r@ == mt_text(self.fields_in_order()),
    {
        render_mt(&self.to_ordered_fields())
    }

    /// Validation rules for the message
    pub fn validate() -> (r: &'static str)
        ensures
            r@ == MT202_COV_VALIDATION_RULES@,
    {
        MT202_COV_VALIDATION_RULES
    }
}

impl SwiftMessageBody for MT202COV {
    open spec fn type_code() -> Seq<char> {
        "202"@
    }

    open spec fn layout() -> LayoutView {
        Self::body_layout()
    }

    open spec fn parsed(&self) -> ParsedView {
        self.slots()
    }

    open spec fn ordered(&self) -> Seq<FieldView> {
        self.fields_in_order()
    }

    open spec fn parse_spec(block4: Seq<char>, r: Result<Self, ParseError>) -> bool {
        Self::taken(block4, r)
    }

    open spec fn required_tags() -> Seq<Seq<char>> {
        seq![
            "20"@,
            "21"@,
            "32A"@,
            "58A"@,
            "50A"@,
            "59A"@,
        ]
    }

    open spec fn optional_tags() -> Seq<Seq<char>> {
        seq![
            "13C"@,
            "52A"@,
            "52D"@,
            "53A"@,
            "53B"@,
            "53D"@,
            "54A"@,
            "54B"@,
            "54D"@,
            "56A"@,
            "56D"@,
            "57A"@,
            "57B"@,
            "57D"@,
            "72"@,
            "56C"@,
            "57C"@,
            "70"@,
            "33B"@,
        ]
    }

    open spec fn rejected(&self) -> bool {
        false
    }

    open spec fn returned(&self) -> bool {
        false
    }

    open spec fn cover(&self) -> bool {
        false
    }

    open spec fn stp(&self) -> bool {
        false
    }

    fn message_type() -> (r: &'static str) {
        "202"
    }

    fn parse_from_block4(block4: &str) -> (r: Result<Self, ParseError>) {
        MT202COV::parse_from_block4(block4)
    }

    fn to_ordered_fields(&self) -> (r: Vec<(String, String)>) {
        MT202COV::to_ordered_fields(self)
    }

    fn to_mt_string(&self) -> (r: String) {
        MT202COV::to_mt_string(self)
    }

    fn required_fields() -> (r: Vec<&'static str>) {
        let r = vec![
            "20",
            "21",
            "32A",
            "58A",
            "50A",
            "59A",
        ];
        assert(str_views(r@) =~= Self::required_tags());
        r
    }

    fn optional_fields() -> (r: Vec<&'static str>) {
        let r = vec![
            "13C",
            "52A",
            "52D",
            "53A",
            "53B",
            "53D",
            "54A",
            "54B",
            "54D",
            "56A",
            "56D",
            "57A",
            "57B",
            "57D",
            "72",
            "56C",
            "57C",
            "70",
            "33B",
        ];
        assert(str_views(r@) =~= Self::optional_tags());
        r
    }

    fn has_reject_codes(&self) -> (b: bool) {
        false
    }

    fn has_return_codes(&self) -> (b: bool) {
        false
    }

    fn is_cover_message(&self) -> (b: bool) {
        false
    }

    fn is_stp_message(&self) -> (b: bool) {
        false
    }
}

impl MT202COV {
    /// The header slots, one after the other, are the fields in writing
    /// order.
    #[verifier::rlimit(100)]
    #[verifier::spinoff_prover]
    proof fn lemma_slots_text(m: MT202COV)
        ensures
            crate::round_trip::flat(m.slots().0) == m.fields_in_order(),
    {
        let s = m.slots().0;
        assert(s.take(0) =~= Seq::<Seq<FieldView>>::empty());
        crate::round_trip::lemma_slot_fields(s, 0);
        assert(s[0] == seq![m.field_20@]);
        assert(crate::round_trip::flat(s.take(1)) =~= seq![m.field_20@]);
        crate::round_trip::lemma_slot_fields(s, 1);
        assert(s[1] == seq![m.field_21@]);
        crate::round_trip::lemma_slot_fields(s, 2);
        assert(s[2] == seq![m.field_32a@]);
        crate::round_trip::lemma_slot_fields(s, 3);
        assert(s[3] == seq![m.field_58a@]);
        crate::round_trip::lemma_slot_fields(s, 4);
        assert(s[4] == many_slot(m.field_13c));
        crate::round_trip::lemma_slot_fields(s, 5);
        assert(s[5] == opt_slot(m.field_52a));
        crate::round_trip::lemma_slot_fields(s, 6);
        assert(s[6] == opt_slot(m.field_52d));
        crate::round_trip::lemma_slot_fields(s, 7);
        assert(s[7] == opt_slot(m.field_53a));
        crate::round_trip::lemma_slot_fields(s, 8);
        assert(s[8] == opt_slot(m.field_53b));
        crate::round_trip::lemma_slot_fields(s, 9);
        assert(s[9] == opt_slot(m.field_53d));
        crate::round_trip::lemma_slot_fields(s, 10);
        assert(s[10] == opt_slot(m.field_54a));
        crate::round_trip::lemma_slot_fields(s, 11);
        assert(s[11] == opt_slot(m.field_54b));
        crate::round_trip::lemma_slot_fields(s, 12);
        assert(s[12] == opt_slot(m.field_54d));
        crate::round_trip::lemma_slot_fields(s, 13);
        assert(s[13] == opt_slot(m.field_56a));
        crate::round_trip::lemma_slot_fields(s, 14);
        assert(s[14] == opt_slot(m.field_56d));
        crate::round_trip::lemma_slot_fields(s, 15);
        assert(s[15] == opt_slot(m.field_57a));
        crate::round_trip::lemma_slot_fields(s, 16);
        assert(s[16] == opt_slot(m.field_57b));
        crate::round_trip::lemma_slot_fields(s, 17);
        assert(s[17] == opt_slot(m.field_57d));
        crate::round_trip::lemma_slot_fields(s, 18);
        assert(s[18] == opt_slot(m.field_72));
        crate::round_trip::lemma_slot_fields(s, 19);
        assert(s[19] == seq![m.field_50a_seq_b@]);
        crate::round_trip::lemma_slot_fields(s, 20);
        assert(s[20] == seq![m.field_59a_seq_b@]);
        crate::round_trip::lemma_slot_fields(s, 21);
        assert(s[21] == opt_slot(m.field_52a_seq_b));
        crate::round_trip::lemma_slot_fields(s, 22);
        assert(s[22] == opt_slot(m.field_52d_seq_b));
        crate::round_trip::lemma_slot_fields(s, 23);
        assert(s[23] == opt_slot(m.field_56a_seq_b));
        crate::round_trip::lemma_slot_fields(s, 24);
        assert(s[24] == opt_slot(m.field_56c_seq_b));
        crate::round_trip::lemma_slot_fields(s, 25);
        assert(s[25] == opt_slot(m.field_56d_seq_b));
        crate::round_trip::lemma_slot_fields(s, 26);
        assert(s[26] == opt_slot(m.field_57a_seq_b));
        crate::round_trip::lemma_slot_fields(s, 27);
        assert(s[27] == opt_slot(m.field_57b_seq_b));
        crate::round_trip::lemma_slot_fields(s, 28);
        assert(s[28] == opt_slot(m.field_57c_seq_b));
        crate::round_trip::lemma_slot_fields(s, 29);
        assert(s[29] == opt_slot(m.field_57d_seq_b));
        crate::round_trip::lemma_slot_fields(s, 30);
        assert(s[30] == opt_slot(m.field_70));
        crate::round_trip::lemma_slot_fields(s, 31);
        assert(s[31] == opt_slot(m.field_72_seq_b));
        crate::round_trip::lemma_slot_fields(s, 32);
        assert(s[32] == opt_slot(m.field_33b));
        assert(s.take(33) =~= s);
        assert(crate::round_trip::flat(s) == m.fields_in_order());
    }

    /// Writing the message and parsing the text again gives back its
    /// fields, slot by slot, wherever each slot comes back to its rule: its
    /// fields carry tags that the rule reads back, and no rule finds a field
    /// that stands further on in place of its own.
    #[verifier::rlimit(100)]
    #[verifier::spinoff_prover]
    pub proof fn lemma_round_trip(m: MT202COV)
        requires
            crate::sequence_round_trip::slots_at(m.fields_in_order(), 0, Self::body_layout().header, m.slots().0, false),
            crate::round_trip::writable_fields(m.fields_in_order()),
            m.fields_in_order().len() <= usize::MAX,
        ensures
            forall|r: Result<MT202COV, ParseError>|
                Self::taken(mt_text(m.fields_in_order()), r) ==> (r matches Ok(x) && x.slots() == m.slots()),
    {
        Self::lemma_slots_text(m);
        crate::sequence_round_trip::lemma_sequential_header_round_trip(Self::body_layout(), m.slots().0);
        assert(m.slots() == (m.slots().0, Seq::<Seq<Seq<FieldView>>>::empty(), Seq::<Seq<FieldView>>::empty()));
    }
}

} // verus!
