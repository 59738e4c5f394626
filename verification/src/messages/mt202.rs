//! MT202: General Financial Institution Transfer

use vstd::prelude::*;
use crate::errors::ParseError;
use crate::message_parser::{
    error_is, item_views, layout_fits, layout_outcome, many_slot, opt_slot, parse_layout,
    rule_views, slot_fits, slot_views, slots_fit, take_many, take_one, take_opt, FieldRule, FieldView,
    LayoutView, MessageLayout, Parsed, ParsedView, RawField, RuleView,
};
use crate::parsing_utils::{
    block4_of, extract_block4, mt_text, pair_views, push_field, push_optional, push_repeated,
    render_mt,
};
use crate::text::str_views;
use crate::traits::SwiftMessageBody;
use crate::messages::narrative::{field_mentions, field_starts_with, is_plain_reference, mentions, plain_reference};
use crate::text::{starts_with, string_chars};

verus! {

/// The validation rules of the message, as JSONLogic.
pub const VALIDATION_RULES: &'static str = r#"{"rules": []}"#;

/// MT202: General Financial Institution Transfer
#[derive(Debug, Clone, PartialEq)]
pub struct MT202 {
    pub field_20: RawField,
    pub field_21: RawField,
    pub field_13c: Option<Vec<RawField>>,
    pub field_32a: RawField,
    pub field_52: Option<RawField>,
    pub field_53: Option<RawField>,
    pub field_54: Option<RawField>,
    pub field_56: Option<RawField>,
    pub field_57: Option<RawField>,
    pub field_58: RawField,
    pub field_72: Option<RawField>,
    pub ordering_customer_b: Option<RawField>,
    pub ordering_institution_b: Option<RawField>,
    pub intermediary_b: Option<RawField>,
    pub account_with_institution_b: Option<RawField>,
    pub beneficiary_customer_b: Option<RawField>,
    pub remittance_information_b: Option<RawField>,
    pub sender_to_receiver_information_b: Option<RawField>,
    pub currency_amount_b: Option<RawField>,
}

impl MT202 {
    /// The layout of the message body.
    pub open spec fn body_layout() -> LayoutView {
        LayoutView {
            header: seq![
                RuleView::Mandatory("20"@),
                RuleView::Mandatory("21"@),
                RuleView::Repeated("13C"@),
                RuleView::Mandatory("32A"@),
                RuleView::OptionalOption("52"@, seq!["A"@, "D"@]),
                RuleView::OptionalOption("53"@, seq!["A"@, "B"@, "D"@]),
                RuleView::OptionalOption("54"@, seq!["A"@, "B"@, "D"@]),
                RuleView::OptionalOption("56"@, seq!["A"@, "D"@]),
                RuleView::OptionalOption("57"@, seq!["A"@, "B"@, "D"@]),
                RuleView::MandatoryOption("58"@, seq!["A"@, "D"@]),
                RuleView::Optional("72"@),
                RuleView::OptionalOption("50"@, seq!["A"@, "F"@, "K"@]),
                RuleView::OptionalOption("52"@, seq!["A"@, "D"@]),
                RuleView::OptionalOption("56"@, seq!["A"@, "D"@]),
                RuleView::OptionalOption("57"@, seq!["A"@, "B"@, "D"@]),
                RuleView::OptionalOption("59"@, seq![""@, "A"@, "F"@]),
                RuleView::Optional("70"@),
                RuleView::Optional("72"@),
                RuleView::Optional("33B"@),
            ],
            item_start: ""@,
            items: Seq::empty(),
            trailer: Seq::empty(),
            complete: false,
        }
    }

    /// The fields of the message as its layout took them.
    pub open spec fn slots(&self) -> ParsedView {
        (
            seq![
                seq![self.field_20@],
                seq![self.field_21@],
                many_slot(self.field_13c),
                seq![self.field_32a@],
                opt_slot(self.field_52),
                opt_slot(self.field_53),
                opt_slot(self.field_54),
                opt_slot(self.field_56),
                opt_slot(self.field_57),
                seq![self.field_58@],
                opt_slot(self.field_72),
                opt_slot(self.ordering_customer_b),
                opt_slot(self.ordering_institution_b),
                opt_slot(self.intermediary_b),
                opt_slot(self.account_with_institution_b),
                opt_slot(self.beneficiary_customer_b),
                opt_slot(self.remittance_information_b),
                opt_slot(self.sender_to_receiver_information_b),
                opt_slot(self.currency_amount_b),
            ],
            Seq::empty(),
            Seq::empty(),
        )
    }

    /// The fields of the message in writing order.
    pub open spec fn fields_in_order(&self) -> Seq<FieldView> {
        seq![self.field_20@]
            + seq![self.field_21@]
            + many_slot(self.field_13c)
            + seq![self.field_32a@]
            + opt_slot(self.field_52)
            + opt_slot(self.field_53)
            + opt_slot(self.field_54)
            + opt_slot(self.field_56)
            + opt_slot(self.field_57)
            + seq![self.field_58@]
            + opt_slot(self.field_72)
            + opt_slot(self.ordering_customer_b)
            + opt_slot(self.ordering_institution_b)
            + opt_slot(self.intermediary_b)
            + opt_slot(self.account_with_institution_b)
            + opt_slot(self.beneficiary_customer_b)
            + opt_slot(self.remittance_information_b)
            + opt_slot(self.sender_to_receiver_information_b)
            + opt_slot(self.currency_amount_b)
    }

    /// The layout of the message body.
    #[verifier::spinoff_prover]
    fn layout_rules() -> (l: MessageLayout)
        ensures
            l@ == Self::body_layout(),
    {
        let l = MessageLayout {
            header: vec![
                FieldRule::Mandatory("20"),
                FieldRule::Mandatory("21"),
                FieldRule::Repeated("13C"),
                FieldRule::Mandatory("32A"),
                FieldRule::OptionalOption("52", vec!["A", "D"]),
                FieldRule::OptionalOption("53", vec!["A", "B", "D"]),
                FieldRule::OptionalOption("54", vec!["A", "B", "D"]),
                FieldRule::OptionalOption("56", vec!["A", "D"]),
                FieldRule::OptionalOption("57", vec!["A", "B", "D"]),
                FieldRule::MandatoryOption("58", vec!["A", "D"]),
                FieldRule::Optional("72"),
                FieldRule::OptionalOption("50", vec!["A", "F", "K"]),
                FieldRule::OptionalOption("52", vec!["A", "D"]),
                FieldRule::OptionalOption("56", vec!["A", "D"]),
                FieldRule::OptionalOption("57", vec!["A", "B", "D"]),
                FieldRule::OptionalOption("59", vec!["", "A", "F"]),
                FieldRule::Optional("70"),
                FieldRule::Optional("72"),
                FieldRule::Optional("33B"),
            ],
            item_start: "",
            items: Vec::new(),
            trailer: Vec::new(),
            complete: false,
        };
        assert(l@.header =~~= Self::body_layout().header);
        assert(l@.trailer =~~= Self::body_layout().trailer);
        assert(l@.items =~~= Self::body_layout().items);
        l
    }

    /// The message built from the fields its layout took.
    #[verifier::spinoff_prover]
    #[verifier::rlimit(80)]
    fn from_parsed(p: Parsed) -> (m: MT202)
        requires
            layout_fits(Self::body_layout(), p@),
            p@.1.len() == 0,
        ensures
            m.slots() == p@,
    {
        let ghost pv = p@;
        let ghost all = pv.0;
        let ghost tail = pv.2;
        let Parsed { header, items, trailer } = p;
        let mut slots = header;
        assert(slot_views(slots@) =~= all.take(slots.len() as int));
        assert(slot_fits(Self::body_layout().header[0], all[0]));
        assert(slot_fits(Self::body_layout().header[1], all[1]));
        assert(slot_fits(Self::body_layout().header[2], all[2]));
        assert(slot_fits(Self::body_layout().header[3], all[3]));
        assert(slot_fits(Self::body_layout().header[4], all[4]));
        assert(slot_fits(Self::body_layout().header[5], all[5]));
        assert(slot_fits(Self::body_layout().header[6], all[6]));
        assert(slot_fits(Self::body_layout().header[7], all[7]));
        assert(slot_fits(Self::body_layout().header[8], all[8]));
        assert(slot_fits(Self::body_layout().header[9], all[9]));
        assert(slot_fits(Self::body_layout().header[10], all[10]));
        assert(slot_fits(Self::body_layout().header[11], all[11]));
        assert(slot_fits(Self::body_layout().header[12], all[12]));
        assert(slot_fits(Self::body_layout().header[13], all[13]));
        assert(slot_fits(Self::body_layout().header[14], all[14]));
        assert(slot_fits(Self::body_layout().header[15], all[15]));
        assert(slot_fits(Self::body_layout().header[16], all[16]));
        assert(slot_fits(Self::body_layout().header[17], all[17]));
        assert(slot_fits(Self::body_layout().header[18], all[18]));
        let currency_amount_b = take_opt(&mut slots, Ghost(all));
        let sender_to_receiver_information_b = take_opt(&mut slots, Ghost(all));
        let remittance_information_b = take_opt(&mut slots, Ghost(all));
        let beneficiary_customer_b = take_opt(&mut slots, Ghost(all));
        let account_with_institution_b = take_opt(&mut slots, Ghost(all));
        let intermediary_b = take_opt(&mut slots, Ghost(all));
        let ordering_institution_b = take_opt(&mut slots, Ghost(all));
        let ordering_customer_b = take_opt(&mut slots, Ghost(all));
        let field_72 = take_opt(&mut slots, Ghost(all));
        let field_58 = take_one(&mut slots, Ghost(all));
        let field_57 = take_opt(&mut slots, Ghost(all));
        let field_56 = take_opt(&mut slots, Ghost(all));
        let field_54 = take_opt(&mut slots, Ghost(all));
        let field_53 = take_opt(&mut slots, Ghost(all));
        let field_52 = take_opt(&mut slots, Ghost(all));
        let field_32a = take_one(&mut slots, Ghost(all));
        let field_13c = take_many(&mut slots, Ghost(all));
        let field_21 = take_one(&mut slots, Ghost(all));
        let field_20 = take_one(&mut slots, Ghost(all));
        let mut tslots = trailer;
        assert(slot_views(tslots@) =~= tail.take(tslots.len() as int));
        let m = MT202 { field_20, field_21, field_13c, field_32a, field_52, field_53, field_54, field_56, field_57, field_58, field_72, ordering_customer_b, ordering_institution_b, intermediary_b, account_with_institution_b, beneficiary_customer_b, remittance_information_b, sender_to_receiver_information_b, currency_amount_b };
        assert(m.slots().0 =~= pv.0);
        assert(m.slots().1 =~= pv.1);
        assert(m.slots().2 =~= pv.2);
        m
    }

    /// What parsing `block4` by the layout gives: the message with the
    /// fields each rule took, or the error that stands for the failure.
    pub open spec fn taken(block4: Seq<char>, r: Result<MT202, ParseError>) -> bool {
        match layout_outcome(block4, Self::body_layout()) {
            Ok(p) => r matches Ok(m) && m.slots() == p,
            Err(e) => r matches Err(pe) && error_is(pe, e),
        }
    }

    /// Parse message from Block 4 content
    pub fn parse_from_block4(block4: &str) -> (r: Result<MT202, ParseError>)
        ensures
            Self::taken(block4@, r),
    {
        let layout = Self::layout_rules();
        match parse_layout(block4, "202", &layout) {
            Ok(p) => Ok(Self::from_parsed(p)),
            Err(e) => Err(e),
        }
    }

    /// The fields of the message as (tag, content) pairs, in writing order.
    pub fn to_ordered_fields(&self) -> (r: Vec<(String, String)>)
        ensures
            pair_views(r@) == self.fields_in_order(),
    {
        let mut v: Vec<(String, String)> = Vec::new();
        push_field(&mut v, &self.field_20);
        assert(pair_views(v@) =~= seq![self.field_20@]);
        push_field(&mut v, &self.field_21);
        push_repeated(&mut v, &self.field_13c);
        push_field(&mut v, &self.field_32a);
        push_optional(&mut v, &self.field_52);
        push_optional(&mut v, &self.field_53);
        push_optional(&mut v, &self.field_54);
        push_optional(&mut v, &self.field_56);
        push_optional(&mut v, &self.field_57);
        push_field(&mut v, &self.field_58);
        push_optional(&mut v, &self.field_72);
        push_optional(&mut v, &self.ordering_customer_b);
        push_optional(&mut v, &self.ordering_institution_b);
        push_optional(&mut v, &self.intermediary_b);
        push_optional(&mut v, &self.account_with_institution_b);
        push_optional(&mut v, &self.beneficiary_customer_b);
        push_optional(&mut v, &self.remittance_information_b);
        push_optional(&mut v, &self.sender_to_receiver_information_b);
        push_optional(&mut v, &self.currency_amount_b);
        v
    }

    /// Convert to SWIFT MT text format
    pub fn to_mt_string(&self) -> (r: String)
        ensures
            r@ == mt_text(self.fields_in_order()),
    {
        render_mt(&self.to_ordered_fields())
    }

    /// Validation rules for the message
    pub fn validate() -> (r: &'static str)
        ensures
            r@ == VALIDATION_RULES@,
    {
        VALIDATION_RULES
    }

    /// Field 72 carries a reject code.
    pub open spec fn carries_reject_code(&self) -> bool {
        mentions(self.field_72, "/REJT/"@) || mentions(self.field_72, "/RJT/"@)
    }

    /// Field 72 carries a return code.
    pub open spec fn carries_return_code(&self) -> bool {
        mentions(self.field_72, "/RETN/"@) || mentions(self.field_72, "/RET/"@)
    }

    /// Sequence B (the cover fields 50a or 59a) is present.
    pub open spec fn is_cover(&self) -> bool {
        self.ordering_customer_b is Some || self.beneficiary_customer_b is Some
    }

    /// Check if this message has reject codes
    pub fn has_reject_codes(&self) -> (b: bool)
        ensures
            b == self.carries_reject_code(),
    {
        field_mentions(&self.field_72, "/REJT/") || field_mentions(&self.field_72, "/RJT/")
    }

    /// Check if this message has return codes
    pub fn has_return_codes(&self) -> (b: bool)
        ensures
            b == self.carries_return_code(),
    {
        field_mentions(&self.field_72, "/RETN/") || field_mentions(&self.field_72, "/RET/")
    }

    /// Check if this is a cover message
    pub fn is_cover_message(&self) -> (b: bool)
        ensures
            b == self.is_cover(),
    {
        self.ordering_customer_b.is_some() || self.beneficiary_customer_b.is_some()
    }
}

impl SwiftMessageBody for MT202 {
    open spec fn type_code() -> Seq<char> {
        "202"@
    }

    open spec fn layout() -> LayoutView {
        Self::body_layout()
    }

    open spec fn parsed(&self) -> ParsedView {
        self.slots()
    }

    open spec fn ordered(&self) -> Seq<FieldView> {
        self.fields_in_order()
    }

    open spec fn parse_spec(block4: Seq<char>, r: Result<Self, ParseError>) -> bool {
        Self::taken(block4, r)
    }

    open spec fn required_tags() -> Seq<Seq<char>> {
        seq![
            "20"@,
            "21"@,
            "32A"@,
            "58"@,
        ]
    }

    open spec fn optional_tags() -> Seq<Seq<char>> {
        seq![
            "13C"@,
            "52"@,
            "53"@,
            "54"@,
            "56"@,
            "57"@,
            "72"@,
            "50"@,
            "59"@,
            "70"@,
            "33B"@,
        ]
    }

    open spec fn rejected(&self) -> bool {
        self.carries_reject_code()
    }

    open spec fn returned(&self) -> bool {
        self.carries_return_code()
    }

    open spec fn cover(&self) -> bool {
        self.is_cover()
    }

    open spec fn stp(&self) -> bool {
        false
    }

    fn message_type() -> (r: &'static str) {
        "202"
    }

    fn parse_from_block4(block4: &str) -> (r: Result<Self, ParseError>) {
        MT202::parse_from_block4(block4)
    }

    fn to_ordered_fields(&self) -> (r: Vec<(String, String)>) {
        MT202::to_ordered_fields(self)
    }

    fn to_mt_string(&self) -> (r: String) {
        MT202::to_mt_string(self)
    }

    fn required_fields() -> (r: Vec<&'static str>) {
        let r = vec![
            "20",
            "21",
            "32A",
            "58",
        ];
        assert(str_views(r@) =~= Self::required_tags());
        r
    }

    fn optional_fields() -> (r: Vec<&'static str>) {
        let r = vec![
            "13C",
            "52",
            "53",
            "54",
            "56",
            "57",
            "72",
            "50",
            "59",
            "70",
            "33B",
        ];
        assert(str_views(r@) =~= Self::optional_tags());
        r
    }

    fn has_reject_codes(&self) -> (b: bool) {
        MT202::has_reject_codes(self)
    }

    fn has_return_codes(&self) -> (b: bool) {
        MT202::has_return_codes(self)
    }

    fn is_cover_message(&self) -> (b: bool) {
        MT202::is_cover_message(self)
    }

    fn is_stp_message(&self) -> (b: bool) {
        false
    }
}

impl MT202 {
    /// Writing the message and parsing the text again gives back its
    /// fields, slot by slot, wherever each slot comes back to its rule: its
    /// fields carry tags that the rule reads back, and no rule finds a field
    /// that stands further on in place of its own.
    #[verifier::rlimit(50)]
    #[verifier::spinoff_prover]
    pub proof fn lemma_round_trip(m: MT202)
        requires
            crate::sequence_round_trip::slots_at(m.fields_in_order(), 0, Self::body_layout().header, m.slots().0, false),
            crate::round_trip::writable_fields(m.fields_in_order()),
            m.fields_in_order().len() <= usize::MAX,
        ensures
            forall|r: Result<MT202, ParseError>|
                Self::taken(mt_text(m.fields_in_order()), r) ==> (r matches Ok(x) && x.slots() == m.slots()),
    {
        reveal_with_fuel(crate::round_trip::flat, 21);
        assert(crate::round_trip::flat(m.slots().0) =~= m.fields_in_order());
        crate::sequence_round_trip::lemma_sequential_header_round_trip(Self::body_layout(), m.slots().0);
        assert(m.slots() == (m.slots().0, Seq::<Seq<Seq<FieldView>>>::empty(), Seq::<Seq<FieldView>>::empty()));
    }
}

impl MT202 {
    /// Field 72 holding `/REJT/` anywhere makes a reject.
    pub proof fn lemma_carries_reject_code_rejt(m: MT202, i: int)
        requires
            m.field_72 matches Some(x) && 0 <= i && i + "/REJT/"@.len() <= x.value@.len() && x.value@.subrange(
                i,
                i + "/REJT/"@.len(),
            ) == "/REJT/"@,
        ensures
            m.carries_reject_code(),
    {
        crate::messages::narrative::lemma_mentions_at(m.field_72, "/REJT/"@, i);
    }

    /// Field 72 holding `/RJT/` anywhere makes a reject.
    pub proof fn lemma_carries_reject_code_rjt(m: MT202, i: int)
        requires
            m.field_72 matches Some(x) && 0 <= i && i + "/RJT/"@.len() <= x.value@.len() && x.value@.subrange(
                i,
                i + "/RJT/"@.len(),
            ) == "/RJT/"@,
        ensures
            m.carries_reject_code(),
    {
        crate::messages::narrative::lemma_mentions_at(m.field_72, "/RJT/"@, i);
    }

    /// Field 72 absent, or holding none of `/REJT/`, `/RJT/`, does not make a reject.
    pub proof fn lemma_carries_reject_code_absent(m: MT202)
        requires
            m.field_72 matches Some(x) ==> forall|i: int|
                0 <= i && i + "/REJT/"@.len() <= x.value@.len() ==> #[trigger] x.value@.subrange(i, i + "/REJT/"@.len()) != "/REJT/"@,
            m.field_72 matches Some(x) ==> forall|i: int|
                0 <= i && i + "/RJT/"@.len() <= x.value@.len() ==> #[trigger] x.value@.subrange(i, i + "/RJT/"@.len()) != "/RJT/"@,
        ensures
            !m.carries_reject_code(),
    {
        crate::messages::narrative::lemma_mentions_nowhere(m.field_72, "/REJT/"@);
        crate::messages::narrative::lemma_mentions_nowhere(m.field_72, "/RJT/"@);
    }

    /// Field 72 holding `/RETN/` anywhere makes a return.
    pub proof fn lemma_carries_return_code_retn(m: MT202, i: int)
        requires
            m.field_72 matches Some(x) && 0 <= i && i + "/RETN/"@.len() <= x.value@.len() && x.value@.subrange(
                i,
                i + "/RETN/"@.len(),
            ) == "/RETN/"@,
        ensures
            m.carries_return_code(),
    {
        crate::messages::narrative::lemma_mentions_at(m.field_72, "/RETN/"@, i);
    }

    /// Field 72 holding `/RET/` anywhere makes a return.
    pub proof fn lemma_carries_return_code_ret(m: MT202, i: int)
        requires
            m.field_72 matches Some(x) && 0 <= i && i + "/RET/"@.len() <= x.value@.len() && x.value@.subrange(
                i,
                i + "/RET/"@.len(),
            ) == "/RET/"@,
        ensures
            m.carries_return_code(),
    {
        crate::messages::narrative::lemma_mentions_at(m.field_72, "/RET/"@, i);
    }

    /// Field 72 absent, or holding none of `/RETN/`, `/RET/`, does not make a return.
    pub proof fn lemma_carries_return_code_absent(m: MT202)
        requires
            m.field_72 matches Some(x) ==> forall|i: int|
                0 <= i && i + "/RETN/"@.len() <= x.value@.len() ==> #[trigger] x.value@.subrange(i, i + "/RETN/"@.len()) != "/RETN/"@,
            m.field_72 matches Some(x) ==> forall|i: int|
                0 <= i && i + "/RET/"@.len() <= x.value@.len() ==> #[trigger] x.value@.subrange(i, i + "/RET/"@.len()) != "/RET/"@,
        ensures
            !m.carries_return_code(),
    {
        crate::messages::narrative::lemma_mentions_nowhere(m.field_72, "/RETN/"@);
        crate::messages::narrative::lemma_mentions_nowhere(m.field_72, "/RET/"@);
    }
}

impl MT202 {
    /// A message is a cover exactly when its sequence B names an ordering
    /// customer (50a) or a beneficiary customer (59a).
    pub proof fn lemma_cover_by_sequence_b(m: MT202)
        ensures
            m.is_cover() <==> (m.ordering_customer_b is Some || m.beneficiary_customer_b is Some),
    {
    }
}

} // verus!
