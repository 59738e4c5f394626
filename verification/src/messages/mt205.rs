//! MT205: Financial Institution Transfer Execution

use vstd::prelude::*;
use crate::errors::ParseError;
use crate::message_parser::{
    error_is, item_views, layout_fits, layout_outcome, many_slot, opt_slot, parse_layout,
    rule_views, slot_fits, slot_views, slots_fit, take_many, take_one, take_opt, FieldRule, FieldView,
    LayoutView, MessageLayout, Parsed, ParsedView, RawField, RuleView,
};
use crate::parsing_utils::{
    block4_of, extract_block4, mt_text, pair_views, push_field, push_optional, push_repeated,
    render_mt,
};
use crate::text::str_views;
use crate::traits::SwiftMessageBody;
use crate::messages::narrative::{field_mentions, field_starts_with, is_plain_reference, mentions, plain_reference};
use crate::text::{starts_with, string_chars};

verus! {

/// The validation rules of the message, as JSONLogic.
pub const VALIDATION_RULES: &'static str = r#"{"rules": []}"#;

/// MT205: Financial Institution Transfer Execution
#[derive(Debug, Clone, PartialEq)]
pub struct MT205 {
    pub transaction_reference: RawField,
    pub related_reference: RawField,
    pub time_indication: Option<Vec<RawField>>,
    pub value_date_amount: RawField,
    pub instructed_amount: Option<RawField>,
    pub ordering_institution: Option<RawField>,
    pub senders_correspondent: Option<RawField>,
    pub receivers_correspondent: Option<RawField>,
    pub intermediary: Option<RawField>,
    pub account_with_institution: Option<RawField>,
    pub beneficiary_institution: RawField,
    pub sender_to_receiver: Option<RawField>,
}

impl MT205 {
    /// The layout of the message body.
    pub open spec fn body_layout() -> LayoutView {
        LayoutView {
            header: seq![
                RuleView::Mandatory("20"@),
                RuleView::Mandatory("21"@),
                RuleView::Repeated("13C"@),
                RuleView::Mandatory("32A"@),
                RuleView::Optional("33B"@),
                RuleView::OptionalOption("52"@, seq!["A"@, "D"@]),
                RuleView::OptionalOption("53"@, seq!["A"@, "B"@, "D"@]),
                RuleView::OptionalOption("54"@, seq!["A"@, "B"@, "D"@]),
                RuleView::OptionalOption("56"@, seq!["A"@, "D"@]),
                RuleView::OptionalOption("57"@, seq!["A"@, "B"@, "D"@]),
                RuleView::MandatoryOption("58"@, seq!["A"@, "D"@]),
                RuleView::Optional("72"@),
            ],
            item_start: ""@,
            items: Seq::empty(),
            trailer: Seq::empty(),
            complete: false,
        }
    }

    /// The fields of the message as its layout took them.
    pub open spec fn slots(&self) -> ParsedView {
        (
            seq![
                seq![self.transaction_reference@],
                seq![self.related_reference@],
                many_slot(self.time_indication),
                seq![self.value_date_amount@],
                opt_slot(self.instructed_amount),
                opt_slot(self.ordering_institution),
                opt_slot(self.senders_correspondent),
                opt_slot(self.receivers_correspondent),
                opt_slot(self.intermediary),
                opt_slot(self.account_with_institution),
                seq![self.beneficiary_institution@],
                opt_slot(self.sender_to_receiver),
            ],
            Seq::empty(),
            Seq::empty(),
        )
    }

    /// The fields of the message in writing order.
    pub open spec fn fields_in_order(&self) -> Seq<FieldView> {
        seq![self.transaction_reference@]
            + seq![self.related_reference@]
            + many_slot(self.time_indication)
            + seq![self.value_date_amount@]
            + opt_slot(self.instructed_amount)
            + opt_slot(self.ordering_institution)
            + opt_slot(self.senders_correspondent)
            + opt_slot(self.receivers_correspondent)
            + opt_slot(self.intermediary)
            + opt_slot(self.account_with_institution)
            + seq![self.beneficiary_institution@]
            + opt_slot(self.sender_to_receiver)
    }

    /// The layout of the message body.
    #[verifier::spinoff_prover]
    fn layout_rules() -> (l: MessageLayout)
        ensures
            l@ == Self::body_layout(),
    {
        let l = MessageLayout {
            header: vec![
                FieldRule::Mandatory("20"),
                FieldRule::Mandatory("21"),
                FieldRule::Repeated("13C"),
                FieldRule::Mandatory("32A"),
                FieldRule::Optional("33B"),
                FieldRule::OptionalOption("52", vec!["A", "D"]),
                FieldRule::OptionalOption("53", vec!["A", "B", "D"]),
                FieldRule::OptionalOption("54", vec!["A", "B", "D"]),
                FieldRule::OptionalOption("56", vec!["A", "D"]),
                FieldRule::OptionalOption("57", vec!["A", "B", "D"]),
                FieldRule::MandatoryOption("58", vec!["A", "D"]),
                FieldRule::Optional("72"),
            ],
            item_start: "",
            items: Vec::new(),
            trailer: Vec::new(),
            complete: false,
        };
        assert(l@.header =~~= Self::body_layout().header);
        assert(l@.trailer =~~= Self::body_layout().trailer);
        assert(l@.items =~~= Self::body_layout().items);
        l
    }

    /// The message built from the fields its layout took.
    #[verifier::spinoff_prover]
    #[verifier::rlimit(80)]
    fn from_parsed(p: Parsed) -> (m: MT205)
        requires
            layout_fits(Self::body_layout(), p@),
            p@.1.len() == 0,
        ensures
            m.slots() == p@,
    {
        let ghost pv = p@;
        let ghost all = pv.0;
        let ghost tail = pv.2;
        let Parsed { header, items, trailer } = p;
        let mut slots = header;
        assert(slot_views(slots@) =~= all.take(slots.len() as int));
        assert(slot_fits(Self::body_layout().header[0], all[0]));
        assert(slot_fits(Self::body_layout().header[1], all[1]));
        assert(slot_fits(Self::body_layout().header[2], all[2]));
        assert(slot_fits(Self::body_layout().header[3], all[3]));
        assert(slot_fits(Self::body_layout().header[4], all[4]));
        assert(slot_fits(Self::body_layout().header[5], all[5]));
        assert(slot_fits(Self::body_layout().header[6], all[6]));
        assert(slot_fits(Self::body_layout().header[7], all[7]));
        assert(slot_fits(Self::body_layout().header[8], all[8]));
        assert(slot_fits(Self::body_layout().header[9], all[9]));
        assert(slot_fits(Self::body_layout().header[10], all[10]));
        assert(slot_fits(Self::body_layout().header[11], all[11]));
        let sender_to_receiver = take_opt(&mut slots, Ghost(all));
        let beneficiary_institution = take_one(&mut slots, Ghost(all));
        let account_with_institution = take_opt(&mut slots, Ghost(all));
        let intermediary = take_opt(&mut slots, Ghost(all));
        let receivers_correspondent = take_opt(&mut slots, Ghost(all));
        let senders_correspondent = take_opt(&mut slots, Ghost(all));
        let ordering_institution = take_opt(&mut slots, Ghost(all));
        let instructed_amount = take_opt(&mut slots, Ghost(all));
        let value_date_amount = take_one(&mut slots, Ghost(all));
        let time_indication = take_many(&mut slots, Ghost(all));
        let related_reference = take_one(&mut slots, Ghost(all));
        let transaction_reference = take_one(&mut slots, Ghost(all));
        let mut tslots = trailer;
        assert(slot_views(tslots@) =~= tail.take(tslots.len() as int));
        let m = MT205 { transaction_reference, related_reference, time_indication, value_date_amount, instructed_amount, ordering_institution, senders_correspondent, receivers_correspondent, intermediary, account_with_institution, beneficiary_institution, sender_to_receiver };
        assert(m.slots().0 =~= pv.0);
        assert(m.slots().1 =~= pv.1);
        assert(m.slots().2 =~= pv.2);
        m
    }

    /// What parsing `block4` by the layout gives: the message with the
    /// fields each rule took, or the error that stands for the failure.
    pub open spec fn taken(block4: Seq<char>, r: Result<MT205, ParseError>) -> bool {
        match layout_outcome(block4, Self::body_layout()) {
            Ok(p) => r matches Ok(m) && m.slots() == p,
            Err(e) => r matches Err(pe) && error_is(pe, e),
        }
    }

    /// Parse message from Block 4 content
    pub fn parse_from_block4(block4: &str) -> (r: Result<MT205, ParseError>)
        ensures
            Self::taken(block4@, r),
    {
        let layout = Self::layout_rules();
        match parse_layout(block4, "205", &layout) {
            Ok(p) => Ok(Self::from_parsed(p)),
            Err(e) => Err(e),
        }
    }

    /// The fields of the message as (tag, content) pairs, in writing order.
    pub fn to_ordered_fields(&self) -> (r: Vec<(String, String)>)
        ensures
            pair_views(r@) == self.fields_in_order(),
    {
        let mut v: Vec<(String, String)> = Vec::new();
        push_field(&mut v, &self.transaction_reference);
        assert(pair_views(v@) =~= seq![self.transaction_reference@]);
        push_field(&mut v, &self.related_reference);
        push_repeated(&mut v, &self.time_indication);
        push_field(&mut v, &self.value_date_amount);
        push_optional(&mut v, &self.instructed_amount);
        push_optional(&mut v, &self.ordering_institution);
        push_optional(&mut v, &self.senders_correspondent);
        push_optional(&mut v, &self.receivers_correspondent);
        push_optional(&mut v, &self.intermediary);
        push_optional(&mut v, &self.account_with_institution);
        push_field(&mut v, &self.beneficiary_institution);
        push_optional(&mut v, &self.sender_to_receiver);
        v
    }

    /// Convert to SWIFT MT text format
    pub fn to_mt_string(&self) -> (r: String)
        ensures
            r@ == mt_text(self.fields_in_order()),
    {
        render_mt(&self.to_ordered_fields())
    }

    /// Validation rules for the message
    pub fn validate() -> (r: &'static str)
        ensures
            r@ == VALIDATION_RULES@,
    {
        VALIDATION_RULES
    }

    /// Field 72 carries a reject code.
    pub open spec fn carries_reject_code(&self) -> bool {
        mentions(self.sender_to_receiver, "/REJT/"@) || mentions(self.sender_to_receiver, "/RJT/"@)
    }

    /// Field 72 carries a return code.
    pub open spec fn carries_return_code(&self) -> bool {
        mentions(self.sender_to_receiver, "/RETN/"@) || mentions(self.sender_to_receiver, "/RET/"@)
    }

    /// Field 72 carries a cover code.
    pub open spec fn is_cover(&self) -> bool {
        mentions(self.sender_to_receiver, "/COV/"@) || mentions(self.sender_to_receiver, "/COVER/"@)
    }

    /// Check if this message has reject codes
    pub fn has_reject_codes(&self) -> (b: bool)
        ensures
            b == self.carries_reject_code(),
    {
        field_mentions(&self.sender_to_receiver, "/REJT/") || field_mentions(&self.sender_to_receiver, "/RJT/")
    }

    /// Check if this message has return codes
    pub fn has_return_codes(&self) -> (b: bool)
        ensures
            b == self.carries_return_code(),
    {
        field_mentions(&self.sender_to_receiver, "/RETN/") || field_mentions(&self.sender_to_receiver, "/RET/")
    }

    /// Check if this is a cover message
    pub fn is_cover_message(&self) -> (b: bool)
        ensures
            b == self.is_cover(),
    {
        field_mentions(&self.sender_to_receiver, "/COV/") || field_mentions(&self.sender_to_receiver, "/COVER/")
    }
}

impl SwiftMessageBody for MT205 {
    open spec fn type_code() -> Seq<char> {
        "205"@
    }

    open spec fn layout() -> LayoutView {
        Self::body_layout()
    }

    open spec fn parsed(&self) -> ParsedView {
        self.slots()
    }

    open spec fn ordered(&self) -> Seq<FieldView> {
        self.fields_in_order()
    }

    open spec fn parse_spec(block4: Seq<char>, r: Result<Self, ParseError>) -> bool {
        Self::taken(block4, r)
    }

    open spec fn required_tags() -> Seq<Seq<char>> {
        seq![
            "20"@,
            "21"@,
            "32A"@,
            "58"@,
        ]
    }

    open spec fn optional_tags() -> Seq<Seq<char>> {
        seq![
            "13C"@,
            "33B"@,
            "52"@,
            "53"@,
            "54"@,
            "56"@,
            "57"@,
            "72"@,
        ]
    }

    open spec fn rejected(&self) -> bool {
        self.carries_reject_code()
    }

    open spec fn returned(&self) -> bool {
        self.carries_return_code()
    }

    open spec fn cover(&self) -> bool {
        self.is_cover()
    }

    open spec fn stp(&self) -> bool {
        false
    }

    fn message_type() -> (r: &'static str) {
        "205"
    }

    fn parse_from_block4(block4: &str) -> (r: Result<Self, ParseError>) {
        MT205::parse_from_block4(block4)
    }

    fn to_ordered_fields(&self) -> (r: Vec<(String, String)>) {
        MT205::to_ordered_fields(self)
    }

    fn to_mt_string(&self) -> (r: String) {
        MT205::to_mt_string(self)
    }

    fn required_fields() -> (r: Vec<&'static str>) {
        let r = vec![
            "20",
            "21",
            "32A",
            "58",
        ];
        assert(str_views(r@) =~= Self::required_tags());
        r
    }

    fn optional_fields() -> (r: Vec<&'static str>) {
        let r = vec![
            "13C",
            "33B",
            "52",
            "53",
            "54",
            "56",
            "57",
            "72",
        ];
        assert(str_views(r@) =~= Self::optional_tags());
        r
    }

    fn has_reject_codes(&self) -> (b: bool) {
        MT205::has_reject_codes(self)
    }

    fn has_return_codes(&self) -> (b: bool) {
        MT205::has_return_codes(self)
    }

    fn is_cover_message(&self) -> (b: bool) {
        MT205::is_cover_message(self)
    }

    fn is_stp_message(&self) -> (b: bool) {
        false
    }
}

impl MT205 {
    /// Writing the message and parsing the text again gives back its
    /// fields, slot by slot, wherever each field carries a tag that its rule
    /// reads back and reads back as written.
    pub proof fn lemma_round_trip(m: MT205)
        requires
            crate::round_trip::accepted_slots(Self::body_layout().header, m.slots().0),
            crate::round_trip::writable_fields(m.fields_in_order()),
            m.fields_in_order().len() <= usize::MAX,
        ensures
            forall|r: Result<MT205, ParseError>|
                Self::taken(mt_text(m.fields_in_order()), r) ==> (r matches Ok(x) && x.slots() == m.slots()),
    {
        reveal_strlit("13C");
        reveal_strlit("20");
        reveal_strlit("21");
        reveal_strlit("32A");
        reveal_strlit("33B");
        reveal_strlit("52");
        reveal_strlit("53");
        reveal_strlit("54");
        reveal_strlit("56");
        reveal_strlit("57");
        reveal_strlit("58");
        reveal_strlit("72");
        let l = Self::body_layout();
        let s = m.slots().0;
        reveal_with_fuel(crate::round_trip::flat, 13);
        assert(crate::round_trip::flat(s) =~= m.fields_in_order());
        let tags = seq!["20"@, "21"@, "13C"@, "32A"@, "33B"@, "52"@, "53"@, "54"@, "56"@, "57"@, "58"@, "72"@];
        assert forall|i: int| 0 <= i < l.header.len() implies crate::round_trip::rule_tag(#[trigger] l.header[i]) == tags[i] by {}
        assert forall|i: int, j: int| 0 <= i < l.header.len() && 0 <= j < l.header.len() && i != j implies crate::round_trip::apart(#[trigger] l.header[i], #[trigger] l.header[j]) by {
            crate::round_trip::lemma_apart(l.header[i], l.header[j]);
        }
        assert(crate::round_trip::separate_rules(l.header));
        assert forall|i: int| 0 <= i < l.header.len() implies slot_fits(#[trigger] l.header[i], s[i]) by {}
        assert(slots_fit(l.header, s));
        crate::round_trip::lemma_separate_layout_round_trip(l, s);
        assert(m.slots() == (s, Seq::<Seq<Seq<FieldView>>>::empty(), Seq::<Seq<FieldView>>::empty()));
    }
}

impl MT205 {
    /// Field 72 holding `/REJT/` anywhere makes a reject.
    pub proof fn lemma_carries_reject_code_rejt(m: MT205, i: int)
        requires
            m.sender_to_receiver matches Some(x) && 0 <= i && i + "/REJT/"@.len() <= x.value@.len() && x.value@.subrange(
                i,
                i + "/REJT/"@.len(),
            ) == "/REJT/"@,
        ensures
            m.carries_reject_code(),
    {
        crate::messages::narrative::lemma_mentions_at(m.sender_to_receiver, "/REJT/"@, i);
    }

    /// Field 72 holding `/RJT/` anywhere makes a reject.
    pub proof fn lemma_carries_reject_code_rjt(m: MT205, i: int)
        requires
            m.sender_to_receiver matches Some(x) && 0 <= i && i + "/RJT/"@.len() <= x.value@.len() && x.value@.subrange(
                i,
                i + "/RJT/"@.len(),
            ) == "/RJT/"@,
        ensures
            m.carries_reject_code(),
    {
        crate::messages::narrative::lemma_mentions_at(m.sender_to_receiver, "/RJT/"@, i);
    }

    /// Field 72 absent, or holding none of `/REJT/`, `/RJT/`, does not make a reject.
    pub proof fn lemma_carries_reject_code_absent(m: MT205)
        requires
            m.sender_to_receiver matches Some(x) ==> forall|i: int|
                0 <= i && i + "/REJT/"@.len() <= x.value@.len() ==> #[trigger] x.value@.subrange(i, i + "/REJT/"@.len()) != "/REJT/"@,
            m.sender_to_receiver matches Some(x) ==> forall|i: int|
                0 <= i && i + "/RJT/"@.len() <= x.value@.len() ==> #[trigger] x.value@.subrange(i, i + "/RJT/"@.len()) != "/RJT/"@,
        ensures
            !m.carries_reject_code(),
    {
        crate::messages::narrative::lemma_mentions_nowhere(m.sender_to_receiver, "/REJT/"@);
        crate::messages::narrative::lemma_mentions_nowhere(m.sender_to_receiver, "/RJT/"@);
    }

    /// Field 72 holding `/RETN/` anywhere makes a return.
    pub proof fn lemma_carries_return_code_retn(m: MT205, i: int)
        requires
            m.sender_to_receiver matches Some(x) && 0 <= i && i + "/RETN/"@.len() <= x.value@.len() && x.value@.subrange(
                i,
                i + "/RETN/"@.len(),
            ) == "/RETN/"@,
        ensures
            m.carries_return_code(),
    {
        crate::messages::narrative::lemma_mentions_at(m.sender_to_receiver, "/RETN/"@, i);
    }

    /// Field 72 holding `/RET/` anywhere makes a return.
    pub proof fn lemma_carries_return_code_ret(m: MT205, i: int)
        requires
            m.sender_to_receiver matches Some(x) && 0 <= i && i + "/RET/"@.len() <= x.value@.len() && x.value@.subrange(
                i,
                i + "/RET/"@.len(),
            ) == "/RET/"@,
        ensures
            m.carries_return_code(),
    {
        crate::messages::narrative::lemma_mentions_at(m.sender_to_receiver, "/RET/"@, i);
    }

    /// Field 72 absent, or holding none of `/RETN/`, `/RET/`, does not make a return.
    pub proof fn lemma_carries_return_code_absent(m: MT205)
        requires
            m.sender_to_receiver matches Some(x) ==> forall|i: int|
                0 <= i && i + "/RETN/"@.len() <= x.value@.len() ==> #[trigger] x.value@.subrange(i, i + "/RETN/"@.len()) != "/RETN/"@,
            m.sender_to_receiver matches Some(x) ==> forall|i: int|
                0 <= i && i + "/RET/"@.len() <= x.value@.len() ==> #[trigger] x.value@.subrange(i, i + "/RET/"@.len()) != "/RET/"@,
        ensures
            !m.carries_return_code(),
    {
        crate::messages::narrative::lemma_mentions_nowhere(m.sender_to_receiver, "/RETN/"@);
        crate::messages::narrative::lemma_mentions_nowhere(m.sender_to_receiver, "/RET/"@);
    }

    /// Field 72 holding `/COV/` anywhere makes a cover message.
    pub proof fn lemma_is_cover_cov(m: MT205, i: int)
        requires
            m.sender_to_receiver matches Some(x) && 0 <= i && i + "/COV/"@.len() <= x.value@.len() && x.value@.subrange(
                i,
                i + "/COV/"@.len(),
            ) == "/COV/"@,
        ensures
            m.is_cover(),
    {
        crate::messages::narrative::lemma_mentions_at(m.sender_to_receiver, "/COV/"@, i);
    }

    /// Field 72 holding `/COVER/` anywhere makes a cover message.
    pub proof fn lemma_is_cover_cover(m: MT205, i: int)
        requires
            m.sender_to_receiver matches Some(x) && 0 <= i && i + "/COVER/"@.len() <= x.value@.len() && x.value@.subrange(
                i,
                i + "/COVER/"@.len(),
            ) == "/COVER/"@,
        ensures
            m.is_cover(),
    {
        crate::messages::narrative::lemma_mentions_at(m.sender_to_receiver, "/COVER/"@, i);
    }

    /// Field 72 absent, or holding none of `/COV/`, `/COVER/`, does not make a cover message.
    pub proof fn lemma_is_cover_absent(m: MT205)
        requires
            m.sender_to_receiver matches Some(x) ==> forall|i: int|
                0 <= i && i + "/COV/"@.len() <= x.value@.len() ==> #[trigger] x.value@.subrange(i, i + "/COV/"@.len()) != "/COV/"@,
            m.sender_to_receiver matches Some(x) ==> forall|i: int|
                0 <= i && i + "/COVER/"@.len() <= x.value@.len() ==> #[trigger] x.value@.subrange(i, i + "/COVER/"@.len()) != "/COVER/"@,
        ensures
            !m.is_cover(),
    {
        crate::messages::narrative::lemma_mentions_nowhere(m.sender_to_receiver, "/COV/"@);
        crate::messages::narrative::lemma_mentions_nowhere(m.sender_to_receiver, "/COVER/"@);
    }
}

} // verus!
