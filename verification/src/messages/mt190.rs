//! MT190: Advice of Charges, Interest and Other Adjustments

use vstd::prelude::*;
use crate::errors::ParseError;
use crate::message_parser::{
    error_is, item_views, layout_fits, layout_outcome, many_slot, opt_slot, parse_layout,
    rule_views, slot_fits, slot_views, slots_fit, take_many, take_one, take_opt, FieldRule, FieldView,
    LayoutView, MessageLayout, Parsed, ParsedView, RawField, RuleView,
};
use crate::parsing_utils::{
    block4_of, extract_block4, mt_text, pair_views, push_field, push_optional, push_repeated,
    render_mt,
};
use crate::text::str_views;
use crate::traits::SwiftMessageBody;
use crate::messages::narrative::{field_mentions, field_starts_with, is_plain_reference, mentions, plain_reference};
use crate::text::{starts_with, string_chars};

verus! {

/// The validation rules of the message, as JSONLogic.
pub const VALIDATION_RULES: &'static str = r#"{"rules": [
            {"id": "F20", "description": "Field 20 must not start or end with '/', and must not contain '//'"},
            {"id": "F21", "description": "Field 21 must not start or end with '/', and must not contain '//'"},
            {"id": "F25", "description": "Field 25 must contain valid account identification"},
            {"id": "F32", "description": "Field 32C or 32D must contain valid currency and amount"},
            {"id": "F71B", "description": "Field 71B must contain at least one line of charge details"}
        ]}"#;

/// MT190: Advice of Charges, Interest and Other Adjustments
#[derive(Debug, Clone, PartialEq)]
pub struct MT190 {
    pub field_20: RawField,
    pub field_21: RawField,
    pub field_25: RawField,
    pub field_32: RawField,
    pub field_52: Option<RawField>,
    pub field_71b: RawField,
    pub field_72: Option<RawField>,
}

impl MT190 {
    /// The layout of the message body.
    pub open spec fn body_layout() -> LayoutView {
        LayoutView {
            header: seq![
                RuleView::Mandatory("20"@),
                RuleView::Mandatory("21"@),
                RuleView::Mandatory("25"@),
                RuleView::MandatoryOption("32"@, seq!["C"@, "D"@]),
                RuleView::OptionalOption("52"@, seq!["A"@, "D"@]),
                RuleView::Mandatory("71B"@),
                RuleView::Optional("72"@),
            ],
            item_start: ""@,
            items: Seq::empty(),
            trailer: Seq::empty(),
            complete: false,
        }
    }

    /// The fields of the message as its layout took them.
    pub open spec fn slots(&self) -> ParsedView {
        (
            seq![
                seq![self.field_20@],
                seq![self.field_21@],
                seq![self.field_25@],
                seq![self.field_32@],
                opt_slot(self.field_52),
                seq![self.field_71b@],
                opt_slot(self.field_72),
            ],
            Seq::empty(),
            Seq::empty(),
        )
    }

    /// The fields of the message in writing order.
    pub open spec fn fields_in_order(&self) -> Seq<FieldView> {
        seq![self.field_20@]
            + seq![self.field_21@]
            + seq![self.field_25@]
            + seq![self.field_32@]
            + opt_slot(self.field_52)
            + seq![self.field_71b@]
            + opt_slot(self.field_72)
    }

    /// The layout of the message body.
    #[verifier::spinoff_prover]
    fn layout_rules() -> (l: MessageLayout)
        ensures
            l@ == Self::body_layout(),
    {
        let l = MessageLayout {
            header: vec![
                FieldRule::Mandatory("20"),
                FieldRule::Mandatory("21"),
                FieldRule::Mandatory("25"),
                FieldRule::MandatoryOption("32", vec!["C", "D"]),
                FieldRule::OptionalOption("52", vec!["A", "D"]),
                FieldRule::Mandatory("71B"),
                FieldRule::Optional("72"),
            ],
            item_start: "",
            items: Vec::new(),
            trailer: Vec::new(),
            complete: false,
        };
        assert(l@.header =~~= Self::body_layout().header);
        assert(l@.trailer =~~= Self::body_layout().trailer);
        assert(l@.items =~~= Self::body_layout().items);
        l
    }

    /// The message built from the fields its layout took.
    #[verifier::spinoff_prover]
    #[verifier::rlimit(80)]
    fn from_parsed(p: Parsed) -> (m: MT190)
        requires
            layout_fits(Self::body_layout(), p@),
            p@.1.len() == 0,
        ensures
            m.slots() == p@,
    {
        let ghost pv = p@;
        let ghost all = pv.0;
        let ghost tail = pv.2;
        let Parsed { header, items, trailer } = p;
        let mut slots = header;
        assert(slot_views(slots@) =~= all.take(slots.len() as int));
        assert(slot_fits(Self::body_layout().header[0], all[0]));
        assert(slot_fits(Self::body_layout().header[1], all[1]));
        assert(slot_fits(Self::body_layout().header[2], all[2]));
        assert(slot_fits(Self::body_layout().header[3], all[3]));
        assert(slot_fits(Self::body_layout().header[4], all[4]));
        assert(slot_fits(Self::body_layout().header[5], all[5]));
        assert(slot_fits(Self::body_layout().header[6], all[6]));
        let field_72 = take_opt(&mut slots, Ghost(all));
        let field_71b = take_one(&mut slots, Ghost(all));
        let field_52 = take_opt(&mut slots, Ghost(all));
        let field_32 = take_one(&mut slots, Ghost(all));
        let field_25 = take_one(&mut slots, Ghost(all));
        let field_21 = take_one(&mut slots, Ghost(all));
        let field_20 = take_one(&mut slots, Ghost(all));
        let mut tslots = trailer;
        assert(slot_views(tslots@) =~= tail.take(tslots.len() as int));
        let m = MT190 { field_20, field_21, field_25, field_32, field_52, field_71b, field_72 };
        assert(m.slots().0 =~= pv.0);
        assert(m.slots().1 =~= pv.1);
        assert(m.slots().2 =~= pv.2);
        m
    }

    /// What parsing `block4` by the layout gives: the message with the
    /// fields each rule took, or the error that stands for the failure.
    pub open spec fn taken(block4: Seq<char>, r: Result<MT190, ParseError>) -> bool {
        match layout_outcome(block4, Self::body_layout()) {
            Ok(p) => r matches Ok(m) && m.slots() == p,
            Err(e) => r matches Err(pe) && error_is(pe, e),
        }
    }

    /// Parse message from Block 4 content
    pub fn parse_from_block4(block4: &str) -> (r: Result<MT190, ParseError>)
        ensures
            Self::taken(block4@, r),
    {
        let layout = Self::layout_rules();
        match parse_layout(block4, "190", &layout) {
            Ok(p) => Ok(Self::from_parsed(p)),
            Err(e) => Err(e),
        }
    }

    /// The fields of the message as (tag, content) pairs, in writing order.
    pub fn to_ordered_fields(&self) -> (r: Vec<(String, String)>)
        ensures
            pair_views(r@) == self.fields_in_order(),
    {
        let mut v: Vec<(String, String)> = Vec::new();
        push_field(&mut v, &self.field_20);
        assert(pair_views(v@) =~= seq![self.field_20@]);
        push_field(&mut v, &self.field_21);
        push_field(&mut v, &self.field_25);
        push_field(&mut v, &self.field_32);
        push_optional(&mut v, &self.field_52);
        push_field(&mut v, &self.field_71b);
        push_optional(&mut v, &self.field_72);
        v
    }

    /// Convert to SWIFT MT text format
    pub fn to_mt_string(&self) -> (r: String)
        ensures
            r@ == mt_text(self.fields_in_order()),
    {
        render_mt(&self.to_ordered_fields())
    }

    /// Validation rules for the message
    pub fn validate() -> (r: &'static str)
        ensures
            r@ == VALIDATION_RULES@,
    {
        VALIDATION_RULES
    }

    /// The instance rules: the first rule broken, by its message.
    pub open spec fn instance_check(&self) -> Result<(), Seq<char>> {
        if !plain_reference(self.field_20.value@) {
            Err("MT190: Field 20 must not start or end with '/', and must not contain '//'"@)
        } else if !plain_reference(self.field_21.value@) {
            Err("MT190: Field 21 must not start or end with '/', and must not contain '//'"@)
        } else if self.field_71b.value@.len() == 0 {
            Err("MT190: Field 71B must contain at least one line of charge details"@)
        } else {
            Ok(())
        }
    }

    /// Validate the message instance according to MT190 rules
    pub fn validate_instance(&self) -> (r: Result<(), ParseError>)
        ensures
            match self.instance_check() {
                Ok(()) => r is Ok,
                Err(msg) => r matches Err(ParseError::InvalidFormat { message }) && message@ == msg,
            },
    {
        if !is_plain_reference(&self.field_20) {
            return Err(ParseError::InvalidFormat { message: "MT190: Field 20 must not start or end with '/', and must not contain '//'".to_string() });
        }
        if !is_plain_reference(&self.field_21) {
            return Err(ParseError::InvalidFormat { message: "MT190: Field 21 must not start or end with '/', and must not contain '//'".to_string() });
        }
        if string_chars(&self.field_71b.value).len() == 0 {
            return Err(ParseError::InvalidFormat { message: "MT190: Field 71B must contain at least one line of charge details".to_string() });
        }
        Ok(())
    }
}

impl SwiftMessageBody for MT190 {
    open spec fn type_code() -> Seq<char> {
        "190"@
    }

    open spec fn layout() -> LayoutView {
        Self::body_layout()
    }

    open spec fn parsed(&self) -> ParsedView {
        self.slots()
    }

    open spec fn ordered(&self) -> Seq<FieldView> {
        self.fields_in_order()
    }

    open spec fn parse_spec(block4: Seq<char>, r: Result<Self, ParseError>) -> bool {
        Self::taken(block4, r)
    }

    open spec fn required_tags() -> Seq<Seq<char>> {
        seq![
            "20"@,
            "21"@,
            "25"@,
            "32"@,
            "71B"@,
        ]
    }

    open spec fn optional_tags() -> Seq<Seq<char>> {
        seq![
            "52"@,
            "72"@,
        ]
    }

    open spec fn rejected(&self) -> bool {
        false
    }

    open spec fn returned(&self) -> bool {
        false
    }

    open spec fn cover(&self) -> bool {
        false
    }

    open spec fn stp(&self) -> bool {
        false
    }

    fn message_type() -> (r: &'static str) {
        "190"
    }

    fn parse_from_block4(block4: &str) -> (r: Result<Self, ParseError>) {
        MT190::parse_from_block4(block4)
    }

    fn to_ordered_fields(&self) -> (r: Vec<(String, String)>) {
        MT190::to_ordered_fields(self)
    }

    fn to_mt_string(&self) -> (r: String) {
        MT190::to_mt_string(self)
    }

    fn required_fields() -> (r: Vec<&'static str>) {
        let r = vec![
            "20",
            "21",
            "25",
            "32",
            "71B",
        ];
        assert(str_views(r@) =~= Self::required_tags());
        r
    }

    fn optional_fields() -> (r: Vec<&'static str>) {
        let r = vec![
            "52",
            "72",
        ];
        assert(str_views(r@) =~= Self::optional_tags());
        r
    }

    fn has_reject_codes(&self) -> (b: bool) {
        false
    }

    fn has_return_codes(&self) -> (b: bool) {
        false
    }

    fn is_cover_message(&self) -> (b: bool) {
        false
    }

    fn is_stp_message(&self) -> (b: bool) {
        false
    }
}

impl MT190 {
    /// Writing the message and parsing the text again gives back its
    /// fields, slot by slot, wherever each field carries a tag that its rule
    /// reads back and reads back as written.
    pub proof fn lemma_round_trip(m: MT190)
        requires
            crate::round_trip::accepted_slots(Self::body_layout().header, m.slots().0),
            crate::round_trip::writable_fields(m.fields_in_order()),
        ensures
            forall|r: Result<MT190, ParseError>|
                Self::taken(mt_text(m.fields_in_order()), r) ==> (r matches Ok(x) && x.slots() == m.slots()),
    {
        reveal_strlit("20");
        reveal_strlit("21");
        reveal_strlit("25");
        reveal_strlit("32");
        reveal_strlit("52");
        reveal_strlit("71B");
        reveal_strlit("72");
        let l = Self::body_layout();
        let s = m.slots().0;
        reveal_with_fuel(crate::round_trip::flat, 8);
        assert(crate::round_trip::flat(s) =~= m.fields_in_order());
        let tags = seq!["20"@, "21"@, "25"@, "32"@, "52"@, "71B"@, "72"@];
        assert forall|i: int| 0 <= i < l.header.len() implies crate::round_trip::rule_tag(#[trigger] l.header[i]) == tags[i]
 by {}
        assert forall|i: int, j: int| 0 <= i < l.header.len() && 0 <= j < l.header.len() && i != j implies crate::round_trip::apart(#[trigger] l.header[i], #[trigger] l.header[j]) by {
            crate::round_trip::lemma_apart(l.header[i], l.header[j]);
        }
        assert(crate::round_trip::separate_rules(l.header));
        assert forall|i: int| 0 <= i < l.header.len() implies slot_fits(#[trigger] l.header[i], s[i]) by {}
        assert(slots_fit(l.header, s));
        crate::round_trip::lemma_separate_layout_round_trip(l, s);
        assert(m.slots() == (s, Seq::<Seq<Seq<FieldView>>>::empty(), Seq::<Seq<FieldView>>::empty()));
    }
}

impl MT190 {
    /// A reference (field 20) that starts or ends with `/`, or holds `//`, makes
    /// the message invalid.
    pub proof fn lemma_field_20_slashes(m: MT190, i: int)
        requires
            m.field_20.value@.len() > 0,
            m.field_20.value@[0] == '/' || m.field_20.value@[m.field_20.value@.len() - 1] == '/' || (0 <= i && i + 1
                < m.field_20.value@.len() && m.field_20.value@[i] == '/' && m.field_20.value@[i + 1] == '/'),
        ensures
            m.instance_check() is Err,
    {
        crate::messages::narrative::lemma_slashed_reference(m.field_20.value@, i);
    }

    /// A related reference (field 21) that starts or ends with `/`, or holds `//`, makes
    /// the message invalid.
    pub proof fn lemma_field_21_slashes(m: MT190, i: int)
        requires
            m.field_21.value@.len() > 0,
            m.field_21.value@[0] == '/' || m.field_21.value@[m.field_21.value@.len() - 1] == '/' || (0 <= i && i + 1
                < m.field_21.value@.len() && m.field_21.value@[i] == '/' && m.field_21.value@[i + 1] == '/'),
        ensures
            m.instance_check() is Err,
    {
        crate::messages::narrative::lemma_slashed_reference(m.field_21.value@, i);
    }

    /// An empty field 71B (charge details) makes the message invalid.
    pub proof fn lemma_empty_field_71b(m: MT190)
        requires
            m.field_71b.value@.len() == 0,
        ensures
            m.instance_check() is Err,
    {
    }

    /// References free of leading, trailing and doubled `/`, and a field 71B that is not empty, make
    /// a valid message.
    pub proof fn lemma_valid_references(m: MT190)
        requires
            m.field_20.value@.len() > 0 ==> m.field_20.value@[0] != '/' && m.field_20.value@[m.field_20.value@.len() - 1] != '/',
            forall|i: int| 0 <= i && i + 1 < m.field_20.value@.len() ==> !(m.field_20.value@[i] == '/' && #[trigger] m.field_20.value@[i + 1] == '/'),
            m.field_21.value@.len() > 0 ==> m.field_21.value@[0] != '/' && m.field_21.value@[m.field_21.value@.len() - 1] != '/',
            forall|i: int| 0 <= i && i + 1 < m.field_21.value@.len() ==> !(m.field_21.value@[i] == '/' && #[trigger] m.field_21.value@[i + 1] == '/'),
            m.field_71b.value@.len() > 0,
        ensures
            m.instance_check() is Ok,
    {
        crate::messages::narrative::lemma_plain_reference(m.field_20.value@);
        crate::messages::narrative::lemma_plain_reference(m.field_21.value@);
    }
}

} // verus!
