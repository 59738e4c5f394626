//! MT199: Free Format Message

use vstd::prelude::*;
use crate::errors::ParseError;
use crate::message_parser::{
    error_is, item_views, layout_fits, layout_outcome, many_slot, opt_slot, parse_layout,
    rule_views, slot_fits, slot_views, slots_fit, take_many, take_one, take_opt, FieldRule, FieldView,
    LayoutView, MessageLayout, Parsed, ParsedView, RawField, RuleView,
};
use crate::parsing_utils::{
    block4_of, extract_block4, mt_text, pair_views, push_field, push_optional, push_repeated,
    render_mt,
};
use crate::text::str_views;
use crate::traits::SwiftMessageBody;
use crate::messages::narrative::{field_mentions, field_starts_with, is_plain_reference, mentions, plain_reference};
use crate::text::{starts_with, string_chars};

verus! {

/// The validation rules of the message, as JSONLogic.
pub const VALIDATION_RULES: &'static str = r#"{"rules": [
            {"id": "F20", "description": "Field 20 must not start or end with '/', and must not contain '//'"},
            {"id": "F21", "description": "Field 21 must not start or end with '/', and must not contain '//'"},
            {"id": "F79", "description": "Field 79 must contain meaningful communication content"},
            {"id": "REJT", "description": "If narrative starts with /REJT/, must follow Payments Guidelines"},
            {"id": "RETN", "description": "If narrative starts with /RETN/, must follow Payments Guidelines"}
        ]}"#;

/// MT199: Free Format Message
#[derive(Debug, Clone, PartialEq)]
pub struct MT199 {
    pub field_20: RawField,
    pub field_21: Option<RawField>,
    pub field_79: RawField,
}

impl MT199 {
    /// The layout of the message body.
    pub open spec fn body_layout() -> LayoutView {
        LayoutView {
            header: seq![
                RuleView::Mandatory("20"@),
                RuleView::Optional("21"@),
                RuleView::Mandatory("79"@),
            ],
            item_start: ""@,
            items: Seq::empty(),
            trailer: Seq::empty(),
            complete: false,
        }
    }

    /// The fields of the message as its layout took them.
    pub open spec fn slots(&self) -> ParsedView {
        (
            seq![
                seq![self.field_20@],
                opt_slot(self.field_21),
                seq![self.field_79@],
            ],
            Seq::empty(),
            Seq::empty(),
        )
    }

    /// The fields of the message in writing order.
    pub open spec fn fields_in_order(&self) -> Seq<FieldView> {
        seq![self.field_20@]
            + opt_slot(self.field_21)
            + seq![self.field_79@]
    }

    /// The layout of the message body.
    #[verifier::spinoff_prover]
    fn layout_rules() -> (l: MessageLayout)
        ensures
            l@ == Self::body_layout(),
    {
        let l = MessageLayout {
            header: vec![
                FieldRule::Mandatory("20"),
                FieldRule::Optional("21"),
                FieldRule::Mandatory("79"),
            ],
            item_start: "",
            items: Vec::new(),
            trailer: Vec::new(),
            complete: false,
        };
        assert(l@.header =~~= Self::body_layout().header);
        assert(l@.trailer =~~= Self::body_layout().trailer);
        assert(l@.items =~~= Self::body_layout().items);
        l
    }

    /// The message built from the fields its layout took.
    #[verifier::spinoff_prover]
    #[verifier::rlimit(80)]
    fn from_parsed(p: Parsed) -> (m: MT199)
        requires
            layout_fits(Self::body_layout(), p@),
            p@.1.len() == 0,
        ensures
            m.slots() == p@,
    {
        let ghost pv = p@;
        let ghost all = pv.0;
        let ghost tail = pv.2;
        let Parsed { header, items, trailer } = p;
        let mut slots = header;
        assert(slot_views(slots@) =~= all.take(slots.len() as int));
        assert(slot_fits(Self::body_layout().header[0], all[0]));
        assert(slot_fits(Self::body_layout().header[1], all[1]));
        assert(slot_fits(Self::body_layout().header[2], all[2]));
        let field_79 = take_one(&mut slots, Ghost(all));
        let field_21 = take_opt(&mut slots, Ghost(all));
        let field_20 = take_one(&mut slots, Ghost(all));
        let mut tslots = trailer;
        assert(slot_views(tslots@) =~= tail.take(tslots.len() as int));
        let m = MT199 { field_20, field_21, field_79 };
        assert(m.slots().0 =~= pv.0);
        assert(m.slots().1 =~= pv.1);
        assert(m.slots().2 =~= pv.2);
        m
    }

    /// What parsing `block4` by the layout gives: the message with the
    /// fields each rule took, or the error that stands for the failure.
    pub open spec fn taken(block4: Seq<char>, r: Result<MT199, ParseError>) -> bool {
        match layout_outcome(block4, Self::body_layout()) {
            Ok(p) => r matches Ok(m) && m.slots() == p,
            Err(e) => r matches Err(pe) && error_is(pe, e),
        }
    }

    /// Parse message from Block 4 content
    pub fn parse_from_block4(block4: &str) -> (r: Result<MT199, ParseError>)
        ensures
            Self::taken(block4@, r),
    {
        let layout = Self::layout_rules();
        match parse_layout(block4, "199", &layout) {
            Ok(p) => Ok(Self::from_parsed(p)),
            Err(e) => Err(e),
        }
    }

    /// The fields of the message as (tag, content) pairs, in writing order.
    pub fn to_ordered_fields(&self) -> (r: Vec<(String, String)>)
        ensures
            pair_views(r@) == self.fields_in_order(),
    {
        let mut v: Vec<(String, String)> = Vec::new();
        push_field(&mut v, &self.field_20);
        assert(pair_views(v@) =~= seq![self.field_20@]);
        push_optional(&mut v, &self.field_21);
        push_field(&mut v, &self.field_79);
        v
    }

    /// Convert to SWIFT MT text format
    pub fn to_mt_string(&self) -> (r: String)
        ensures
            r@ == mt_text(self.fields_in_order()),
    {
        render_mt(&self.to_ordered_fields())
    }

    /// Validation rules for the message
    pub fn validate() -> (r: &'static str)
        ensures
            r@ == VALIDATION_RULES@,
    {
        VALIDATION_RULES
    }

    /// The instance rules: the first rule broken, by its message.
    pub open spec fn instance_check(&self) -> Result<(), Seq<char>> {
        if !plain_reference(self.field_20.value@) {
            Err("MT199: Field 20 must not start or end with '/', and must not contain '//'"@)
        } else if (self.field_21 matches Some(f) && !plain_reference(f.value@)) {
            Err("MT199: Field 21 must not start or end with '/', and must not contain '//'"@)
        } else if self.field_79.value@.len() == 0 {
            Err("MT199: Field 79 must contain at least one line of narrative"@)
        } else {
            Ok(())
        }
    }

    /// Validate the message instance according to MT199 rules
    pub fn validate_instance(&self) -> (r: Result<(), ParseError>)
        ensures
            match self.instance_check() {
                Ok(()) => r is Ok,
                Err(msg) => r matches Err(ParseError::InvalidFormat { message }) && message@ == msg,
            },
    {
        if !is_plain_reference(&self.field_20) {
            return Err(ParseError::InvalidFormat { message: "MT199: Field 20 must not start or end with '/', and must not contain '//'".to_string() });
        }
        if (match &self.field_21 { Some(f) => !is_plain_reference(f), None => false }) {
            return Err(ParseError::InvalidFormat { message: "MT199: Field 21 must not start or end with '/', and must not contain '//'".to_string() });
        }
        if string_chars(&self.field_79.value).len() == 0 {
            return Err(ParseError::InvalidFormat { message: "MT199: Field 79 must contain at least one line of narrative".to_string() });
        }
        Ok(())
    }

    /// The narrative of field 79 starts with a reject code.
    pub open spec fn narrates_reject(&self) -> bool {
        starts_with(self.field_79.value@, "/REJT/"@)
    }

    /// The narrative of field 79 starts with a return code.
    pub open spec fn narrates_return(&self) -> bool {
        starts_with(self.field_79.value@, "/RETN/"@)
    }

    /// The narrative of field 79 starts with a reject code.
    pub fn is_reject_message(&self) -> (b: bool)
        ensures
            b == self.narrates_reject(),
    {
        field_starts_with(&self.field_79, "/REJT/")
    }

    /// The narrative of field 79 starts with a return code.
    pub fn is_return_message(&self) -> (b: bool)
        ensures
            b == self.narrates_return(),
    {
        field_starts_with(&self.field_79, "/RETN/")
    }
}

impl SwiftMessageBody for MT199 {
    open spec fn type_code() -> Seq<char> {
        "199"@
    }

    open spec fn layout() -> LayoutView {
        Self::body_layout()
    }

    open spec fn parsed(&self) -> ParsedView {
        self.slots()
    }

    open spec fn ordered(&self) -> Seq<FieldView> {
        self.fields_in_order()
    }

    open spec fn parse_spec(block4: Seq<char>, r: Result<Self, ParseError>) -> bool {
        Self::taken(block4, r)
    }

    open spec fn required_tags() -> Seq<Seq<char>> {
        seq![
            "20"@,
            "79"@,
        ]
    }

    open spec fn optional_tags() -> Seq<Seq<char>> {
        seq![
            "21"@,
        ]
    }

    open spec fn rejected(&self) -> bool {
        false
    }

    open spec fn returned(&self) -> bool {
        false
    }

    open spec fn cover(&self) -> bool {
        false
    }

    open spec fn stp(&self) -> bool {
        false
    }

    fn message_type() -> (r: &'static str) {
        "199"
    }

    fn parse_from_block4(block4: &str) -> (r: Result<Self, ParseError>) {
        MT199::parse_from_block4(block4)
    }

    fn to_ordered_fields(&self) -> (r: Vec<(String, String)>) {
        MT199::to_ordered_fields(self)
    }

    fn to_mt_string(&self) -> (r: String) {
        MT199::to_mt_string(self)
    }

    fn required_fields() -> (r: Vec<&'static str>) {
        let r = vec![
            "20",
            "79",
        ];
        assert(str_views(r@) =~= Self::required_tags());
        r
    }

    fn optional_fields() -> (r: Vec<&'static str>) {
        let r = vec![
            "21",
        ];
        assert(str_views(r@) =~= Self::optional_tags());
        r
    }

    fn has_reject_codes(&self) -> (b: bool) {
        false
    }

    fn has_return_codes(&self) -> (b: bool) {
        false
    }

    fn is_cover_message(&self) -> (b: bool) {
        false
    }

    fn is_stp_message(&self) -> (b: bool) {
        false
    }
}

impl MT199 {
    /// Writing the message and parsing the text again gives back its
    /// fields, slot by slot, wherever each field carries the tag of its rule
    /// and reads back as written.
    pub proof fn lemma_round_trip(m: MT199)
        requires
            crate::round_trip::tagged_slots(Self::body_layout().header, m.slots().0),
            crate::round_trip::writable_fields(m.fields_in_order()),
        ensures
            forall|r: Result<MT199, ParseError>|
                Self::taken(mt_text(m.fields_in_order()), r) ==> (r matches Ok(x) && x.slots() == m.slots()),
    {
        reveal_strlit("20");
        reveal_strlit("21");
        reveal_strlit("79");
        let l = Self::body_layout();
        let s = m.slots().0;
        reveal_with_fuel(crate::round_trip::flat, 4);
        assert(crate::round_trip::flat(s) =~= m.fields_in_order());
        assert(l.header[0] == RuleView::Mandatory("20"@));
        assert(l.header[1] == RuleView::Optional("21"@));
        assert(l.header[2] == RuleView::Mandatory("79"@));
        assert("20"@[1] != "21"@[1]);
        assert("20"@[0] != "79"@[0]);
        assert("21"@[0] != "79"@[0]);
        assert forall|i: int| 0 <= i < l.header.len() implies (#[trigger] l.header[i] is Mandatory || l.header[i] is Optional) by {}
        assert forall|i: int, j: int| 0 <= i < l.header.len() && 0 <= j < l.header.len() && i != j implies crate::round_trip::rule_tag(l.header[i]) != crate::round_trip::rule_tag(l.header[j]) by {}
        assert(crate::round_trip::plain_rules(l.header));
        crate::round_trip::lemma_plain_layout_round_trip(l, s);
        assert(m.slots() == (s, Seq::<Seq<Seq<FieldView>>>::empty(), Seq::<Seq<FieldView>>::empty()));
    }
}

impl MT199 {
    /// The message is a reject exactly when its narrative (field 79)
    /// begins with `/REJT/`.
    pub proof fn lemma_reject_by_narrative(m: MT199)
        ensures
            m.narrates_reject() <==> ("/REJT/"@.len() <= m.field_79.value@.len() && m.field_79.value@.subrange(
                0,
                "/REJT/"@.len() as int,
            ) == "/REJT/"@),
    {
    }

    /// The message is a return exactly when its narrative (field 79)
    /// begins with `/RETN/`.
    pub proof fn lemma_return_by_narrative(m: MT199)
        ensures
            m.narrates_return() <==> ("/RETN/"@.len() <= m.field_79.value@.len() && m.field_79.value@.subrange(
                0,
                "/RETN/"@.len() as int,
            ) == "/RETN/"@),
    {
    }

    /// A field 20 that starts or ends with `/`, or holds `//`, makes the
    /// message invalid.
    pub proof fn lemma_reference_slashes(m: MT199, i: int)
        requires
            m.field_20.value@.len() > 0,
            m.field_20.value@[0] == '/' || m.field_20.value@[m.field_20.value@.len() - 1] == '/' || (0 <= i && i + 1
                < m.field_20.value@.len() && m.field_20.value@[i] == '/' && m.field_20.value@[i + 1] == '/'),
        ensures
            m.instance_check() is Err,
    {
        crate::messages::narrative::lemma_slashed_reference(m.field_20.value@, i);
    }

    /// A related reference (field 21) that starts or ends with `/`, or holds
    /// `//`, makes the message invalid.
    pub proof fn lemma_related_slashes(m: MT199, i: int)
        requires
            m.field_21 matches Some(f) && f.value@.len() > 0 && (f.value@[0] == '/' || f.value@[f.value@.len() - 1]
                == '/' || (0 <= i && i + 1 < f.value@.len() && f.value@[i] == '/' && f.value@[i + 1] == '/')),
        ensures
            m.instance_check() is Err,
    {
        crate::messages::narrative::lemma_slashed_reference(m.field_21->0.value@, i);
    }

    /// An empty narrative (field 79) makes the message invalid.
    pub proof fn lemma_empty_narrative(m: MT199)
        requires
            m.field_79.value@.len() == 0,
        ensures
            m.instance_check() is Err,
    {
    }

    /// References free of leading, trailing and doubled `/`, and a narrative
    /// that is not empty, make a valid message.
    pub proof fn lemma_valid_free_format(m: MT199)
        requires
            m.field_20.value@.len() > 0 ==> m.field_20.value@[0] != '/' && m.field_20.value@[m.field_20.value@.len() - 1] != '/',
            forall|i: int| 0 <= i && i + 1 < m.field_20.value@.len() ==> !(m.field_20.value@[i] == '/' && #[trigger] m.field_20.value@[i + 1] == '/'),
            m.field_21 matches Some(f) ==> (f.value@.len() > 0 ==> f.value@[0] != '/' && f.value@[f.value@.len() - 1] != '/'),
            m.field_21 matches Some(f) ==> forall|i: int| 0 <= i && i + 1 < f.value@.len() ==> !(f.value@[i] == '/' && #[trigger] f.value@[i + 1] == '/'),
            m.field_79.value@.len() > 0,
        ensures
            m.instance_check() is Ok,
    {
        crate::messages::narrative::lemma_plain_reference(m.field_20.value@);
        if m.field_21 is Some {
            crate::messages::narrative::lemma_plain_reference(m.field_21->0.value@);
        }
    }
}

} // verus!
