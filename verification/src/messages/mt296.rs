//! MT296: Answers

use vstd::prelude::*;
use crate::errors::ParseError;
use crate::message_parser::{
    error_is, item_views, layout_fits, layout_outcome, many_slot, opt_slot, parse_layout,
    rule_views, slot_fits, slot_views, slots_fit, take_many, take_one, take_opt, FieldRule, FieldView,
    LayoutView, MessageLayout, Parsed, ParsedView, RawField, RuleView,
};
use crate::parsing_utils::{
    block4_of, extract_block4, mt_text, pair_views, push_field, push_optional, push_repeated,
    render_mt,
};
use crate::text::str_views;
use crate::traits::SwiftMessageBody;

verus! {

/// The validation rules of the message, as JSONLogic.
pub const VALIDATION_RULES: &'static str = r#"{"rules": []}"#;

/// MT296: Answers
#[derive(Debug, Clone, PartialEq)]
pub struct MT296 {
    pub field_20: RawField,
    pub field_21: RawField,
    pub field_76: RawField,
    pub field_77a: Option<RawField>,
    pub field_11r: Option<RawField>,
    pub field_11s: Option<RawField>,
    pub field_79: Option<RawField>,
}

impl MT296 {
    /// The layout of the message body.
    pub open spec fn body_layout() -> LayoutView {
        LayoutView {
            header: seq![
                RuleView::Mandatory("20"@),
                RuleView::Mandatory("21"@),
                RuleView::Mandatory("76"@),
                RuleView::Optional("77A"@),
                RuleView::Optional("11R"@),
                RuleView::Optional("11S"@),
                RuleView::Optional("79"@),
            ],
            item_start: ""@,
            items: Seq::empty(),
            trailer: Seq::empty(),
            complete: false,
        }
    }

    /// The fields of the message as its layout took them.
    pub open spec fn slots(&self) -> ParsedView {
        (
            seq![
                seq![self.field_20@],
                seq![self.field_21@],
                seq![self.field_76@],
                opt_slot(self.field_77a),
                opt_slot(self.field_11r),
                opt_slot(self.field_11s),
                opt_slot(self.field_79),
            ],
            Seq::empty(),
            Seq::empty(),
        )
    }

    /// The fields of the message in writing order.
    pub open spec fn fields_in_order(&self) -> Seq<FieldView> {
        seq![self.field_20@]
            + seq![self.field_21@]
            + seq![self.field_76@]
            + opt_slot(self.field_77a)
            + opt_slot(self.field_11r)
            + opt_slot(self.field_11s)
            + opt_slot(self.field_79)
    }

    /// The layout of the message body.
    #[verifier::spinoff_prover]
    fn layout_rules() -> (l: MessageLayout)
        ensures
            l@ == Self::body_layout(),
    {
        let l = MessageLayout {
            header: vec![
                FieldRule::Mandatory("20"),
                FieldRule::Mandatory("21"),
                FieldRule::Mandatory("76"),
                FieldRule::Optional("77A"),
                FieldRule::Optional("11R"),
                FieldRule::Optional("11S"),
                FieldRule::Optional("79"),
            ],
            item_start: "",
            items: Vec::new(),
            trailer: Vec::new(),
            complete: false,
        };
        assert(l@.header =~~= Self::body_layout().header);
        assert(l@.trailer =~~= Self::body_layout().trailer);
        assert(l@.items =~~= Self::body_layout().items);
        l
    }

    /// The message built from the fields its layout took.
    #[verifier::spinoff_prover]
    #[verifier::rlimit(80)]
    fn from_parsed(p: Parsed) -> (m: MT296)
        requires
            layout_fits(Self::body_layout(), p@),
            p@.1.len() == 0,
        ensures
            m.slots() == p@,
    {
        let ghost pv = p@;
        let ghost all = pv.0;
        let ghost tail = pv.2;
        let Parsed { header, items, trailer } = p;
        let mut slots = header;
        assert(slot_views(slots@) =~= all.take(slots.len() as int));
        assert(slot_fits(Self::body_layout().header[0], all[0]));
        assert(slot_fits(Self::body_layout().header[1], all[1]));
        assert(slot_fits(Self::body_layout().header[2], all[2]));
        assert(slot_fits(Self::body_layout().header[3], all[3]));
        assert(slot_fits(Self::body_layout().header[4], all[4]));
        assert(slot_fits(Self::body_layout().header[5], all[5]));
        assert(slot_fits(Self::body_layout().header[6], all[6]));
        let field_79 = take_opt(&mut slots, Ghost(all));
        let field_11s = take_opt(&mut slots, Ghost(all));
        let field_11r = take_opt(&mut slots, Ghost(all));
        let field_77a = take_opt(&mut slots, Ghost(all));
        let field_76 = take_one(&mut slots, Ghost(all));
        let field_21 = take_one(&mut slots, Ghost(all));
        let field_20 = take_one(&mut slots, Ghost(all));
        let mut tslots = trailer;
        assert(slot_views(tslots@) =~= tail.take(tslots.len() as int));
        let m = MT296 { field_20, field_21, field_76, field_77a, field_11r, field_11s, field_79 };
        assert(m.slots().0 =~= pv.0);
        assert(m.slots().1 =~= pv.1);
        assert(m.slots().2 =~= pv.2);
        m
    }

    /// What parsing `block4` by the layout gives: the message with the
    /// fields each rule took, or the error that stands for the failure.
    pub open spec fn taken(block4: Seq<char>, r: Result<MT296, ParseError>) -> bool {
        match layout_outcome(block4, Self::body_layout()) {
            Ok(p) => r matches Ok(m) && m.slots() == p,
            Err(e) => r matches Err(pe) && error_is(pe, e),
        }
    }

    /// Parse message from Block 4 content
    pub fn parse_from_block4(block4: &str) -> (r: Result<MT296, ParseError>)
        ensures
            Self::taken(block4@, r),
    {
        let layout = Self::layout_rules();
        match parse_layout(block4, "296", &layout) {
            Ok(p) => Ok(Self::from_parsed(p)),
            Err(e) => Err(e),
        }
    }

    /// The fields of the message as (tag, content) pairs, in writing order.
    pub fn to_ordered_fields(&self) -> (r: Vec<(String, String)>)
        ensures
            pair_views(r@) == self.fields_in_order(),
    {
        let mut v: Vec<(String, String)> = Vec::new();
        push_field(&mut v, &self.field_20);
        assert(pair_views(v@) =~= seq![self.field_20@]);
        push_field(&mut v, &self.field_21);
        push_field(&mut v, &self.field_76);
        push_optional(&mut v, &self.field_77a);
        push_optional(&mut v, &self.field_11r);
        push_optional(&mut v, &self.field_11s);
        push_optional(&mut v, &self.field_79);
        v
    }

    /// Convert to SWIFT MT text format
    pub fn to_mt_string(&self) -> (r: String)
        ensures
            r@ == mt_text(self.fields_in_order()),
    {
        render_mt(&self.to_ordered_fields())
    }

    /// Validation rules for the message
    pub fn validate() -> (r: &'static str)
        ensures
            r@ == VALIDATION_RULES@,
    {
        VALIDATION_RULES
    }
}

impl SwiftMessageBody for MT296 {
    open spec fn type_code() -> Seq<char> {
        "296"@
    }

    open spec fn layout() -> LayoutView {
        Self::body_layout()
    }

    open spec fn parsed(&self) -> ParsedView {
        self.slots()
    }

    open spec fn ordered(&self) -> Seq<FieldView> {
        self.fields_in_order()
    }

    open spec fn parse_spec(block4: Seq<char>, r: Result<Self, ParseError>) -> bool {
        Self::taken(block4, r)
    }

    open spec fn required_tags() -> Seq<Seq<char>> {
        seq![
            "20"@,
            "21"@,
            "76"@,
        ]
    }

    open spec fn optional_tags() -> Seq<Seq<char>> {
        seq![
            "77A"@,
            "11R"@,
            "11S"@,
            "79"@,
        ]
    }

    open spec fn rejected(&self) -> bool {
        false
    }

    open spec fn returned(&self) -> bool {
        false
    }

    open spec fn cover(&self) -> bool {
        false
    }

    open spec fn stp(&self) -> bool {
        false
    }

    fn message_type() -> (r: &'static str) {
        "296"
    }

    fn parse_from_block4(block4: &str) -> (r: Result<Self, ParseError>) {
        MT296::parse_from_block4(block4)
    }

    fn to_ordered_fields(&self) -> (r: Vec<(String, String)>) {
        MT296::to_ordered_fields(self)
    }

    fn to_mt_string(&self) -> (r: String) {
        MT296::to_mt_string(self)
    }

    fn required_fields() -> (r: Vec<&'static str>) {
        let r = vec![
            "20",
            "21",
            "76",
        ];
        assert(str_views(r@) =~= Self::required_tags());
        r
    }

    fn optional_fields() -> (r: Vec<&'static str>) {
        let r = vec![
            "77A",
            "11R",
            "11S",
            "79",
        ];
        assert(str_views(r@) =~= Self::optional_tags());
        r
    }

    fn has_reject_codes(&self) -> (b: bool) {
        false
    }

    fn has_return_codes(&self) -> (b: bool) {
        false
    }

    fn is_cover_message(&self) -> (b: bool) {
        false
    }

    fn is_stp_message(&self) -> (b: bool) {
        false
    }
}

impl MT296 {
    /// Writing the message and parsing the text again gives back its
    /// fields, slot by slot, wherever each field carries the tag of its rule
    /// and reads back as written.
    pub proof fn lemma_round_trip(m: MT296)
        requires
            crate::round_trip::tagged_slots(Self::body_layout().header, m.slots().0),
            crate::round_trip::writable_fields(m.fields_in_order()),
        ensures
            forall|r: Result<MT296, ParseError>|
                Self::taken(mt_text(m.fields_in_order()), r) ==> (r matches Ok(x) && x.slots() == m.slots()),
    {
        reveal_strlit("20");
        reveal_strlit("21");
        reveal_strlit("76");
        reveal_strlit("77A");
        reveal_strlit("11R");
        reveal_strlit("11S");
        reveal_strlit("79");
        let l = Self::body_layout();
        let s = m.slots().0;
        reveal_with_fuel(crate::round_trip::flat, 8);
        assert(crate::round_trip::flat(s) =~= m.fields_in_order());
        assert(l.header[0] == RuleView::Mandatory("20"@));
        assert(l.header[1] == RuleView::Mandatory("21"@));
        assert(l.header[2] == RuleView::Mandatory("76"@));
        assert(l.header[3] == RuleView::Optional("77A"@));
        assert(l.header[4] == RuleView::Optional("11R"@));
        assert(l.header[5] == RuleView::Optional("11S"@));
        assert(l.header[6] == RuleView::Optional("79"@));
        assert("20"@[1] != "21"@[1]);
        assert("20"@[0] != "76"@[0]);
        assert("20"@.len() != "77A"@.len());
        assert("20"@.len() != "11R"@.len());
        assert("20"@.len() != "11S"@.len());
        assert("20"@[0] != "79"@[0]);
        assert("21"@[0] != "76"@[0]);
        assert("21"@.len() != "77A"@.len());
        assert("21"@.len() != "11R"@.len());
        assert("21"@.len() != "11S"@.len());
        assert("21"@[0] != "79"@[0]);
        assert("76"@.len() != "77A"@.len());
        assert("76"@.len() != "11R"@.len());
        assert("76"@.len() != "11S"@.len());
        assert("76"@[1] != "79"@[1]);
        assert("77A"@[0] != "11R"@[0]);
        assert("77A"@[0] != "11S"@[0]);
        assert("77A"@.len() != "79"@.len());
        assert("11R"@[2] != "11S"@[2]);
        assert("11R"@.len() != "79"@.len());
        assert("11S"@.len() != "79"@.len());
        assert forall|i: int| 0 <= i < l.header.len() implies (#[trigger] l.header[i] is Mandatory || l.header[i] is Optional) by {}
        assert forall|i: int, j: int| 0 <= i < l.header.len() && 0 <= j < l.header.len() && i != j implies crate::round_trip::rule_tag(l.header[i]) != crate::round_trip::rule_tag(l.header[j]) by {}
        assert(crate::round_trip::plain_rules(l.header));
        crate::round_trip::lemma_plain_layout_round_trip(l, s);
        assert(m.slots() == (s, Seq::<Seq<Seq<FieldView>>>::empty(), Seq::<Seq<FieldView>>::empty()));
    }
}

} // verus!
