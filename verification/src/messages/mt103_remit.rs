//! MT103 REMIT: Customer Credit Transfer (Enhanced Remittance Information)

use vstd::prelude::*;
use crate::errors::ParseError;
use crate::message_parser::{
    error_is, item_views, layout_fits, layout_outcome, many_slot, opt_slot, parse_layout,
    rule_views, slot_fits, slot_views, slots_fit, take_many, take_one, take_opt, FieldRule, FieldView,
    LayoutView, MessageLayout, Parsed, ParsedView, RawField, RuleView,
};
use crate::parsing_utils::{
    block4_of, extract_block4, mt_text, pair_views, push_field, push_optional, push_repeated,
    render_mt,
};
use crate::text::str_views;
use crate::traits::SwiftMessageBody;

verus! {

/// The validation rules of the message, as JSONLogic.
pub const MT103_REMIT_VALIDATION_RULES: &'static str = r#"{
  "rules": [
    {
      "id": "C1",
      "description": "If 33B is present and its currency differs from 32A, then 36 must be present; otherwise, 36 must not be present",
      "condition": {
        "if": [
          {"var": "field_33b.is_some"},
          {
            "if": [
              {"!=": [{"var": "field_33b.currency"}, {"var": "field_32a.currency"}]},
              {"var": "field_36.is_some"},
              {"not": {"var": "field_36.is_some"}}
            ]
          },
          {"not": {"var": "field_36.is_some"}}
        ]
      }
    },
    {
      "id": "C2", 
      "description": "If both Sender and Receiver BICs are in EU/EEA country codes list, then 33B is mandatory",
      "condition": {
        "if": [
          {"and": [
            {"in": [{"var": "message_context.sender_country"}, {"var": "EU_EEA_COUNTRIES"}]},
            {"in": [{"var": "message_context.receiver_country"}, {"var": "EU_EEA_COUNTRIES"}]}
          ]},
          {"var": "field_33b.is_some"},
          true
        ]
      }
    },
    {
      "id": "C5",
      "description": "If 56a is present, 57a becomes mandatory",
      "condition": {
        "if": [
          {"or": [
            {"var": "field_56a.is_some"},
            {"var": "field_56c.is_some"},
            {"var": "field_56d.is_some"}
          ]},
          {"or": [
            {"var": "field_57a.is_some"},
            {"var": "field_57b.is_some"},
            {"var": "field_57c.is_some"},
            {"var": "field_57d.is_some"}
          ]},
          true
        ]
      }
    },
    {
      "id": "C7",
      "description": "Charge allocation rules",
      "condition": {
        "and": [
          {
            "if": [
              {"==": [{"var": "field_71a.value"}, "OUR"]},
              {"not": {"var": "field_71f.is_some"}},
              true
            ]
          },
          {
            "if": [
              {"==": [{"var": "field_71a.value"}, "SHA"]},
              {"not": {"var": "field_71g.is_some"}},
              true
            ]
          },
          {
            "if": [
              {"==": [{"var": "field_71a.value"}, "BEN"]},
              {"and": [
                {"var": "field_71f.is_some"},
                {"not": {"var": "field_71g.is_some"}}
              ]},
              true
            ]
          }
        ]
      }
    },
    {
      "id": "C8",
      "description": "If either 71F or 71G is present, 33B becomes mandatory",
      "condition": {
        "if": [
          {"or": [
            {"var": "field_71f.is_some"},
            {"var": "field_71g.is_some"}
          ]},
          {"var": "field_33b.is_some"},
          true
        ]
      }
    },
    {
      "id": "REMIT_77T",
      "description": "REMIT: 77T is mandatory and must contain structured remittance information",
      "condition": {
        "and": [
          {"!=": [{"var": "field_77t"}, null]},
          {"!=": [{"var": "field_77t.envelope_contents"}, ""]}
        ]
      }
    }
  ],
  "constants": {
    "EU_EEA_COUNTRIES": ["AT", "BE", "BG", "HR", "CY", "CZ", "DK", "EE", "FI", "FR", "DE", "GR", "HU", "IE", "IT", "LV", "LT", "LU", "MT", "NL", "PL", "PT", "RO", "SK", "SI", "ES", "SE", "IS", "LI", "NO"],
    "VALID_BANK_OPERATION_CODES": ["CRED", "CRTS", "SPAY", "SPRI", "SSTD"],
    "VALID_CHARGE_CODES": ["OUR", "SHA", "BEN"],
    "VALID_INSTRUCTION_CODES": ["CORT", "INTC", "REPA", "SDVA", "CHQB", "PHOB", "PHOI", "PHON", "TELE", "TELI", "TELB"]
  }
}"#;

/// MT103 REMIT: Customer Credit Transfer (Enhanced Remittance Information)
#[derive(Debug, Clone, PartialEq)]
pub struct MT103REMIT {
    pub field_20: RawField,
    pub field_23b: RawField,
    pub field_32a: RawField,
    pub field_50: RawField,
    pub field_59: RawField,
    pub field_71a: RawField,
    pub field_77t: RawField,
    pub field_13c: Option<RawField>,
    pub field_23e: Option<RawField>,
    pub field_26t: Option<RawField>,
    pub field_33b: Option<RawField>,
    pub field_36: Option<RawField>,
    pub field_51a: Option<RawField>,
    pub field_52a: Option<RawField>,
    pub field_52d: Option<RawField>,
    pub field_53a: Option<RawField>,
    pub field_53b: Option<RawField>,
    pub field_53d: Option<RawField>,
    pub field_54a: Option<RawField>,
    pub field_54b: Option<RawField>,
    pub field_54d: Option<RawField>,
    pub field_55a: Option<RawField>,
    pub field_55b: Option<RawField>,
    pub field_55d: Option<RawField>,
    pub field_56a: Option<RawField>,
    pub field_56c: Option<RawField>,
    pub field_56d: Option<RawField>,
    pub field_57a: Option<RawField>,
    pub field_57b: Option<RawField>,
    pub field_57c: Option<RawField>,
    pub field_57d: Option<RawField>,
    pub field_71f: Option<RawField>,
    pub field_71g: Option<RawField>,
    pub field_72: Option<RawField>,
    pub field_77b: Option<RawField>,
}

impl MT103REMIT {
    /// The layout of the message body.
    pub open spec fn body_layout() -> LayoutView {
        LayoutView {
            header: seq![
                RuleView::Mandatory("20"@),
                RuleView::Mandatory("23B"@),
                RuleView::Mandatory("32A"@),
                RuleView::MandatoryOption("50"@, seq!["A"@, "F"@, "K"@]),
                RuleView::MandatoryOption("59"@, seq![""@, "A"@, "F"@]),
                RuleView::Mandatory("71A"@),
                RuleView::Mandatory("77T"@),
                RuleView::Optional("13C"@),
                RuleView::Optional("23E"@),
                RuleView::Optional("26T"@),
                RuleView::Optional("33B"@),
                RuleView::Optional("36"@),
                RuleView::Optional("51A"@),
                RuleView::Optional("52A"@),
                RuleView::Optional("52D"@),
                RuleView::Optional("53A"@),
                RuleView::Optional("53B"@),
                RuleView::Optional("53D"@),
                RuleView::Optional("54A"@),
                RuleView::Optional("54B"@),
                RuleView::Optional("54D"@),
                RuleView::Optional("55A"@),
                RuleView::Optional("55B"@),
                RuleView::Optional("55D"@),
                RuleView::Optional("56A"@),
                RuleView::Optional("56C"@),
                RuleView::Optional("56D"@),
                RuleView::Optional("57A"@),
                RuleView::Optional("57B"@),
                RuleView::Optional("57C"@),
                RuleView::Optional("57D"@),
                RuleView::Optional("71F"@),
                RuleView::Optional("71G"@),
                RuleView::Optional("72"@),
                RuleView::Optional("77B"@),
            ],
            item_start: ""@,
            items: Seq::empty(),
            trailer: Seq::empty(),
            complete: false,
        }
    }

    /// The fields of the message as its layout took them.
    pub open spec fn slots(&self) -> ParsedView {
        (
            seq![
                seq![self.field_20@],
                seq![self.field_23b@],
                seq![self.field_32a@],
                seq![self.field_50@],
                seq![self.field_59@],
                seq![self.field_71a@],
                seq![self.field_77t@],
                opt_slot(self.field_13c),
                opt_slot(self.field_23e),
                opt_slot(self.field_26t),
                opt_slot(self.field_33b),
                opt_slot(self.field_36),
                opt_slot(self.field_51a),
                opt_slot(self.field_52a),
                opt_slot(self.field_52d),
                opt_slot(self.field_53a),
                opt_slot(self.field_53b),
                opt_slot(self.field_53d),
                opt_slot(self.field_54a),
                opt_slot(self.field_54b),
                opt_slot(self.field_54d),
                opt_slot(self.field_55a),
                opt_slot(self.field_55b),
                opt_slot(self.field_55d),
                opt_slot(self.field_56a),
                opt_slot(self.field_56c),
                opt_slot(self.field_56d),
                opt_slot(self.field_57a),
                opt_slot(self.field_57b),
                opt_slot(self.field_57c),
                opt_slot(self.field_57d),
                opt_slot(self.field_71f),
                opt_slot(self.field_71g),
                opt_slot(self.field_72),
                opt_slot(self.field_77b),
            ],
            Seq::empty(),
            Seq::empty(),
        )
    }

    /// The fields of the message in writing order.
    pub open spec fn fields_in_order(&self) -> Seq<FieldView> {
        seq![self.field_20@]
            + seq![self.field_23b@]
            + seq![self.field_32a@]
            + seq![self.field_50@]
            + seq![self.field_59@]
            + seq![self.field_71a@]
            + seq![self.field_77t@]
            + opt_slot(self.field_13c)
            + opt_slot(self.field_23e)
            + opt_slot(self.field_26t)
            + opt_slot(self.field_33b)
            + opt_slot(self.field_36)
            + opt_slot(self.field_51a)
            + opt_slot(self.field_52a)
            + opt_slot(self.field_52d)
            + opt_slot(self.field_53a)
            + opt_slot(self.field_53b)
            + opt_slot(self.field_53d)
            + opt_slot(self.field_54a)
            + opt_slot(self.field_54b)
            + opt_slot(self.field_54d)
            + opt_slot(self.field_55a)
            + opt_slot(self.field_55b)
            + opt_slot(self.field_55d)
            + opt_slot(self.field_56a)
            + opt_slot(self.field_56c)
            + opt_slot(self.field_56d)
            + opt_slot(self.field_57a)
            + opt_slot(self.field_57b)
            + opt_slot(self.field_57c)
            + opt_slot(self.field_57d)
            + opt_slot(self.field_71f)
            + opt_slot(self.field_71g)
            + opt_slot(self.field_72)
            + opt_slot(self.field_77b)
    }

    /// The layout of the message body.
    #[verifier::spinoff_prover]
    fn layout_rules() -> (l: MessageLayout)
        ensures
            l@ == Self::body_layout(),
    {
        let l = MessageLayout {
            header: vec![
                FieldRule::Mandatory("20"),
                FieldRule::Mandatory("23B"),
                FieldRule::Mandatory("32A"),
                FieldRule::MandatoryOption("50", vec!["A", "F", "K"]),
                FieldRule::MandatoryOption("59", vec!["", "A", "F"]),
                FieldRule::Mandatory("71A"),
                FieldRule::Mandatory("77T"),
                FieldRule::Optional("13C"),
                FieldRule::Optional("23E"),
                FieldRule::Optional("26T"),
                FieldRule::Optional("33B"),
                FieldRule::Optional("36"),
                FieldRule::Optional("51A"),
                FieldRule::Optional("52A"),
                FieldRule::Optional("52D"),
                FieldRule::Optional("53A"),
                FieldRule::Optional("53B"),
                FieldRule::Optional("53D"),
                FieldRule::Optional("54A"),
                FieldRule::Optional("54B"),
                FieldRule::Optional("54D"),
                FieldRule::Optional("55A"),
                FieldRule::Optional("55B"),
                FieldRule::Optional("55D"),
                FieldRule::Optional("56A"),
                FieldRule::Optional("56C"),
                FieldRule::Optional("56D"),
                FieldRule::Optional("57A"),
                FieldRule::Optional("57B"),
                FieldRule::Optional("57C"),
                FieldRule::Optional("57D"),
                FieldRule::Optional("71F"),
                FieldRule::Optional("71G"),
                FieldRule::Optional("72"),
                FieldRule::Optional("77B"),
            ],
            item_start: "",
            items: Vec::new(),
            trailer: Vec::new(),
            complete: false,
        };
        assert(l@.header =~~= Self::body_layout().header);
        assert(l@.trailer =~~= Self::body_layout().trailer);
        assert(l@.items =~~= Self::body_layout().items);
        l
    }

    /// The message built from the fields its layout took.
    #[verifier::spinoff_prover]
    #[verifier::rlimit(80)]
    fn from_parsed(p: Parsed) -> (m: MT103REMIT)
        requires
            layout_fits(Self::body_layout(), p@),
            p@.1.len() == 0,
        ensures
            m.slots() == p@,
    {
        let ghost pv = p@;
        let ghost all = pv.0;
        let ghost tail = pv.2;
        let Parsed { header, items, trailer } = p;
        let mut slots = header;
        assert(slot_views(slots@) =~= all.take(slots.len() as int));
        assert(slot_fits(Self::body_layout().header[0], all[0]));
        assert(slot_fits(Self::body_layout().header[1], all[1]));
        assert(slot_fits(Self::body_layout().header[2], all[2]));
        assert(slot_fits(Self::body_layout().header[3], all[3]));
        assert(slot_fits(Self::body_layout().header[4], all[4]));
        assert(slot_fits(Self::body_layout().header[5], all[5]));
        assert(slot_fits(Self::body_layout().header[6], all[6]));
        assert(slot_fits(Self::body_layout().header[7], all[7]));
        assert(slot_fits(Self::body_layout().header[8], all[8]));
        assert(slot_fits(Self::body_layout().header[9], all[9]));
        assert(slot_fits(Self::body_layout().header[10], all[10]));
        assert(slot_fits(Self::body_layout().header[11], all[11]));
        assert(slot_fits(Self::body_layout().header[12], all[12]));
        assert(slot_fits(Self::body_layout().header[13], all[13]));
        assert(slot_fits(Self::body_layout().header[14], all[14]));
        assert(slot_fits(Self::body_layout().header[15], all[15]));
        assert(slot_fits(Self::body_layout().header[16], all[16]));
        assert(slot_fits(Self::body_layout().header[17], all[17]));
        assert(slot_fits(Self::body_layout().header[18], all[18]));
        assert(slot_fits(Self::body_layout().header[19], all[19]));
        assert(slot_fits(Self::body_layout().header[20], all[20]));
        assert(slot_fits(Self::body_layout().header[21], all[21]));
        assert(slot_fits(Self::body_layout().header[22], all[22]));
        assert(slot_fits(Self::body_layout().header[23], all[23]));
        assert(slot_fits(Self::body_layout().header[24], all[24]));
        assert(slot_fits(Self::body_layout().header[25], all[25]));
        assert(slot_fits(Self::body_layout().header[26], all[26]));
        assert(slot_fits(Self::body_layout().header[27], all[27]));
        assert(slot_fits(Self::body_layout().header[28], all[28]));
        assert(slot_fits(Self::body_layout().header[29], all[29]));
        assert(slot_fits(Self::body_layout().header[30], all[30]));
        assert(slot_fits(Self::body_layout().header[31], all[31]));
        assert(slot_fits(Self::body_layout().header[32], all[32]));
        assert(slot_fits(Self::body_layout().header[33], all[33]));
        assert(slot_fits(Self::body_layout().header[34], all[34]));
        let field_77b = take_opt(&mut slots, Ghost(all));
        let field_72 = take_opt(&mut slots, Ghost(all));
        let field_71g = take_opt(&mut slots, Ghost(all));
        let field_71f = take_opt(&mut slots, Ghost(all));
        let field_57d = take_opt(&mut slots, Ghost(all));
        let field_57c = take_opt(&mut slots, Ghost(all));
        let field_57b = take_opt(&mut slots, Ghost(all));
        let field_57a = take_opt(&mut slots, Ghost(all));
        let field_56d = take_opt(&mut slots, Ghost(all));
        let field_56c = take_opt(&mut slots, Ghost(all));
        let field_56a = take_opt(&mut slots, Ghost(all));
        let field_55d = take_opt(&mut slots, Ghost(all));
        let field_55b = take_opt(&mut slots, Ghost(all));
        let field_55a = take_opt(&mut slots, Ghost(all));
        let field_54d = take_opt(&mut slots, Ghost(all));
        let field_54b = take_opt(&mut slots, Ghost(all));
        let field_54a = take_opt(&mut slots, Ghost(all));
        let field_53d = take_opt(&mut slots, Ghost(all));
        let field_53b = take_opt(&mut slots, Ghost(all));
        let field_53a = take_opt(&mut slots, Ghost(all));
        let field_52d = take_opt(&mut slots, Ghost(all));
        let field_52a = take_opt(&mut slots, Ghost(all));
        let field_51a = take_opt(&mut slots, Ghost(all));
        let field_36 = take_opt(&mut slots, Ghost(all));
        let field_33b = take_opt(&mut slots, Ghost(all));
        let field_26t = take_opt(&mut slots, Ghost(all));
        let field_23e = take_opt(&mut slots, Ghost(all));
        let field_13c = take_opt(&mut slots, Ghost(all));
        let field_77t = take_one(&mut slots, Ghost(all));
        let field_71a = take_one(&mut slots, Ghost(all));
        let field_59 = take_one(&mut slots, Ghost(all));
        let field_50 = take_one(&mut slots, Ghost(all));
        let field_32a = take_one(&mut slots, Ghost(all));
        let field_23b = take_one(&mut slots, Ghost(all));
        let field_20 = take_one(&mut slots, Ghost(all));
        let mut tslots = trailer;
        assert(slot_views(tslots@) =~= tail.take(tslots.len() as int));
        let m = MT103REMIT { field_20, field_23b, field_32a, field_50, field_59, field_71a, field_77t, field_13c, field_23e, field_26t, field_33b, field_36, field_51a, field_52a, field_52d, field_53a, field_53b, field_53d, field_54a, field_54b, field_54d, field_55a, field_55b, field_55d, field_56a, field_56c, field_56d, field_57a, field_57b, field_57c, field_57d, field_71f, field_71g, field_72, field_77b };
        assert(m.slots().0 =~= pv.0);
        assert(m.slots().1 =~= pv.1);
        assert(m.slots().2 =~= pv.2);
        m
    }

    /// What parsing `block4` by the layout gives: the message with the
    /// fields each rule took, or the error that stands for the failure.
    pub open spec fn taken(block4: Seq<char>, r: Result<MT103REMIT, ParseError>) -> bool {
        match layout_outcome(block4, Self::body_layout()) {
            Ok(p) => r matches Ok(m) && m.slots() == p,
            Err(e) => r matches Err(pe) && error_is(pe, e),
        }
    }

    /// Parse message from Block 4 content
    pub fn parse_from_block4(block4: &str) -> (r: Result<MT103REMIT, ParseError>)
        ensures
            Self::taken(block4@, r),
    {
        let layout = Self::layout_rules();
        match parse_layout(block4, "103", &layout) {
            Ok(p) => Ok(Self::from_parsed(p)),
            Err(e) => Err(e),
        }
    }

    /// The fields of the message as (tag, content) pairs, in writing order.
    pub fn to_ordered_fields(&self) -> (r: Vec<(String, String)>)
        ensures
            pair_views(r@) == self.fields_in_order(),
    {
        let mut v: Vec<(String, String)> = Vec::new();
        push_field(&mut v, &self.field_20);
        assert(pair_views(v@) =~= seq![self.field_20@]);
        push_field(&mut v, &self.field_23b);
        push_field(&mut v, &self.field_32a);
        push_field(&mut v, &self.field_50);
        push_field(&mut v, &self.field_59);
        push_field(&mut v, &self.field_71a);
        push_field(&mut v, &self.field_77t);
        push_optional(&mut v, &self.field_13c);
        push_optional(&mut v, &self.field_23e);
        push_optional(&mut v, &self.field_26t);
        push_optional(&mut v, &self.field_33b);
        push_optional(&mut v, &self.field_36);
        push_optional(&mut v, &self.field_51a);
        push_optional(&mut v, &self.field_52a);
        push_optional(&mut v, &self.field_52d);
        push_optional(&mut v, &self.field_53a);
        push_optional(&mut v, &self.field_53b);
        push_optional(&mut v, &self.field_53d);
        push_optional(&mut v, &self.field_54a);
        push_optional(&mut v, &self.field_54b);
        push_optional(&mut v, &self.field_54d);
        push_optional(&mut v, &self.field_55a);
        push_optional(&mut v, &self.field_55b);
        push_optional(&mut v, &self.field_55d);
        push_optional(&mut v, &self.field_56a);
        push_optional(&mut v, &self.field_56c);
        push_optional(&mut v, &self.field_56d);
        push_optional(&mut v, &self.field_57a);
        push_optional(&mut v, &self.field_57b);
        push_optional(&mut v, &self.field_57c);
        push_optional(&mut v, &self.field_57d);
        push_optional(&mut v, &self.field_71f);
        push_optional(&mut v, &self.field_71g);
        push_optional(&mut v, &self.field_72);
        push_optional(&mut v, &self.field_77b);
        v
    }

    /// Convert to SWIFT MT text format
    pub fn to_mt_string(&self) -> (r: String)
        ensures
            r@ == mt_text(self.fields_in_order()),
    {
        render_mt(&self.to_ordered_fields())
    }

    /// Validation rules for the message
    pub fn validate() -> (r: &'static str)
        ensures
            r@ == MT103_REMIT_VALIDATION_RULES@,
    {
        MT103_REMIT_VALIDATION_RULES
    }
}

impl SwiftMessageBody for MT103REMIT {
    open spec fn type_code() -> Seq<char> {
        "103"@
    }

    open spec fn layout() -> LayoutView {
        Self::body_layout()
    }

    open spec fn parsed(&self) -> ParsedView {
        self.slots()
    }

    open spec fn ordered(&self) -> Seq<FieldView> {
        self.fields_in_order()
    }

    open spec fn parse_spec(block4: Seq<char>, r: Result<Self, ParseError>) -> bool {
        Self::taken(block4, r)
    }

    open spec fn required_tags() -> Seq<Seq<char>> {
        seq![
            "20"@,
            "23B"@,
            "32A"@,
            "50"@,
            "59"@,
            "71A"@,
            "77T"@,
        ]
    }

    open spec fn optional_tags() -> Seq<Seq<char>> {
        seq![
            "13C"@,
            "23E"@,
            "26T"@,
            "33B"@,
            "36"@,
            "51A"@,
            "52A"@,
            "52D"@,
            "53A"@,
            "53B"@,
            "53D"@,
            "54A"@,
            "54B"@,
            "54D"@,
            "55A"@,
            "55B"@,
            "55D"@,
            "56A"@,
            "56C"@,
            "56D"@,
            "57A"@,
            "57B"@,
            "57C"@,
            "57D"@,
            "71F"@,
            "71G"@,
            "72"@,
            "77B"@,
        ]
    }

    open spec fn rejected(&self) -> bool {
        false
    }

    open spec fn returned(&self) -> bool {
        false
    }

    open spec fn cover(&self) -> bool {
        false
    }

    open spec fn stp(&self) -> bool {
        false
    }

    fn message_type() -> (r: &'static str) {
        "103"
    }

    fn parse_from_block4(block4: &str) -> (r: Result<Self, ParseError>) {
        MT103REMIT::parse_from_block4(block4)
    }

    fn to_ordered_fields(&self) -> (r: Vec<(String, String)>) {
        MT103REMIT::to_ordered_fields(self)
    }

    fn to_mt_string(&self) -> (r: String) {
        MT103REMIT::to_mt_string(self)
    }

    fn required_fields() -> (r: Vec<&'static str>) {
        let r = vec![
            "20",
            "23B",
            "32A",
            "50",
            "59",
            "71A",
            "77T",
        ];
        assert(str_views(r@) =~= Self::required_tags());
        r
    }

    fn optional_fields() -> (r: Vec<&'static str>) {
        let r = vec![
            "13C",
            "23E",
            "26T",
            "33B",
            "36",
            "51A",
            "52A",
            "52D",
            "53A",
            "53B",
            "53D",
            "54A",
            "54B",
            "54D",
            "55A",
            "55B",
            "55D",
            "56A",
            "56C",
            "56D",
            "57A",
            "57B",
            "57C",
            "57D",
            "71F",
            "71G",
            "72",
            "77B",
        ];
        assert(str_views(r@) =~= Self::optional_tags());
        r
    }

    fn has_reject_codes(&self) -> (b: bool) {
        false
    }

    fn has_return_codes(&self) -> (b: bool) {
        false
    }

    fn is_cover_message(&self) -> (b: bool) {
        false
    }

    fn is_stp_message(&self) -> (b: bool) {
        false
    }
}

impl MT103REMIT {
    /// The rules of the layout stand apart.
    #[verifier::rlimit(100)]
    #[verifier::spinoff_prover]
    proof fn lemma_rules_apart()
        ensures
            crate::round_trip::separate_rules(Self::body_layout().header),
    {
        reveal_strlit("13C");
        reveal_strlit("20");
        reveal_strlit("23B");
        reveal_strlit("23E");
        reveal_strlit("26T");
        reveal_strlit("32A");
        reveal_strlit("33B");
        reveal_strlit("36");
        reveal_strlit("50");
        reveal_strlit("51A");
        reveal_strlit("52A");
        reveal_strlit("52D");
        reveal_strlit("53A");
        reveal_strlit("53B");
        reveal_strlit("53D");
        reveal_strlit("54A");
        reveal_strlit("54B");
        reveal_strlit("54D");
        reveal_strlit("55A");
        reveal_strlit("55B");
        reveal_strlit("55D");
        reveal_strlit("56A");
        reveal_strlit("56C");
        reveal_strlit("56D");
        reveal_strlit("57A");
        reveal_strlit("57B");
        reveal_strlit("57C");
        reveal_strlit("57D");
        reveal_strlit("59");
        reveal_strlit("71A");
        reveal_strlit("71F");
        reveal_strlit("71G");
        reveal_strlit("72");
        reveal_strlit("77B");
        reveal_strlit("77T");
        let l = Self::body_layout().header;
        let tags = seq!["20"@, "23B"@, "32A"@, "50"@, "59"@, "71A"@, "77T"@, "13C"@, "23E"@, "26T"@, "33B"@, "36"@, "51A"@, "52A"@, "52D"@, "53A"@, "53B"@, "53D"@, "54A"@, "54B"@, "54D"@, "55A"@, "55B"@, "55D"@, "56A"@, "56C"@, "56D"@, "57A"@, "57B"@, "57C"@, "57D"@, "71F"@, "71G"@, "72"@, "77B"@];
        assert forall|i: int| 0 <= i < l.len() implies crate::round_trip::rule_tag(#[trigger] l[i]) == tags[i] by {}
        assert forall|j: int| 0 <= j < 35 && j != 0 implies crate::round_trip::apart(l[0], #[trigger] l[j]) by {
            crate::round_trip::lemma_apart(l[0], l[j]);
        }
        assert forall|j: int| 0 <= j < 35 && j != 1 implies crate::round_trip::apart(l[1], #[trigger] l[j]) by {
            crate::round_trip::lemma_apart(l[1], l[j]);
        }
        assert forall|j: int| 0 <= j < 35 && j != 2 implies crate::round_trip::apart(l[2], #[trigger] l[j]) by {
            crate::round_trip::lemma_apart(l[2], l[j]);
        }
        assert forall|j: int| 0 <= j < 35 && j != 3 implies crate::round_trip::apart(l[3], #[trigger] l[j]) by {
            crate::round_trip::lemma_apart(l[3], l[j]);
        }
        assert forall|j: int| 0 <= j < 35 && j != 4 implies crate::round_trip::apart(l[4], #[trigger] l[j]) by {
            crate::round_trip::lemma_apart(l[4], l[j]);
        }
        assert forall|j: int| 0 <= j < 35 && j != 5 implies crate::round_trip::apart(l[5], #[trigger] l[j]) by {
            crate::round_trip::lemma_apart(l[5], l[j]);
        }
        assert forall|j: int| 0 <= j < 35 && j != 6 implies crate::round_trip::apart(l[6], #[trigger] l[j]) by {
            crate::round_trip::lemma_apart(l[6], l[j]);
        }
        assert forall|j: int| 0 <= j < 35 && j != 7 implies crate::round_trip::apart(l[7], #[trigger] l[j]) by {
            crate::round_trip::lemma_apart(l[7], l[j]);
        }
        assert forall|j: int| 0 <= j < 35 && j != 8 implies crate::round_trip::apart(l[8], #[trigger] l[j]) by {
            crate::round_trip::lemma_apart(l[8], l[j]);
        }
        assert forall|j: int| 0 <= j < 35 && j != 9 implies crate::round_trip::apart(l[9], #[trigger] l[j]) by {
            crate::round_trip::lemma_apart(l[9], l[j]);
        }
        assert forall|j: int| 0 <= j < 35 && j != 10 implies crate::round_trip::apart(l[10], #[trigger] l[j]) by {
            crate::round_trip::lemma_apart(l[10], l[j]);
        }
        assert forall|j: int| 0 <= j < 35 && j != 11 implies crate::round_trip::apart(l[11], #[trigger] l[j]) by {
            crate::round_trip::lemma_apart(l[11], l[j]);
        }
        assert forall|j: int| 0 <= j < 35 && j != 12 implies crate::round_trip::apart(l[12], #[trigger] l[j]) by {
            crate::round_trip::lemma_apart(l[12], l[j]);
        }
        assert forall|j: int| 0 <= j < 35 && j != 13 implies crate::round_trip::apart(l[13], #[trigger] l[j]) by {
            crate::round_trip::lemma_apart(l[13], l[j]);
        }
        assert forall|j: int| 0 <= j < 35 && j != 14 implies crate::round_trip::apart(l[14], #[trigger] l[j]) by {
            crate::round_trip::lemma_apart(l[14], l[j]);
        }
        assert forall|j: int| 0 <= j < 35 && j != 15 implies crate::round_trip::apart(l[15], #[trigger] l[j]) by {
            crate::round_trip::lemma_apart(l[15], l[j]);
        }
        assert forall|j: int| 0 <= j < 35 && j != 16 implies crate::round_trip::apart(l[16], #[trigger] l[j]) by {
            crate::round_trip::lemma_apart(l[16], l[j]);
        }
        assert forall|j: int| 0 <= j < 35 && j != 17 implies crate::round_trip::apart(l[17], #[trigger] l[j]) by {
            crate::round_trip::lemma_apart(l[17], l[j]);
        }
        assert forall|j: int| 0 <= j < 35 && j != 18 implies crate::round_trip::apart(l[18], #[trigger] l[j]) by {
            crate::round_trip::lemma_apart(l[18], l[j]);
        }
        assert forall|j: int| 0 <= j < 35 && j != 19 implies crate::round_trip::apart(l[19], #[trigger] l[j]) by {
            crate::round_trip::lemma_apart(l[19], l[j]);
        }
        assert forall|j: int| 0 <= j < 35 && j != 20 implies crate::round_trip::apart(l[20], #[trigger] l[j]) by {
            crate::round_trip::lemma_apart(l[20], l[j]);
        }
        assert forall|j: int| 0 <= j < 35 && j != 21 implies crate::round_trip::apart(l[21], #[trigger] l[j]) by {
            crate::round_trip::lemma_apart(l[21], l[j]);
        }
        assert forall|j: int| 0 <= j < 35 && j != 22 implies crate::round_trip::apart(l[22], #[trigger] l[j]) by {
            crate::round_trip::lemma_apart(l[22], l[j]);
        }
        assert forall|j: int| 0 <= j < 35 && j != 23 implies crate::round_trip::apart(l[23], #[trigger] l[j]) by {
            crate::round_trip::lemma_apart(l[23], l[j]);
        }
        assert forall|j: int| 0 <= j < 35 && j != 24 implies crate::round_trip::apart(l[24], #[trigger] l[j]) by {
            crate::round_trip::lemma_apart(l[24], l[j]);
        }
        assert forall|j: int| 0 <= j < 35 && j != 25 implies crate::round_trip::apart(l[25], #[trigger] l[j]) by {
            crate::round_trip::lemma_apart(l[25], l[j]);
        }
        assert forall|j: int| 0 <= j < 35 && j != 26 implies crate::round_trip::apart(l[26], #[trigger] l[j]) by {
            crate::round_trip::lemma_apart(l[26], l[j]);
        }
        assert forall|j: int| 0 <= j < 35 && j != 27 implies crate::round_trip::apart(l[27], #[trigger] l[j]) by {
            crate::round_trip::lemma_apart(l[27], l[j]);
        }
        assert forall|j: int| 0 <= j < 35 && j != 28 implies crate::round_trip::apart(l[28], #[trigger] l[j]) by {
            crate::round_trip::lemma_apart(l[28], l[j]);
        }
        assert forall|j: int| 0 <= j < 35 && j != 29 implies crate::round_trip::apart(l[29], #[trigger] l[j]) by {
            crate::round_trip::lemma_apart(l[29], l[j]);
        }
        assert forall|j: int| 0 <= j < 35 && j != 30 implies crate::round_trip::apart(l[30], #[trigger] l[j]) by {
            crate::round_trip::lemma_apart(l[30], l[j]);
        }
        assert forall|j: int| 0 <= j < 35 && j != 31 implies crate::round_trip::apart(l[31], #[trigger] l[j]) by {
            crate::round_trip::lemma_apart(l[31], l[j]);
        }
        assert forall|j: int| 0 <= j < 35 && j != 32 implies crate::round_trip::apart(l[32], #[trigger] l[j]) by {
            crate::round_trip::lemma_apart(l[32], l[j]);
        }
        assert forall|j: int| 0 <= j < 35 && j != 33 implies crate::round_trip::apart(l[33], #[trigger] l[j]) by {
            crate::round_trip::lemma_apart(l[33], l[j]);
        }
        assert forall|j: int| 0 <= j < 35 && j != 34 implies crate::round_trip::apart(l[34], #[trigger] l[j]) by {
            crate::round_trip::lemma_apart(l[34], l[j]);
        }
    }

    /// Writing the message and parsing the text again gives back its
    /// fields, slot by slot, wherever each field carries a tag that its rule
    /// reads back and reads back as written.
    #[verifier::rlimit(100)]
    #[verifier::spinoff_prover]
    pub proof fn lemma_round_trip(m: MT103REMIT)
        requires
            crate::round_trip::accepted_slots(Self::body_layout().header, m.slots().0),
            crate::round_trip::writable_fields(m.fields_in_order()),
        ensures
            forall|r: Result<MT103REMIT, ParseError>|
                Self::taken(mt_text(m.fields_in_order()), r) ==> (r matches Ok(x) && x.slots() == m.slots()),
    {
        let l = Self::body_layout();
        let s = m.slots().0;
        let w: Seq<int> = seq![0int, 1int, 2int, 3int, 4int, 5int, 6int, 7int, 8int, 9int, 10int, 11int, 12int, 13int, 14int, 15int, 16int, 17int, 18int, 19int, 20int, 21int, 22int, 23int, 24int, 25int, 26int, 27int, 28int, 29int, 30int, 31int, 32int, 33int, 34int];
        let v: Seq<int> = seq![0int, 1int, 2int, 3int, 4int, 5int, 6int, 7int, 8int, 9int, 10int, 11int, 12int, 13int, 14int, 15int, 16int, 17int, 18int, 19int, 20int, 21int, 22int, 23int, 24int, 25int, 26int, 27int, 28int, 29int, 30int, 31int, 32int, 33int, 34int];
        assert(crate::round_trip::is_order(w, v, s.len() as int));
        let ws = crate::round_trip::written(s, w);
        assert(ws =~= seq![seq![m.field_20@], seq![m.field_23b@], seq![m.field_32a@], seq![m.field_50@], seq![m.field_59@], seq![m.field_71a@], seq![m.field_77t@], opt_slot(m.field_13c), opt_slot(m.field_23e), opt_slot(m.field_26t), opt_slot(m.field_33b), opt_slot(m.field_36), opt_slot(m.field_51a), opt_slot(m.field_52a), opt_slot(m.field_52d), opt_slot(m.field_53a), opt_slot(m.field_53b), opt_slot(m.field_53d), opt_slot(m.field_54a), opt_slot(m.field_54b), opt_slot(m.field_54d), opt_slot(m.field_55a), opt_slot(m.field_55b), opt_slot(m.field_55d), opt_slot(m.field_56a), opt_slot(m.field_56c), opt_slot(m.field_56d), opt_slot(m.field_57a), opt_slot(m.field_57b), opt_slot(m.field_57c), opt_slot(m.field_57d), opt_slot(m.field_71f), opt_slot(m.field_71g), opt_slot(m.field_72), opt_slot(m.field_77b)]);
        reveal_with_fuel(crate::round_trip::flat, 36);
        assert(crate::round_trip::flat(ws) =~= m.fields_in_order());
        Self::lemma_rules_apart();
        assert forall|i: int| 0 <= i < l.header.len() implies slot_fits(#[trigger] l.header[i], s[i]) by {}
        assert(slots_fit(l.header, s));
        crate::round_trip::lemma_separate_written_round_trip(l, s, w, v);
        assert(m.slots() == (s, Seq::<Seq<Seq<FieldView>>>::empty(), Seq::<Seq<FieldView>>::empty()));
    }
}

} // verus!
