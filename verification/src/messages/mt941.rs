//! MT941: Balance Report

use vstd::prelude::*;
use crate::errors::ParseError;
use crate::message_parser::{
    error_is, item_views, layout_fits, layout_outcome, many_slot, opt_slot, parse_layout,
    rule_views, slot_fits, slot_views, slots_fit, take_many, take_one, take_opt, FieldRule, FieldView,
    LayoutView, MessageLayout, Parsed, ParsedView, RawField, RuleView,
};
use crate::parsing_utils::{
    block4_of, extract_block4, mt_text, pair_views, push_field, push_optional, push_repeated,
    render_mt,
};
use crate::text::str_views;
use crate::traits::SwiftMessageBody;

verus! {

/// The validation rules of the message, as JSONLogic.
pub const VALIDATION_RULES: &'static str = r#"{"rules": [
            {"id": "C1", "description": "The first two characters of the three-character currency code in fields 60F, 90D, 90C, 62F, 64, and 65 must be the same for all occurrences of these fields"}
        ]}"#;

/// MT941: Balance Report
#[derive(Debug, Clone, PartialEq)]
pub struct MT941 {
    pub field_20: RawField,
    pub field_21: Option<RawField>,
    pub field_25: RawField,
    pub field_28: RawField,
    pub field_13d: Option<RawField>,
    pub field_60f: Option<RawField>,
    pub field_90d: Option<RawField>,
    pub field_90c: Option<RawField>,
    pub field_62f: RawField,
    pub field_64: Option<RawField>,
    pub field_65: Option<Vec<RawField>>,
    pub field_86: Option<RawField>,
}

impl MT941 {
    /// The layout of the message body.
    pub open spec fn body_layout() -> LayoutView {
        LayoutView {
            header: seq![
                RuleView::Mandatory("20"@),
                RuleView::Optional("21"@),
                RuleView::Mandatory("25"@),
                RuleView::Mandatory("28"@),
                RuleView::Optional("13D"@),
                RuleView::Optional("60F"@),
                RuleView::Optional("90D"@),
                RuleView::Optional("90C"@),
                RuleView::Mandatory("62F"@),
                RuleView::Optional("64"@),
                RuleView::Repeated("65"@),
                RuleView::Optional("86"@),
            ],
            item_start: ""@,
            items: Seq::empty(),
            trailer: Seq::empty(),
            complete: false,
        }
    }

    /// The fields of the message as its layout took them.
    pub open spec fn slots(&self) -> ParsedView {
        (
            seq![
                seq![self.field_20@],
                opt_slot(self.field_21),
                seq![self.field_25@],
                seq![self.field_28@],
                opt_slot(self.field_13d),
                opt_slot(self.field_60f),
                opt_slot(self.field_90d),
                opt_slot(self.field_90c),
                seq![self.field_62f@],
                opt_slot(self.field_64),
                many_slot(self.field_65),
                opt_slot(self.field_86),
            ],
            Seq::empty(),
            Seq::empty(),
        )
    }

    /// The fields of the message in writing order.
    pub open spec fn fields_in_order(&self) -> Seq<FieldView> {
        seq![self.field_20@]
            + opt_slot(self.field_21)
            + seq![self.field_25@]
            + seq![self.field_28@]
            + opt_slot(self.field_13d)
            + opt_slot(self.field_60f)
            + opt_slot(self.field_90d)
            + opt_slot(self.field_90c)
            + seq![self.field_62f@]
            + opt_slot(self.field_64)
            + many_slot(self.field_65)
            + opt_slot(self.field_86)
    }

    /// The layout of the message body.
    #[verifier::spinoff_prover]
    fn layout_rules() -> (l: MessageLayout)
        ensures
            l@ == Self::body_layout(),
    {
        let l = MessageLayout {
            header: vec![
                FieldRule::Mandatory("20"),
                FieldRule::Optional("21"),
                FieldRule::Mandatory("25"),
                FieldRule::Mandatory("28"),
                FieldRule::Optional("13D"),
                FieldRule::Optional("60F"),
                FieldRule::Optional("90D"),
                FieldRule::Optional("90C"),
                FieldRule::Mandatory("62F"),
                FieldRule::Optional("64"),
                FieldRule::Repeated("65"),
                FieldRule::Optional("86"),
            ],
            item_start: "",
            items: Vec::new(),
            trailer: Vec::new(),
            complete: false,
        };
        assert(l@.header =~~= Self::body_layout().header);
        assert(l@.trailer =~~= Self::body_layout().trailer);
        assert(l@.items =~~= Self::body_layout().items);
        l
    }

    /// The message built from the fields its layout took.
    #[verifier::spinoff_prover]
    #[verifier::rlimit(80)]
    fn from_parsed(p: Parsed) -> (m: MT941)
        requires
            layout_fits(Self::body_layout(), p@),
            p@.1.len() == 0,
        ensures
            m.slots() == p@,
    {
        let ghost pv = p@;
        let ghost all = pv.0;
        let ghost tail = pv.2;
        let Parsed { header, items, trailer } = p;
        let mut slots = header;
        assert(slot_views(slots@) =~= all.take(slots.len() as int));
        assert(slot_fits(Self::body_layout().header[0], all[0]));
        assert(slot_fits(Self::body_layout().header[1], all[1]));
        assert(slot_fits(Self::body_layout().header[2], all[2]));
        assert(slot_fits(Self::body_layout().header[3], all[3]));
        assert(slot_fits(Self::body_layout().header[4], all[4]));
        assert(slot_fits(Self::body_layout().header[5], all[5]));
        assert(slot_fits(Self::body_layout().header[6], all[6]));
        assert(slot_fits(Self::body_layout().header[7], all[7]));
        assert(slot_fits(Self::body_layout().header[8], all[8]));
        assert(slot_fits(Self::body_layout().header[9], all[9]));
        assert(slot_fits(Self::body_layout().header[10], all[10]));
        assert(slot_fits(Self::body_layout().header[11], all[11]));
        let field_86 = take_opt(&mut slots, Ghost(all));
        let field_65 = take_many(&mut slots, Ghost(all));
        let field_64 = take_opt(&mut slots, Ghost(all));
        let field_62f = take_one(&mut slots, Ghost(all));
        let field_90c = take_opt(&mut slots, Ghost(all));
        let field_90d = take_opt(&mut slots, Ghost(all));
        let field_60f = take_opt(&mut slots, Ghost(all));
        let field_13d = take_opt(&mut slots, Ghost(all));
        let field_28 = take_one(&mut slots, Ghost(all));
        let field_25 = take_one(&mut slots, Ghost(all));
        let field_21 = take_opt(&mut slots, Ghost(all));
        let field_20 = take_one(&mut slots, Ghost(all));
        let mut tslots = trailer;
        assert(slot_views(tslots@) =~= tail.take(tslots.len() as int));
        let m = MT941 { field_20, field_21, field_25, field_28, field_13d, field_60f, field_90d, field_90c, field_62f, field_64, field_65, field_86 };
        assert(m.slots().0 =~= pv.0);
        assert(m.slots().1 =~= pv.1);
        assert(m.slots().2 =~= pv.2);
        m
    }

    /// What parsing `block4` by the layout gives: the message with the
    /// fields each rule took, or the error that stands for the failure.
    pub open spec fn taken(block4: Seq<char>, r: Result<MT941, ParseError>) -> bool {
        match layout_outcome(block4, Self::body_layout()) {
            Ok(p) => r matches Ok(m) && m.slots() == p,
            Err(e) => r matches Err(pe) && error_is(pe, e),
        }
    }

    /// Parse message from Block 4 content
    pub fn parse_from_block4(block4: &str) -> (r: Result<MT941, ParseError>)
        ensures
            Self::taken(block4@, r),
    {
        let layout = Self::layout_rules();
        match parse_layout(block4, "941", &layout) {
            Ok(p) => Ok(Self::from_parsed(p)),
            Err(e) => Err(e),
        }
    }

    /// The fields of the message as (tag, content) pairs, in writing order.
    pub fn to_ordered_fields(&self) -> (r: Vec<(String, String)>)
        ensures
            pair_views(r@) == self.fields_in_order(),
    {
        let mut v: Vec<(String, String)> = Vec::new();
        push_field(&mut v, &self.field_20);
        assert(pair_views(v@) =~= seq![self.field_20@]);
        push_optional(&mut v, &self.field_21);
        push_field(&mut v, &self.field_25);
        push_field(&mut v, &self.field_28);
        push_optional(&mut v, &self.field_13d);
        push_optional(&mut v, &self.field_60f);
        push_optional(&mut v, &self.field_90d);
        push_optional(&mut v, &self.field_90c);
        push_field(&mut v, &self.field_62f);
        push_optional(&mut v, &self.field_64);
        push_repeated(&mut v, &self.field_65);
        push_optional(&mut v, &self.field_86);
        v
    }

    /// Convert to SWIFT MT text format
    pub fn to_mt_string(&self) -> (r: String)
        ensures
            r@ == mt_text(self.fields_in_order()),
    {
        render_mt(&self.to_ordered_fields())
    }

    /// Validation rules for the message
    pub fn validate() -> (r: &'static str)
        ensures
            r@ == VALIDATION_RULES@,
    {
        VALIDATION_RULES
    }
}

impl SwiftMessageBody for MT941 {
    open spec fn type_code() -> Seq<char> {
        "941"@
    }

    open spec fn layout() -> LayoutView {
        Self::body_layout()
    }

    open spec fn parsed(&self) -> ParsedView {
        self.slots()
    }

    open spec fn ordered(&self) -> Seq<FieldView> {
        self.fields_in_order()
    }

    open spec fn parse_spec(block4: Seq<char>, r: Result<Self, ParseError>) -> bool {
        Self::taken(block4, r)
    }

    open spec fn required_tags() -> Seq<Seq<char>> {
        seq![
            "20"@,
            "25"@,
            "28"@,
            "62F"@,
        ]
    }

    open spec fn optional_tags() -> Seq<Seq<char>> {
        seq![
            "21"@,
            "13D"@,
            "60F"@,
            "90D"@,
            "90C"@,
            "64"@,
            "65"@,
            "86"@,
        ]
    }

    open spec fn rejected(&self) -> bool {
        false
    }

    open spec fn returned(&self) -> bool {
        false
    }

    open spec fn cover(&self) -> bool {
        false
    }

    open spec fn stp(&self) -> bool {
        false
    }

    fn message_type() -> (r: &'static str) {
        "941"
    }

    fn parse_from_block4(block4: &str) -> (r: Result<Self, ParseError>) {
        MT941::parse_from_block4(block4)
    }

    fn to_ordered_fields(&self) -> (r: Vec<(String, String)>) {
        MT941::to_ordered_fields(self)
    }

    fn to_mt_string(&self) -> (r: String) {
        MT941::to_mt_string(self)
    }

    fn required_fields() -> (r: Vec<&'static str>) {
        let r = vec![
            "20",
            "25",
            "28",
            "62F",
        ];
        assert(str_views(r@) =~= Self::required_tags());
        r
    }

    fn optional_fields() -> (r: Vec<&'static str>) {
        let r = vec![
            "21",
            "13D",
            "60F",
            "90D",
            "90C",
            "64",
            "65",
            "86",
        ];
        assert(str_views(r@) =~= Self::optional_tags());
        r
    }

    fn has_reject_codes(&self) -> (b: bool) {
        false
    }

    fn has_return_codes(&self) -> (b: bool) {
        false
    }

    fn is_cover_message(&self) -> (b: bool) {
        false
    }

    fn is_stp_message(&self) -> (b: bool) {
        false
    }
}

/// The currency prefix of an optional field, by where its currency stands.
pub open spec fn opt_prefix(f: Option<RawField>, sum: bool) -> Option<Seq<char>> {
    match f {
        Some(x) => Some(
            crate::messages::amounts::prefix2(
                if sum {
                    crate::messages::amounts::sum_currency(x.value@)
                } else {
                    crate::messages::amounts::balance_currency(x.value@)
                },
            ),
        ),
        None => None,
    }
}

/// The currency prefix of an optional field.
fn opt_prefix_exec(f: &Option<RawField>, sum: bool) -> (r: Option<Vec<char>>)
    ensures
        match opt_prefix(*f, sum) {
            Some(p) => r matches Some(x) && x@ == p,
            None => r is None,
        },
{
    match f {
        Some(x) => {
            let c = if sum {
                crate::messages::amounts::sum_currency_exec(&x.value)
            } else {
                crate::messages::amounts::balance_currency_exec(&x.value)
            };
            Some(crate::messages::amounts::prefix2_exec(&c))
        },
        None => None,
    }
}

/// `a` then `b` then `c` then `d` then `e`, as one text.
fn cat5(a: &str, b: &Vec<char>, c: &str, d: &Vec<char>, e: &str) -> (r: String)
    ensures
        r@ == a@ + b@ + c@ + d@ + e@,
{
    let mut m = crate::text::to_chars(a);
    crate::text::append_chars(&mut m, b);
    crate::text::append_chars(&mut m, &crate::text::to_chars(c));
    crate::text::append_chars(&mut m, d);
    crate::text::append_chars(&mut m, &crate::text::to_chars(e));
    crate::text::from_chars(&m)
}

/// The message of a currency mismatch: `head` names the field.
pub open spec fn mismatch_941(head: Seq<char>, p: Seq<char>, base: Seq<char>) -> Seq<char> {
    head + p + "' does not match field 62F currency '"@ + base + "'"@
}

/// The first field 65 whose currency prefix is not `base`.
pub open spec fn first_65_mismatch(v: Seq<RawField>, base: Seq<char>, i: int) -> Option<int>
    decreases v.len() - i,
{
    if i < 0 || i >= v.len() {
        None
    } else if crate::messages::amounts::prefix2(crate::messages::amounts::balance_currency(v[i].value@)) != base {
        Some(i)
    } else {
        first_65_mismatch(v, base, i + 1)
    }
}

impl MT941 {
    /// The instance rules: the currencies of 60F, 90D, 90C, 64 and 65 start
    /// with the same two characters as that of 62F.
    pub open spec fn instance_check(&self) -> Result<(), Seq<char>> {
        let base = crate::messages::amounts::prefix2(
            crate::messages::amounts::balance_currency(self.field_62f.value@),
        );
        if opt_prefix(self.field_60f, false) matches Some(p) && p != base {
            Err(mismatch_941("MT941: Currency code mismatch - field 60F currency '"@, opt_prefix(self.field_60f, false)->0, base))
        } else if opt_prefix(self.field_90d, true) matches Some(p) && p != base {
            Err(mismatch_941("MT941: Currency code mismatch - field 90D currency '"@, opt_prefix(self.field_90d, true)->0, base))
        } else if opt_prefix(self.field_90c, true) matches Some(p) && p != base {
            Err(mismatch_941("MT941: Currency code mismatch - field 90C currency '"@, opt_prefix(self.field_90c, true)->0, base))
        } else if opt_prefix(self.field_64, false) matches Some(p) && p != base {
            Err(mismatch_941("MT941: Currency code mismatch - field 64 currency '"@, opt_prefix(self.field_64, false)->0, base))
        } else {
            match self.field_65 {
                Some(v) => match first_65_mismatch(v@, base, 0) {
                    Some(i) => Err(mismatch_941(
                        "MT941: Currency code mismatch - field "@ + "65["@ + crate::numeric::decimal(
                            i as nat,
                        ) + "]"@ + " currency '"@,
                        crate::messages::amounts::prefix2(
                            crate::messages::amounts::balance_currency(v@[i].value@),
                        ),
                        base,
                    )),
                    None => Ok(()),
                },
                None => Ok(()),
            }
        }
    }

    /// Validate the message instance according to MT941 rules
    pub fn validate_instance(&self) -> (r: Result<(), ParseError>)
        ensures
            match self.instance_check() {
                Ok(()) => r is Ok,
                Err(msg) => r matches Err(ParseError::InvalidFormat { message }) && message@ == msg,
            },
    {
        let base = crate::messages::amounts::prefix2_exec(
            &crate::messages::amounts::balance_currency_exec(&self.field_62f.value),
        );
        if let Some(p) = opt_prefix_exec(&self.field_60f, false) {
            if !crate::text::chars_eq(&p, &base) {
                let m = cat5("MT941: Currency code mismatch - field 60F currency '", &p, "' does not match field 62F currency '", &base, "'");
                proof { assert(m@ =~= mismatch_941("MT941: Currency code mismatch - field 60F currency '"@, p@, base@)); }
                return Err(ParseError::InvalidFormat { message: m });
            }
        }
        if let Some(p) = opt_prefix_exec(&self.field_90d, true) {
            if !crate::text::chars_eq(&p, &base) {
                let m = cat5("MT941: Currency code mismatch - field 90D currency '", &p, "' does not match field 62F currency '", &base, "'");
                proof { assert(m@ =~= mismatch_941("MT941: Currency code mismatch - field 90D currency '"@, p@, base@)); }
                return Err(ParseError::InvalidFormat { message: m });
            }
        }
        if let Some(p) = opt_prefix_exec(&self.field_90c, true) {
            if !crate::text::chars_eq(&p, &base) {
                let m = cat5("MT941: Currency code mismatch - field 90C currency '", &p, "' does not match field 62F currency '", &base, "'");
                proof { assert(m@ =~= mismatch_941("MT941: Currency code mismatch - field 90C currency '"@, p@, base@)); }
                return Err(ParseError::InvalidFormat { message: m });
            }
        }
        if let Some(p) = opt_prefix_exec(&self.field_64, false) {
            if !crate::text::chars_eq(&p, &base) {
                let m = cat5("MT941: Currency code mismatch - field 64 currency '", &p, "' does not match field 62F currency '", &base, "'");
                proof { assert(m@ =~= mismatch_941("MT941: Currency code mismatch - field 64 currency '"@, p@, base@)); }
                return Err(ParseError::InvalidFormat { message: m });
            }
        }
        if let Some(v) = &self.field_65 {
            let mut i: usize = 0;
            while i < v.len()
                invariant
                    i <= v.len(),
                    first_65_mismatch(v@, base@, 0) == first_65_mismatch(v@, base@, i as int),
                    self.field_65 == Some(*v),
                    base@ == crate::messages::amounts::prefix2(
                        crate::messages::amounts::balance_currency(self.field_62f.value@),
                    ),
                    !(opt_prefix(self.field_60f, false) matches Some(p) && p != base@),
                    !(opt_prefix(self.field_90d, true) matches Some(p) && p != base@),
                    !(opt_prefix(self.field_90c, true) matches Some(p) && p != base@),
                    !(opt_prefix(self.field_64, false) matches Some(p) && p != base@),
                decreases v.len() - i,
            {
                let p = crate::messages::amounts::prefix2_exec(
                    &crate::messages::amounts::balance_currency_exec(&v[i].value),
                );
                if !crate::text::chars_eq(&p, &base) {
                    let mut label = crate::text::to_chars("65[");
                    crate::text::append_chars(&mut label, &crate::numeric::usize_to_decimal(i));
                    crate::text::append_chars(&mut label, &crate::text::to_chars("]"));
                    let mut m = crate::text::to_chars("MT941: Currency code mismatch - field ");
                    crate::text::append_chars(&mut m, &label);
                    let tail = cat5(" currency '", &p, "' does not match field 62F currency '", &base, "'");
                    crate::text::append_chars(&mut m, &crate::text::string_chars(&tail));
                    proof {
                        assert(first_65_mismatch(v@, base@, i as int) == Some(i as int));
                        assert(m@ =~= mismatch_941(
                            "MT941: Currency code mismatch - field "@ + label@ + " currency '"@,
                            p@,
                            base@,
                        ));
                    }
                    return Err(ParseError::InvalidFormat { message: crate::text::from_chars(&m) });
                }
                i = i + 1;
            }
        }
        Ok(())
    }
}

impl MT941 {
    /// Writing the message and parsing the text again gives back its
    /// fields, slot by slot, wherever each field carries a tag that its rule
    /// reads back and reads back as written.
    pub proof fn lemma_round_trip(m: MT941)
        requires
            crate::round_trip::accepted_slots(Self::body_layout().header, m.slots().0),
            crate::round_trip::writable_fields(m.fields_in_order()),
            m.fields_in_order().len() <= usize::MAX,
        ensures
            forall|r: Result<MT941, ParseError>|
                Self::taken(mt_text(m.fields_in_order()), r) ==> (r matches Ok(x) && x.slots() == m.slots()),
    {
        reveal_strlit("13D");
        reveal_strlit("20");
        reveal_strlit("21");
        reveal_strlit("25");
        reveal_strlit("28");
        reveal_strlit("60F");
        reveal_strlit("62F");
        reveal_strlit("64");
        reveal_strlit("65");
        reveal_strlit("86");
        reveal_strlit("90C");
        reveal_strlit("90D");
        let l = Self::body_layout();
        let s = m.slots().0;
        reveal_with_fuel(crate::round_trip::flat, 13);
        assert(crate::round_trip::flat(s) =~= m.fields_in_order());
        let tags = seq!["20"@, "21"@, "25"@, "28"@, "13D"@, "60F"@, "90D"@, "90C"@, "62F"@, "64"@, "65"@, "86"@];
        assert forall|i: int| 0 <= i < l.header.len() implies crate::round_trip::rule_tag(#[trigger] l.header[i]) == tags[i] by {}
        assert forall|i: int, j: int| 0 <= i < l.header.len() && 0 <= j < l.header.len() && i != j implies crate::round_trip::apart(#[trigger] l.header[i], #[trigger] l.header[j]) by {
            crate::round_trip::lemma_apart(l.header[i], l.header[j]);
        }
        assert(crate::round_trip::separate_rules(l.header));
        assert forall|i: int| 0 <= i < l.header.len() implies slot_fits(#[trigger] l.header[i], s[i]) by {}
        assert(slots_fit(l.header, s));
        crate::round_trip::lemma_separate_layout_round_trip(l, s);
        assert(m.slots() == (s, Seq::<Seq<Seq<FieldView>>>::empty(), Seq::<Seq<FieldView>>::empty()));
    }
}

/// The two currency letters of a balance value (mark, date, currency,
/// amount) stand right after the mark and the six-digit date.
proof fn lemma_balance_letters(v: Seq<char>)
    requires
        v.len() >= 9,
    ensures
        crate::messages::amounts::prefix2(crate::messages::amounts::balance_currency(v)) == seq![v[7], v[8]],
{
    assert(crate::messages::amounts::prefix2(crate::messages::amounts::balance_currency(v)) =~= seq![v[7], v[8]]);
}

/// The two currency letters of a summary value (count, currency, amount)
/// stand right after its leading digits.
pub(crate) proof fn lemma_summary_letters(v: Seq<char>, k: int)
    requires
        0 <= k,
        k + 2 <= v.len(),
        forall|i: int| 0 <= i < k ==> crate::text::is_ascii_digit(#[trigger] v[i]),
        !crate::text::is_ascii_digit(v[k]),
    ensures
        crate::messages::amounts::prefix2(crate::messages::amounts::sum_currency(v)) == seq![v[k], v[k + 1]],
    decreases k,
{
    lemma_leading_digits_at(v, k);
    assert(crate::messages::amounts::prefix2(crate::messages::amounts::sum_currency(v)) =~= seq![v[k], v[k + 1]]);
}

/// The leading digits of `v` are its first `k` characters.
proof fn lemma_leading_digits_at(v: Seq<char>, k: int)
    requires
        0 <= k < v.len(),
        forall|i: int| 0 <= i < k ==> crate::text::is_ascii_digit(#[trigger] v[i]),
        !crate::text::is_ascii_digit(v[k]),
    ensures
        crate::messages::amounts::leading_digits(v) == k,
    decreases k,
{
    if k > 0 {
        let w = v.drop_first();
        assert forall|i: int| 0 <= i < k - 1 implies crate::text::is_ascii_digit(#[trigger] w[i]) by {
            assert(w[i] == v[i + 1]);
        }
        assert(w[k - 1] == v[k]);
        lemma_leading_digits_at(w, k - 1);
        assert(crate::text::is_ascii_digit(v[0]));
    }
}

impl MT941 {
    /// An available balance (64) whose currency starts with other letters
    /// than the closing balance's (62F) makes the message invalid.
    pub proof fn lemma_available_balance_currency(m: MT941)
        requires
            m.field_64 matches Some(f) && f.value@.len() >= 9 && m.field_62f.value@.len() >= 9 && (
            f.value@[7] != m.field_62f.value@[7] || f.value@[8] != m.field_62f.value@[8]),
        ensures
            m.instance_check() is Err,
    {
        lemma_balance_letters(m.field_62f.value@);
        lemma_balance_letters(m.field_64->0.value@);
    }

    /// An opening balance (60F) whose currency starts with other letters
    /// than the closing balance's (62F) makes the message invalid.
    pub proof fn lemma_opening_balance_currency(m: MT941)
        requires
            m.field_60f matches Some(f) && f.value@.len() >= 9 && m.field_62f.value@.len() >= 9 && (
            f.value@[7] != m.field_62f.value@[7] || f.value@[8] != m.field_62f.value@[8]),
        ensures
            m.instance_check() is Err,
    {
        lemma_balance_letters(m.field_62f.value@);
        lemma_balance_letters(m.field_60f->0.value@);
    }

    /// A forward available balance (65), any of them, whose currency starts
    /// with other letters than the closing balance's (62F) makes the message
    /// invalid.
    pub proof fn lemma_forward_balance_currency(m: MT941, i: int)
        requires
            m.field_65 matches Some(v) && 0 <= i < v.len() && v@[i].value@.len() >= 9
                && m.field_62f.value@.len() >= 9 && (v@[i].value@[7] != m.field_62f.value@[7]
                || v@[i].value@[8] != m.field_62f.value@[8]),
        ensures
            m.instance_check() is Err,
    {
        let v = m.field_65->0;
        let base = crate::messages::amounts::prefix2(crate::messages::amounts::balance_currency(m.field_62f.value@));
        lemma_balance_letters(m.field_62f.value@);
        lemma_balance_letters(v@[i].value@);
        lemma_first_65_found(v@, base, 0, i);
    }

    /// A summary of debit (90D) entries whose currency, after the number of
    /// entries (its first `k` characters, digits), starts with other letters
    /// than the closing balance's (62F) makes the message invalid.
    pub proof fn lemma_debit_summary_currency(m: MT941, k: int)
        requires
            m.field_90d matches Some(f) && 0 <= k && k + 2 <= f.value@.len() && (forall|i: int|
                0 <= i < k ==> crate::text::is_ascii_digit(#[trigger] f.value@[i])) && !crate::text::is_ascii_digit(f.value@[k])
                && m.field_62f.value@.len() >= 9 && (f.value@[k] != m.field_62f.value@[7] || f.value@[k + 1]
                != m.field_62f.value@[8]),
        ensures
            m.instance_check() is Err,
    {
        lemma_balance_letters(m.field_62f.value@);
        lemma_summary_letters(m.field_90d->0.value@, k);
    }

    /// A summary of credit (90C) entries whose currency, after the number of
    /// entries (its first `k` characters, digits), starts with other letters
    /// than the closing balance's (62F) makes the message invalid.
    pub proof fn lemma_credit_summary_currency(m: MT941, k: int)
        requires
            m.field_90c matches Some(f) && 0 <= k && k + 2 <= f.value@.len() && (forall|i: int|
                0 <= i < k ==> crate::text::is_ascii_digit(#[trigger] f.value@[i])) && !crate::text::is_ascii_digit(f.value@[k])
                && m.field_62f.value@.len() >= 9 && (f.value@[k] != m.field_62f.value@[7] || f.value@[k + 1]
                != m.field_62f.value@[8]),
        ensures
            m.instance_check() is Err,
    {
        lemma_balance_letters(m.field_62f.value@);
        lemma_summary_letters(m.field_90c->0.value@, k);
    }

    /// A statement whose balances other than 62F are opening (60F),
    /// available (64) and forward available (65) balances, each in a
    /// currency that starts with the same letters as the closing balance's,
    /// is valid.
    pub proof fn lemma_matching_balances_valid(m: MT941)
        requires
            m.field_90d is None,
            m.field_90c is None,
            m.field_62f.value@.len() >= 9,
            m.field_60f matches Some(f) ==> f.value@.len() >= 9 && f.value@[7] == m.field_62f.value@[7]
                && f.value@[8] == m.field_62f.value@[8],
            m.field_64 matches Some(f) ==> f.value@.len() >= 9 && f.value@[7] == m.field_62f.value@[7]
                && f.value@[8] == m.field_62f.value@[8],
            m.field_65 matches Some(v) ==> forall|i: int|
                0 <= i < v.len() ==> (#[trigger] v@[i]).value@.len() >= 9 && v@[i].value@[7]
                    == m.field_62f.value@[7] && v@[i].value@[8] == m.field_62f.value@[8],
        ensures
            m.instance_check() is Ok,
    {
        let base = crate::messages::amounts::prefix2(crate::messages::amounts::balance_currency(m.field_62f.value@));
        lemma_balance_letters(m.field_62f.value@);
        if m.field_60f is Some {
            lemma_balance_letters(m.field_60f->0.value@);
        }
        if m.field_64 is Some {
            lemma_balance_letters(m.field_64->0.value@);
        }
        if m.field_65 is Some {
            let v = m.field_65->0;
            assert forall|i: int| 0 <= i < v.len() implies crate::messages::amounts::prefix2(
                crate::messages::amounts::balance_currency(#[trigger] v@[i].value@),
            ) == base by {
                lemma_balance_letters(v@[i].value@);
            }
            lemma_first_65_none(v@, base, 0);
        }
    }
}

/// A field 65 at `i` whose currency prefix is not `base` is found, there or
/// before it.
proof fn lemma_first_65_found(v: Seq<RawField>, base: Seq<char>, j: int, i: int)
    requires
        0 <= j <= i < v.len(),
        crate::messages::amounts::prefix2(crate::messages::amounts::balance_currency(v[i].value@)) != base,
    ensures
        first_65_mismatch(v, base, j) is Some,
    decreases i - j,
{
    if j < i && crate::messages::amounts::prefix2(crate::messages::amounts::balance_currency(v[j].value@)) == base {
        lemma_first_65_found(v, base, j + 1, i);
    }
}

/// Where every field 65 from `j` on has the currency prefix `base`, none is
/// found.
proof fn lemma_first_65_none(v: Seq<RawField>, base: Seq<char>, j: int)
    requires
        0 <= j <= v.len(),
        forall|i: int| 0 <= i < v.len() ==> crate::messages::amounts::prefix2(
            crate::messages::amounts::balance_currency(#[trigger] v[i].value@),
        ) == base,
    ensures
        first_65_mismatch(v, base, j) is None,
    decreases v.len() - j,
{
    if j < v.len() {
        lemma_first_65_none(v, base, j + 1);
    }
}

} // verus!
