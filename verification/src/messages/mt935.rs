//! MT935: Rate Change Advice
//!
//! A reference, then up to ten rate changes, each identified by field 23
//! or by an account in field 25, with its effective date (30) and its new
//! rates (37H); then optional sender to receiver information (72).
//!
//! The fields 23, 25, 30 and 37H are taken as four lists; the n-th rate
//! change gets the n-th field 23, 25 and 30, and the rates are shared out
//! in runs of equal length (the number of rates divided by the number of
//! rate changes, rounded up).

use vstd::prelude::*;
use crate::errors::{error_views, ParseError, SwiftValidationError, ValidationErrorView};
use crate::message_parser::{
    error_is, field_views, lemma_run_rules_fit, many_slot, opt_slot, rule_views, run_rules,
    slot_views, take_many, take_one, take_opt, FieldRule, FieldView, LayoutView, MessageParser,
    ParsedView, RawField, RuleView,
};
use crate::block4::raw_field_map;
use crate::numeric::{decimal, usize_to_decimal};
use crate::parsing_utils::{mt_text, pair_views, push_field, push_fields, push_optional, render_mt};
use crate::text::{append_chars, from_chars, str_views, to_chars};
use crate::traits::SwiftMessageBody;

verus! {

/// One rate change of an MT935.
#[derive(Debug, Clone, PartialEq)]
pub struct MT935RateChange {
    pub field_23: Option<RawField>,
    pub field_25: Option<RawField>,
    pub field_30: RawField,
    pub field_37h: Vec<RawField>,
}

/// A rate change as the specifications see it: field 23 and field 25 as
/// lists of at most one, field 30, and the rates.
pub type RateView = (Seq<FieldView>, Seq<FieldView>, FieldView, Seq<FieldView>);

impl MT935RateChange {
    /// The rate change as the specifications see it.
    pub open spec fn rate_view(&self) -> RateView {
        (opt_slot(self.field_23), opt_slot(self.field_25), self.field_30@, field_views(self.field_37h@))
    }

    /// The fields of the rate change in writing order.
    pub open spec fn fields_in_order(&self) -> Seq<FieldView> {
        opt_slot(self.field_23) + opt_slot(self.field_25) + seq![self.field_30@] + field_views(
            self.field_37h@,
        )
    }
}

/// MT935: Rate Change Advice
#[derive(Debug, Clone, PartialEq)]
pub struct MT935 {
    pub field_20: RawField,
    pub rate_changes: Vec<MT935RateChange>,
    pub field_72: Option<RawField>,
}

/// The rules by which the fields are taken, duplicates allowed.
pub open spec fn mt935_rules() -> Seq<RuleView> {
    seq![
        RuleView::Mandatory("20"@),
        RuleView::Repeated("23"@),
        RuleView::Repeated("25"@),
        RuleView::Repeated("30"@),
        RuleView::Repeated("37H"@),
        RuleView::Optional("72"@),
    ]
}

/// `a` divided by `n`, rounded up.
pub open spec fn ceil_div(a: int, n: int) -> int {
    if a % n == 0 {
        a / n
    } else {
        a / n + 1
    }
}

/// The rates of rate change `i` of `n`: its run of the shared-out rates,
/// or, where the run is empty, the `i`-th rate if there is one.
pub open spec fn rates_of(l37: Seq<FieldView>, n: int, i: int) -> Seq<FieldView> {
    let per = ceil_div(l37.len() as int, n);
    let start = i * per;
    let end = if (i + 1) * per < l37.len() {
        (i + 1) * per
    } else {
        l37.len() as int
    };
    let run = if start < end {
        l37.subrange(start, end)
    } else {
        Seq::empty()
    };
    if run.len() == 0 && i < l37.len() {
        seq![l37[i]]
    } else {
        run
    }
}

/// The `i`-th element of `l`, as a list of at most one.
pub open spec fn nth_opt(l: Seq<FieldView>, i: int) -> Seq<FieldView> {
    if i < l.len() {
        seq![l[i]]
    } else {
        Seq::empty()
    }
}

/// Rate change `i`, from the four lists.
pub open spec fn rate_change(
    l23: Seq<FieldView>,
    l25: Seq<FieldView>,
    l30: Seq<FieldView>,
    l37: Seq<FieldView>,
    i: int,
) -> RateView {
    (nth_opt(l23, i), nth_opt(l25, i), l30[i], rates_of(l37, l30.len() as int, i))
}

/// The first rate change from `from` on that gets no rate.
pub open spec fn first_without_rates(l37: Seq<FieldView>, n: int, from: int) -> Option<int>
    decreases n - from,
{
    if from < 0 || from >= n {
        None
    } else if rates_of(l37, n, from).len() == 0 {
        Some(from)
    } else {
        first_without_rates(l37, n, from + 1)
    }
}

/// The rate changes made from the four lists, or the message of the error.
pub open spec fn rate_changes_of(
    l23: Seq<FieldView>,
    l25: Seq<FieldView>,
    l30: Seq<FieldView>,
    l37: Seq<FieldView>,
) -> Result<Seq<RateView>, Seq<char>> {
    let n = l30.len();
    if n == 0 {
        Err("MT935: At least one rate change sequence is required"@)
    } else if n > 10 {
        Err("MT935: Maximum 10 rate change sequences allowed, found "@ + decimal(n))
    } else {
        match first_without_rates(l37, n as int, 0) {
            Some(i) => Err(
                "MT935: At least one field 37H is required for sequence "@ + decimal((i + 1) as nat),
            ),
            None => Ok(Seq::new(n, |i: int| rate_change(l23, l25, l30, l37, i))),
        }
    }
}

/// With no rate change from `from` on that gets no rate, none is found.
proof fn lemma_first_without_rates(l37: Seq<FieldView>, n: int, from: int)
    requires
        0 <= from,
    ensures
        first_without_rates(l37, n, from) is None <==> forall|i: int|
            from <= i < n ==> #[trigger] rates_of(l37, n, i).len() > 0,
    decreases n - from,
{
    if from < n {
        lemma_first_without_rates(l37, n, from + 1);
    }
}

/// The rate changes of a message: with no field 30, more than ten, or fewer
/// fields 37H than fields 30, the message is refused; otherwise there is one
/// rate change per field 30, in order, each with at least one rate.
pub proof fn lemma_rate_counts(l23: Seq<FieldView>, l25: Seq<FieldView>, l30: Seq<FieldView>, l37: Seq<FieldView>)
    ensures
        (l30.len() == 0 || l30.len() > 10 || l37.len() < l30.len()) ==> rate_changes_of(l23, l25, l30, l37) is Err,
        (1 <= l30.len() <= 10 && l37.len() >= l30.len()) ==> (rate_changes_of(l23, l25, l30, l37) matches Ok(v)
            && v.len() == l30.len() && forall|i: int|
            0 <= i < v.len() ==> (#[trigger] v[i]).2 == l30[i] && v[i].3.len() > 0),
{
    let n = l30.len() as int;
    let k = l37.len() as int;
    lemma_first_without_rates(l37, n, 0);
    if 1 <= n <= 10 {
        if k >= n {
            assert forall|i: int| 0 <= i < n implies #[trigger] rates_of(l37, n, i).len() > 0 by {}
        } else {
            assert(rates_of(l37, n, k).len() == 0) by {
                if k > 0 {
                    assert(k / n == 0 && k % n == k) by (nonlinear_arith)
                        requires
                            0 < k < n,
                    ;
                    assert(ceil_div(k, n) == 1);
                } else {
                    assert(ceil_div(k, n) == 0) by (nonlinear_arith)
                        requires
                            k == 0,
                            n >= 1,
                    ;
                }
            }
        }
    }
}

/// The message, as the specifications see it.
pub type MT935View = (FieldView, Seq<RateView>, Seq<FieldView>);

/// What parsing `block4` gives: the message, or the error that stands for
/// the failure of a rule or of sharing out the rate changes.
pub open spec fn mt935_taken(block4: Seq<char>, r: Result<MT935, ParseError>) -> bool {
    match run_rules(raw_field_map(block4), Set::empty(), true, mt935_rules()) {
        Err(e) => r matches Err(pe) && error_is(pe, e),
        Ok((slots, _)) => match rate_changes_of(slots[1], slots[2], slots[3], slots[4]) {
            Ok(v) => r matches Ok(m) && m.message_view() == (slots[0][0], v, slots[5]),
            Err(msg) => r matches Err(ParseError::InvalidFormat { message }) && message@ == msg,
        },
    }
}

/// The rates of rate change `i` of `n`.
fn rates_exec(l37: &Vec<RawField>, n: usize, i: usize) -> (r: Vec<RawField>)
    requires
        0 < n <= 10,
        i < n,
    ensures
        field_views(r@) == rates_of(field_views(l37@), n as int, i as int),
{
    let len = l37.len();
    assert(len % n != 0 ==> len / n < len) by (nonlinear_arith)
        requires
            n >= 1,
    ;
    let per: usize = if len % n == 0 {
        len / n
    } else {
        len / n + 1
    };
    let ghost lv = field_views(l37@);
    assert(per as int == ceil_div(len as int, n as int));
    assert(per <= len) by (nonlinear_arith)
        requires
            per as int == ceil_div(len as int, n as int),
            n >= 1,
    {
        if len % n != 0 {
            assert(len / n < len);
        }
    }
    assert((per as int) < 0x1_0000_0000_0000_0000);
    assert((i as u128 + 1) * (per as u128) < 0x10_0000_0000_0000_0000 && (i as u128) * (per as u128)
        <= (i as u128 + 1) * (per as u128)) by (nonlinear_arith)
        requires
            i < 10,
            (per as int) < 0x1_0000_0000_0000_0000,
    ;
    let start_w: u128 = (i as u128) * (per as u128);
    let end_w: u128 = (i as u128 + 1) * (per as u128);
    let end: usize = if end_w < len as u128 {
        end_w as usize
    } else {
        len
    };
    let mut run: Vec<RawField> = Vec::new();
    if start_w < end as u128 {
        let start = start_w as usize;
        let mut j: usize = start;
        while j < end
            invariant
                start <= j <= end <= len,
                len == l37.len(),
                lv == field_views(l37@),
                field_views(run@) == lv.subrange(start as int, j as int),
            decreases end - j,
        {
            let ghost before = field_views(run@);
            let f = l37[j].copy();
            run.push(f);
            assert(lv[j as int] == f@);
            assert(field_views(run@) =~= before.push(f@));
            assert(field_views(run@) =~= lv.subrange(start as int, j + 1));
            j = j + 1;
        }
    } else {
        assert(field_views(run@) =~= Seq::<FieldView>::empty());
    }
    if run.len() == 0 && i < len {
        let mut one: Vec<RawField> = Vec::new();
        one.push(l37[i].copy());
        assert(field_views(one@) =~= seq![lv[i as int]]);
        return one;
    }
    run
}

/// The fields of a repeated slot, none where it is absent.
fn many_or_empty(f: Option<Vec<RawField>>) -> (v: Vec<RawField>)
    ensures
        field_views(v@) == many_slot(f),
{
    match f {
        Some(v) => v,
        None => {
            let e: Vec<RawField> = Vec::new();
            assert(field_views(e@) =~= Seq::<FieldView>::empty());
            e
        },
    }
}

/// The `i`-th field of `l`, if there is one.
fn nth_exec(l: &Vec<RawField>, i: usize) -> (r: Option<RawField>)
    ensures
        opt_slot(r) == nth_opt(field_views(l@), i as int),
{
    if i < l.len() {
        Some(l[i].copy())
    } else {
        None
    }
}

/// The fields of a list of rate changes, in writing order.
pub open spec fn rate_fields(v: Seq<MT935RateChange>) -> Seq<FieldView>
    decreases v.len(),
{
    if v.len() == 0 {
        Seq::empty()
    } else {
        rate_fields(v.drop_last()) + v.last().fields_in_order()
    }
}

impl MT935 {
    /// The message as the specifications see it.
    pub open spec fn message_view(&self) -> MT935View {
        (
            self.field_20@,
            self.rate_changes@.map_values(|c: MT935RateChange| c.rate_view()),
            opt_slot(self.field_72),
        )
    }

    /// The fields of the message in writing order.
    pub open spec fn fields_in_order(&self) -> Seq<FieldView> {
        seq![self.field_20@] + rate_fields(self.rate_changes@) + opt_slot(self.field_72)
    }

    /// The rules by which the fields are taken.
    fn rules() -> (r: Vec<FieldRule>)
        ensures
            rule_views(r@) == mt935_rules(),
    {
        let r = vec![
            FieldRule::Mandatory("20"),
            FieldRule::Repeated("23"),
            FieldRule::Repeated("25"),
            FieldRule::Repeated("30"),
            FieldRule::Repeated("37H"),
            FieldRule::Optional("72"),
        ];
        assert(rule_views(r@) =~= mt935_rules());
        r
    }

    /// The rate changes made from the four lists.
    fn share_out(
        l23: &Vec<RawField>,
        l25: &Vec<RawField>,
        l30: &Vec<RawField>,
        l37: &Vec<RawField>,
    ) -> (r: Result<Vec<MT935RateChange>, ParseError>)
        ensures
            match rate_changes_of(field_views(l23@), field_views(l25@), field_views(l30@), field_views(l37@)) {
                Ok(v) => r matches Ok(x) && x@.map_values(|c: MT935RateChange| c.rate_view()) == v,
                Err(msg) => r matches Err(ParseError::InvalidFormat { message }) && message@ == msg,
            },
    {
        let n = l30.len();
        if n == 0 {
            return Err(ParseError::InvalidFormat {
                message: "MT935: At least one rate change sequence is required".to_string(),
            });
        }
        if n > 10 {
            let mut m = to_chars("MT935: Maximum 10 rate change sequences allowed, found ");
            append_chars(&mut m, &usize_to_decimal(n));
            return Err(ParseError::InvalidFormat { message: from_chars(&m) });
        }
        let ghost v23 = field_views(l23@);
        let ghost v25 = field_views(l25@);
        let ghost v30 = field_views(l30@);
        let ghost v37 = field_views(l37@);
        let mut out: Vec<MT935RateChange> = Vec::new();
        let mut i: usize = 0;
        while i < n
            invariant
                i <= n <= 10,
                n == l30.len(),
                v30 == field_views(l30@),
                v23 == field_views(l23@),
                v25 == field_views(l25@),
                v37 == field_views(l37@),
                first_without_rates(v37, n as int, 0) == first_without_rates(v37, n as int, i as int),
                out@.map_values(|c: MT935RateChange| c.rate_view()) == Seq::new(
                    i as nat,
                    |k: int| rate_change(v23, v25, v30, v37, k),
                ),
            decreases n - i,
        {
            let rates = rates_exec(l37, n, i);
            if rates.len() == 0 {
                let mut m = to_chars("MT935: At least one field 37H is required for sequence ");
                append_chars(&mut m, &usize_to_decimal(i + 1));
                return Err(ParseError::InvalidFormat { message: from_chars(&m) });
            }
            let change = MT935RateChange {
                field_23: nth_exec(l23, i),
                field_25: nth_exec(l25, i),
                field_30: l30[i].copy(),
                field_37h: rates,
            };
            let ghost before = out@.map_values(|c: MT935RateChange| c.rate_view());
            out.push(change);
            proof {
                assert(v30[i as int] == l30@[i as int]@);
                assert(change.rate_view() == rate_change(v23, v25, v30, v37, i as int));
                assert(out@.map_values(|c: MT935RateChange| c.rate_view()) =~= before.push(
                    change.rate_view(),
                ));
                assert(Seq::new((i + 1) as nat, |k: int| rate_change(v23, v25, v30, v37, k))
                    =~= Seq::new(i as nat, |k: int| rate_change(v23, v25, v30, v37, k)).push(
                    rate_change(v23, v25, v30, v37, i as int),
                ));
            }
            i = i + 1;
        }
        Ok(out)
    }

    /// Parse message from Block 4 content
    pub fn parse_from_block4(block4: &str) -> (r: Result<MT935, ParseError>)
        ensures
            mt935_taken(block4@, r),
    {
        let parser = MessageParser::new(block4, "935");
        let mut parser = parser.with_duplicates(true);
        let rules = Self::rules();
        match parser.apply_rules(&rules) {
            Err(e) => Err(e),
            Ok(slots) => {
                let ghost all = slot_views(slots@);
                proof {
                    lemma_run_rules_fit(raw_field_map(block4@), Set::empty(), true, mt935_rules());
                    assert(crate::message_parser::slot_fits(mt935_rules()[0], all[0]));
                    assert(crate::message_parser::slot_fits(mt935_rules()[5], all[5]));
                    assert(slot_views(slots@) =~= all.take(slots.len() as int));
                }
                let mut slots = slots;
                let field_72 = take_opt(&mut slots, Ghost(all));
                let l37 = many_or_empty(take_many(&mut slots, Ghost(all)));
                let l30 = many_or_empty(take_many(&mut slots, Ghost(all)));
                let l25 = many_or_empty(take_many(&mut slots, Ghost(all)));
                let l23 = many_or_empty(take_many(&mut slots, Ghost(all)));
                let field_20 = take_one(&mut slots, Ghost(all));
                proof {
                    assert(all[0][0] == field_20@);
                }
                match Self::share_out(&l23, &l25, &l30, &l37) {
                    Ok(rate_changes) => Ok(MT935 { field_20, rate_changes, field_72 }),
                    Err(e) => Err(e),
                }
            },
        }
    }

    /// The fields of the message as (tag, content) pairs, in writing order.
    pub fn to_ordered_fields(&self) -> (r: Vec<(String, String)>)
        ensures
            pair_views(r@) == self.fields_in_order(),
    {
        let mut v: Vec<(String, String)> = Vec::new();
        push_field(&mut v, &self.field_20);
        assert(pair_views(v@) =~= seq![self.field_20@] + rate_fields(self.rate_changes@.take(0)));
        let mut i: usize = 0;
        while i < self.rate_changes.len()
            invariant
                i <= self.rate_changes.len(),
                pair_views(v@) == seq![self.field_20@] + rate_fields(self.rate_changes@.take(i as int)),
            decreases self.rate_changes.len() - i,
        {
            let c = &self.rate_changes[i];
            let ghost before = pair_views(v@);
            push_optional(&mut v, &c.field_23);
            push_optional(&mut v, &c.field_25);
            push_field(&mut v, &c.field_30);
            push_fields(&mut v, &c.field_37h);
            proof {
                assert(self.rate_changes@.take(i + 1).drop_last() =~= self.rate_changes@.take(i as int));
                assert(pair_views(v@) =~= before + c.fields_in_order());
            }
            i = i + 1;
        }
        assert(self.rate_changes@.take(self.rate_changes.len() as int) =~= self.rate_changes@);
        push_optional(&mut v, &self.field_72);
        v
    }

    /// Convert to SWIFT MT text format
    pub fn to_mt_string(&self) -> (r: String)
        ensures
            r@ == mt_text(self.fields_in_order()),
    {
        render_mt(&self.to_ordered_fields())
    }
}

impl SwiftMessageBody for MT935 {
    open spec fn type_code() -> Seq<char> {
        "935"@
    }

    open spec fn layout() -> LayoutView {
        LayoutView {
            header: mt935_rules(),
            item_start: ""@,
            items: Seq::empty(),
            trailer: Seq::empty(),
            complete: false,
        }
    }

    open spec fn parsed(&self) -> ParsedView {
        (seq![seq![self.field_20@], opt_slot(self.field_72)], Seq::empty(), Seq::empty())
    }

    open spec fn ordered(&self) -> Seq<FieldView> {
        self.fields_in_order()
    }

    open spec fn parse_spec(block4: Seq<char>, r: Result<Self, ParseError>) -> bool {
        mt935_taken(block4, r)
    }

    open spec fn required_tags() -> Seq<Seq<char>> {
        seq!["20"@, "30"@, "37H"@]
    }

    open spec fn optional_tags() -> Seq<Seq<char>> {
        seq!["23"@, "25"@, "72"@]
    }

    open spec fn rejected(&self) -> bool {
        false
    }

    open spec fn returned(&self) -> bool {
        false
    }

    open spec fn cover(&self) -> bool {
        false
    }

    open spec fn stp(&self) -> bool {
        false
    }

    fn message_type() -> (r: &'static str) {
        "935"
    }

    fn parse_from_block4(block4: &str) -> (r: Result<Self, ParseError>) {
        MT935::parse_from_block4(block4)
    }

    fn to_ordered_fields(&self) -> (r: Vec<(String, String)>) {
        MT935::to_ordered_fields(self)
    }

    fn to_mt_string(&self) -> (r: String) {
        MT935::to_mt_string(self)
    }

    fn required_fields() -> (r: Vec<&'static str>) {
        let r = vec!["20", "30", "37H"];
        assert(str_views(r@) =~= Self::required_tags());
        r
    }

    fn optional_fields() -> (r: Vec<&'static str>) {
        let r = vec!["23", "25", "72"];
        assert(str_views(r@) =~= Self::optional_tags());
        r
    }

    fn has_reject_codes(&self) -> (b: bool) {
        false
    }

    fn has_return_codes(&self) -> (b: bool) {
        false
    }

    fn is_cover_message(&self) -> (b: bool) {
        false
    }

    fn is_stp_message(&self) -> (b: bool) {
        false
    }
}

// ---------------------------------------------------------------------------
// Network validated rules
// ---------------------------------------------------------------------------

/// The valid function codes of field 23.
pub open spec fn function_codes() -> Seq<Seq<char>> {
    seq!["BASE"@, "CALL"@, "COMMERCIAL"@, "CURRENT"@, "DEPOSIT"@, "NOTICE"@, "PRIME"@]
}

/// The valid function codes, as one text.
pub open spec fn function_codes_text() -> Seq<char> {
    "BASE, CALL, COMMERCIAL, CURRENT, DEPOSIT, NOTICE, PRIME"@
}

/// Rule C1 (T10): one to ten rate changes.
pub open spec fn c1_errors(n: nat) -> Seq<ValidationErrorView> {
    if n == 0 {
        seq![
            (
                "T10"@,
                "RateChangeSequence"@,
                "0"@,
                "The repetitive sequence (fields 23/25, 30, 37H) must appear at least once"@,
                "The repetitive sequence must appear at least once"@,
            ),
        ]
    } else if n > 10 {
        seq![
            (
                "T10"@,
                "RateChangeSequence"@,
                decimal(n),
                "The repetitive sequence (fields 23/25, 30, 37H) must not appear more than ten times"@,
                "The repetitive sequence must not appear more than ten times, found "@ + decimal(n),
            ),
        ]
    } else {
        Seq::empty()
    }
}

/// Rule C2 (C83) for the rate change at `idx`: field 23 or field 25, not both.
pub open spec fn c2_error(c: MT935RateChange, idx: nat) -> Seq<ValidationErrorView> {
    let expected = "Either field 23 or field 25, but not both, must be present in any repetitive sequence"@;
    if c.field_23 is Some && c.field_25 is Some {
        seq![
            (
                "C83"@,
                "23/25"@,
                "23, 25"@,
                expected,
                "Sequence "@ + decimal(idx + 1)
                    + ": Both field 23 and field 25 are present. Either field 23 or field 25, but not both, must be present"@,
            ),
        ]
    } else if c.field_23 is None && c.field_25 is None {
        seq![
            (
                "C83"@,
                "23/25"@,
                "23, 25"@,
                expected,
                "Sequence "@ + decimal(idx + 1)
                    + ": Neither field 23 nor field 25 is present. Either field 23 or field 25 must be present"@,
            ),
        ]
    } else {
        Seq::empty()
    }
}

/// Rule C2 for all rate changes, in order.
pub open spec fn c2_errors(v: Seq<MT935RateChange>) -> Seq<ValidationErrorView>
    decreases v.len(),
{
    if v.len() == 0 {
        Seq::empty()
    } else {
        c2_errors(v.drop_last()) + c2_error(v.last(), (v.len() - 1) as nat)
    }
}

/// All characters of `s` are ASCII letters.
pub open spec fn all_alpha(s: Seq<char>) -> bool {
    forall|i: int| 0 <= i < s.len() ==> crate::text::is_ascii_alpha(#[trigger] s[i])
}

/// Where the function of a field 23 starts: after two digits of a number
/// of days, if there are two.
pub open spec fn function_start(rem: Seq<char>) -> int {
    if rem.len() >= 2 && crate::text::is_ascii_digit(rem[0]) && crate::text::is_ascii_digit(rem[1]) {
        2
    } else {
        0
    }
}

/// The errors of one field 23 (T26), at rate change `idx`.
pub open spec fn f23_error(value: Seq<char>, idx: nat) -> Seq<ValidationErrorView> {
    let n = decimal(idx + 1);
    if value.len() < 4 {
        seq![
            (
                "T26"@,
                "23"@,
                value,
                "3!a[2!n]11x"@,
                "Sequence "@ + n + ": Field 23 must be at least 4 characters (currency code + function)"@,
            ),
        ]
    } else {
        let cur = value.take(3);
        let rem = value.skip(3);
        let fs = function_start(rem);
        let function = rem.skip(fs);
        let e_cur = if !all_alpha(cur) {
            seq![
                (
                    "T26"@,
                    "23"@,
                    value,
                    "3!a[2!n]11x"@,
                    "Sequence "@ + n + ": Currency code '"@ + cur + "' must be 3 alphabetic characters"@,
                ),
            ]
        } else {
            Seq::empty()
        };
        let e_fun = if !function_codes().contains(function) {
            seq![
                (
                    "T26"@,
                    "23"@,
                    function,
                    "Function code must be one of: "@ + function_codes_text(),
                    "Sequence "@ + n + ": Function code '"@ + function + "' is not valid. Valid codes: "@
                        + function_codes_text(),
                ),
            ]
        } else {
            Seq::empty()
        };
        let e_days = if fs == 2 && function != "NOTICE"@ {
            seq![
                (
                    "T26"@,
                    "23"@,
                    value,
                    "Number of Days must only be used when Function is NOTICE"@,
                    "Sequence "@ + n + ": Number of Days '"@ + rem.take(2)
                        + "' is only allowed when Function is NOTICE, but found '"@ + function + "'"@,
                ),
            ]
        } else {
            Seq::empty()
        };
        e_cur + e_fun + e_days
    }
}

/// The field 23 errors of all rate changes, in order.
pub open spec fn f23_errors(v: Seq<MT935RateChange>) -> Seq<ValidationErrorView>
    decreases v.len(),
{
    if v.len() == 0 {
        Seq::empty()
    } else {
        f23_errors(v.drop_last()) + match v.last().field_23 {
            Some(f) => f23_error(f.value@, (v.len() - 1) as nat),
            None => Seq::empty(),
        }
    }
}

/// The indicator error (T51) of a rate at `(s, r)`: its first character
/// must be C or D.
pub open spec fn rate_error(value: Seq<char>, s: nat, r: nat) -> Seq<ValidationErrorView> {
    let ind = if value.len() > 0 {
        seq![value[0]]
    } else {
        Seq::empty()
    };
    if ind == seq!['C'] || ind == seq!['D'] {
        Seq::empty()
    } else {
        seq![
            (
                "T51"@,
                "37H"@,
                ind,
                "C or D"@,
                "Sequence "@ + decimal(s + 1) + ", Rate "@ + decimal(r + 1) + ": Indicator '"@ + ind
                    + "' is not valid. Must be C (Credit) or D (Debit)"@,
            ),
        ]
    }
}

/// The indicator errors of the rates of one rate change, in order.
pub open spec fn rate_errors(rates: Seq<RawField>, s: nat) -> Seq<ValidationErrorView>
    decreases rates.len(),
{
    if rates.len() == 0 {
        Seq::empty()
    } else {
        rate_errors(rates.drop_last(), s) + rate_error(rates.last().value@, s, (rates.len() - 1) as nat)
    }
}

/// The indicator errors of all rate changes, in order.
pub open spec fn f37h_errors(v: Seq<MT935RateChange>) -> Seq<ValidationErrorView>
    decreases v.len(),
{
    if v.len() == 0 {
        Seq::empty()
    } else {
        f37h_errors(v.drop_last()) + rate_errors(v.last().field_37h@, (v.len() - 1) as nat)
    }
}

/// All errors of the network validated rules, in order; with `stop`, the
/// rules after the first that failed are not checked.
pub open spec fn mt935_rule_errors(v: Seq<MT935RateChange>, stop: bool) -> Seq<ValidationErrorView> {
    let a = c1_errors(v.len());
    let b = a + c2_errors(v);
    let c = b + f23_errors(v);
    let d = c + f37h_errors(v);
    if stop && a.len() > 0 {
        a
    } else if stop && b.len() > 0 {
        b
    } else if stop && c.len() > 0 {
        c
    } else {
        d
    }
}

/// Appends the errors of `add` to `out`.
fn append_errors(out: &mut Vec<SwiftValidationError>, add: Vec<SwiftValidationError>)
    ensures
        error_views(final(out)@) == error_views(old(out)@) + error_views(add@),
{
    let mut i: usize = 0;
    let ghost start = error_views(out@);
    while i < add.len()
        invariant
            i <= add.len(),
            error_views(out@) == start + error_views(add@).take(i as int),
        decreases add.len() - i,
    {
        let e = add[i].copy();
        let ghost old_out = out@;
        out.push(e);
        proof {
            assert(error_views(out@) =~= error_views(old_out).push(e@));
            assert(error_views(add@)[i as int] == add@[i as int]@);
            assert(error_views(add@).take(i + 1) =~= error_views(add@).take(i as int).push(e@));
            assert(error_views(out@) =~= start + error_views(add@).take(i + 1));
        }
        i = i + 1;
    }
    assert(error_views(add@).take(add.len() as int) =~= error_views(add@));
}

/// An error of `SwiftValidationError::content_error` as one list.
fn one(e: SwiftValidationError) -> (r: Vec<SwiftValidationError>)
    ensures
        error_views(r@) == seq![e@],
{
    let r = vec![e];
    assert(error_views(r@) =~= seq![e@]);
    r
}

/// No error.
fn none() -> (r: Vec<SwiftValidationError>)
    ensures
        error_views(r@) == Seq::<ValidationErrorView>::empty(),
{
    let r: Vec<SwiftValidationError> = Vec::new();
    assert(error_views(r@) =~= Seq::<ValidationErrorView>::empty());
    r
}

/// All characters are ASCII letters.
fn all_alpha_exec(s: &Vec<char>) -> (r: bool)
    ensures
        r == all_alpha(s@),
{
    let mut i: usize = 0;
    while i < s.len()
        invariant
            i <= s.len(),
            forall|j: int| 0 <= j < i ==> crate::text::is_ascii_alpha(#[trigger] s@[j]),
        decreases s.len() - i,
    {
        let c = s[i];
        if !(('A' <= c && c <= 'Z') || ('a' <= c && c <= 'z')) {
            assert(!crate::text::is_ascii_alpha(s@[i as int]));
            return false;
        }
        i = i + 1;
    }
    true
}

/// The errors of one field 23.
fn f23_error_exec(value: &String, idx: usize) -> (r: Vec<SwiftValidationError>)
    requires
        idx < usize::MAX,
    ensures
        error_views(r@) == f23_error(value@, idx as nat),
{
    let v = crate::text::string_chars(value);
    let n = usize_to_decimal(idx + 1);
    if v.len() < 4 {
        let mut m = to_chars("Sequence ");
        append_chars(&mut m, &n);
        append_chars(&mut m, &to_chars(": Field 23 must be at least 4 characters (currency code + function)"));
        let ms = from_chars(&m);
        return one(SwiftValidationError::content_error("T26", "23", value.as_str(), ms.as_str(), "3!a[2!n]11x"));
    }
    let cur = crate::text::slice_chars(&v, 0, 3);
    let rem = crate::text::slice_chars(&v, 3, v.len());
    assert(cur@ =~= v@.take(3));
    assert(rem@ =~= v@.skip(3));
    let fs: usize = if rem.len() >= 2 && '0' <= rem[0] && rem[0] <= '9' && '0' <= rem[1] && rem[1] <= '9' {
        2
    } else {
        0
    };
    assert(fs == function_start(rem@));
    let function = crate::text::slice_chars(&rem, fs, rem.len());
    assert(function@ =~= rem@.skip(fs as int));
    let mut out = none();
    if !all_alpha_exec(&cur) {
        let mut m = to_chars("Sequence ");
        append_chars(&mut m, &n);
        append_chars(&mut m, &to_chars(": Currency code '"));
        append_chars(&mut m, &cur);
        append_chars(&mut m, &to_chars("' must be 3 alphabetic characters"));
        let ms = from_chars(&m);
        append_errors(&mut out, one(SwiftValidationError::content_error("T26", "23", value.as_str(), ms.as_str(), "3!a[2!n]11x")));
    }
    let codes: Vec<&str> = vec!["BASE", "CALL", "COMMERCIAL", "CURRENT", "DEPOSIT", "NOTICE", "PRIME"];
    assert(str_views(codes@) =~= function_codes());
    if !crate::text::in_str_list(&function, codes.as_slice()) {
        let mut m = to_chars("Sequence ");
        append_chars(&mut m, &n);
        append_chars(&mut m, &to_chars(": Function code '"));
        append_chars(&mut m, &function);
        append_chars(&mut m, &to_chars("' is not valid. Valid codes: "));
        append_chars(&mut m, &to_chars("BASE, CALL, COMMERCIAL, CURRENT, DEPOSIT, NOTICE, PRIME"));
        let mut x = to_chars("Function code must be one of: ");
        append_chars(&mut x, &to_chars("BASE, CALL, COMMERCIAL, CURRENT, DEPOSIT, NOTICE, PRIME"));
        let ms = from_chars(&m);
        let xs = from_chars(&x);
        let fstr = from_chars(&function);
        append_errors(&mut out, one(SwiftValidationError::content_error("T26", "23", fstr.as_str(), ms.as_str(), xs.as_str())));
    }
    if fs == 2 && !crate::text::chars_eq(&function, &to_chars("NOTICE")) {
        let days = crate::text::slice_chars(&rem, 0, 2);
        assert(days@ =~= rem@.take(2));
        let mut m = to_chars("Sequence ");
        append_chars(&mut m, &n);
        append_chars(&mut m, &to_chars(": Number of Days '"));
        append_chars(&mut m, &days);
        append_chars(&mut m, &to_chars("' is only allowed when Function is NOTICE, but found '"));
        append_chars(&mut m, &function);
        append_chars(&mut m, &to_chars("'"));
        let ms = from_chars(&m);
        append_errors(&mut out, one(SwiftValidationError::content_error("T26", "23", value.as_str(), ms.as_str(), "Number of Days must only be used when Function is NOTICE")));
    }
    proof {
        let e_cur = if !all_alpha(v@.take(3)) {
            seq![
                (
                    "T26"@,
                    "23"@,
                    value@,
                    "3!a[2!n]11x"@,
                    "Sequence "@ + decimal((idx + 1) as nat) + ": Currency code '"@ + v@.take(3) + "' must be 3 alphabetic characters"@,
                ),
            ]
        } else {
            Seq::empty()
        };
        assert(error_views(out@) =~= f23_error(value@, idx as nat));
    }
    out
}

impl MT935 {
    /// Network validated rules: C1 (T10), C2 (C83), the form of field 23
    /// (T26) and the indicators of field 37H (T51); with
    /// `stop_on_first_error`, the rules after the first that failed are not
    /// checked.  Rule T14 (no sign on a zero rate) compares rates as
    /// floating-point numbers and is left to the caller.
    pub fn validate_network_rules(&self, stop_on_first_error: bool) -> (r: Vec<SwiftValidationError>)
        ensures
            error_views(r@) == mt935_rule_errors(self.rate_changes@, stop_on_first_error),
    {
        let v = &self.rate_changes;
        let n = v.len();
        let mut out = none();
        if n == 0 {
            append_errors(&mut out, one(SwiftValidationError::content_error(
                "T10",
                "RateChangeSequence",
                "0",
                "The repetitive sequence must appear at least once",
                "The repetitive sequence (fields 23/25, 30, 37H) must appear at least once",)));
        } else if n > 10 {
            let d = usize_to_decimal(n);
            let mut m = to_chars("The repetitive sequence must not appear more than ten times, found ");
            append_chars(&mut m, &d);
            let ds = from_chars(&d);
            let ms = from_chars(&m);
            append_errors(&mut out, one(SwiftValidationError::content_error(
                "T10",
                "RateChangeSequence",
                ds.as_str(),
                ms.as_str(),
                "The repetitive sequence (fields 23/25, 30, 37H) must not appear more than ten times",)));
        }
        assert(error_views(out@) =~= c1_errors(n as nat));
        if stop_on_first_error && out.len() > 0 {
            return out;
        }
        let ghost a = error_views(out@);
        let mut i: usize = 0;
        while i < n
            invariant
                i <= n,
                n == v@.len(),
                *v == self.rate_changes,
                a == c1_errors(n as nat),
                error_views(out@) == a + c2_errors(v@.take(i as int)),
            decreases n - i,
        {
            let c = &v[i];
            let ghost before = error_views(out@);
            let d = usize_to_decimal(i + 1);
            if c.field_23.is_some() && c.field_25.is_some() {
                let mut m = to_chars("Sequence ");
                append_chars(&mut m, &d);
                append_chars(&mut m, &to_chars(": Both field 23 and field 25 are present. Either field 23 or field 25, but not both, must be present"));
                let ms = from_chars(&m);
                append_errors(&mut out, one(SwiftValidationError::content_error(
                    "C83",
                    "23/25",
                    "23, 25",
                    ms.as_str(),
                    "Either field 23 or field 25, but not both, must be present in any repetitive sequence",
                )));
            } else if c.field_23.is_none() && c.field_25.is_none() {
                let mut m = to_chars("Sequence ");
                append_chars(&mut m, &d);
                append_chars(&mut m, &to_chars(": Neither field 23 nor field 25 is present. Either field 23 or field 25 must be present"));
                let ms = from_chars(&m);
                append_errors(&mut out, one(SwiftValidationError::content_error(
                    "C83",
                    "23/25",
                    "23, 25",
                    ms.as_str(),
                    "Either field 23 or field 25, but not both, must be present in any repetitive sequence",
                )));
            }
            proof {
                assert(v@.take(i + 1).drop_last() =~= v@.take(i as int));
                assert(v@.take(i + 1).last() == *c);
                assert(error_views(out@) =~= before + c2_error(*c, i as nat));
            }
            i = i + 1;
        }
        assert(v@.take(n as int) =~= v@);
        if stop_on_first_error && out.len() > 0 {
            return out;
        }
        let ghost b = error_views(out@);
        let mut i: usize = 0;
        while i < n
            invariant
                i <= n,
                n == v@.len(),
                *v == self.rate_changes,
                b == c1_errors(n as nat) + c2_errors(v@),
                error_views(out@) == b + f23_errors(v@.take(i as int)),
                !(stop_on_first_error && b.len() > 0),
            decreases n - i,
        {
            let c = &v[i];
            let ghost before = error_views(out@);
            if let Some(f) = &c.field_23 {
                append_errors(&mut out, f23_error_exec(&f.value, i));
            }
            proof {
                assert(v@.take(i + 1).drop_last() =~= v@.take(i as int));
                assert(v@.take(i + 1).last() == *c);
            }
            i = i + 1;
        }
        assert(v@.take(n as int) =~= v@);
        if stop_on_first_error && out.len() > 0 {
            return out;
        }
        let ghost c3 = error_views(out@);
        let mut i: usize = 0;
        while i < n
            invariant
                i <= n,
                n == v@.len(),
                *v == self.rate_changes,
                c3 == c1_errors(n as nat) + c2_errors(v@) + f23_errors(v@),
                error_views(out@) == c3 + f37h_errors(v@.take(i as int)),
                !(stop_on_first_error && c3.len() > 0),
                !(stop_on_first_error && (c1_errors(n as nat) + c2_errors(v@)).len() > 0),
            decreases n - i,
        {
            let c = &v[i];
            let ghost before = error_views(out@);
            let rates = &c.field_37h;
            let mut k: usize = 0;
            while k < rates.len()
                invariant
                    k <= rates.len(),
                    i < n,
                    error_views(out@) == before + rate_errors(rates@.take(k as int), i as nat),
                decreases rates.len() - k,
            {
                let rv = crate::text::string_chars(&rates[k].value);
                let ok = rv.len() > 0 && (rv[0] == 'C' || rv[0] == 'D');
                let ghost prev = error_views(out@);
                let ind: Vec<char> = if rv.len() > 0 {
                    crate::text::slice_chars(&rv, 0, 1)
                } else {
                    Vec::new()
                };
                proof {
                    if rv.len() > 0 {
                        assert(ind@ =~= seq![rv@[0]]);
                    } else {
                        assert(ind@ =~= Seq::<char>::empty());
                    }
                    assert(ok == (ind@ == seq!['C'] || ind@ == seq!['D'])) by {
                        if ind@ == seq!['C'] {
                            assert(ind@[0] == 'C');
                        }
                        if ind@ == seq!['D'] {
                            assert(ind@[0] == 'D');
                        }
                    }
                }
                if !ok {
                    let mut m = to_chars("Sequence ");
                    append_chars(&mut m, &usize_to_decimal(i + 1));
                    append_chars(&mut m, &to_chars(", Rate "));
                    append_chars(&mut m, &usize_to_decimal(k + 1));
                    append_chars(&mut m, &to_chars(": Indicator '"));
                    append_chars(&mut m, &ind);
                    append_chars(&mut m, &to_chars("' is not valid. Must be C (Credit) or D (Debit)"));
                    let ms = from_chars(&m);
                    let is = from_chars(&ind);
                    append_errors(&mut out, one(SwiftValidationError::content_error("T51", "37H", is.as_str(), ms.as_str(), "C or D")));
                }
                proof {
                    assert(rates@.take(k + 1).drop_last() =~= rates@.take(k as int));
                    assert(rates@.take(k + 1).last() == rates@[k as int]);
                    assert(error_views(out@) =~= prev + rate_error(rates@[k as int].value@, i as nat, k as nat));
                }
                k = k + 1;
            }
            proof {
                assert(rates@.take(rates.len() as int) =~= rates@);
                assert(v@.take(i + 1).drop_last() =~= v@.take(i as int));
                assert(v@.take(i + 1).last() == *c);
            }
            i = i + 1;
        }
        assert(v@.take(n as int) =~= v@);
        out
    }
}

/// Some error of `v` has the code `code`.
pub open spec fn has_error_code(v: Seq<ValidationErrorView>, code: Seq<char>) -> bool {
    exists|k: int| 0 <= k < v.len() && (#[trigger] v[k]).0 == code
}

/// An error with a code stays there when errors are added before or after.
proof fn lemma_code_kept(a: Seq<ValidationErrorView>, b: Seq<ValidationErrorView>, code: Seq<char>)
    ensures
        has_error_code(a, code) ==> has_error_code(a + b, code),
        has_error_code(b, code) ==> has_error_code(a + b, code),
{
    if has_error_code(a, code) {
        let k = choose|k: int| 0 <= k < a.len() && (#[trigger] a[k]).0 == code;
        assert((a + b)[k] == a[k]);
    }
    if has_error_code(b, code) {
        let k = choose|k: int| 0 <= k < b.len() && (#[trigger] b[k]).0 == code;
        assert((a + b)[a.len() + k] == b[k]);
    }
}

/// A rate without the indicator C or D gives a T51 error among the rates.
proof fn lemma_rate_t51(rates: Seq<RawField>, s: nat, r: int)
    requires
        0 <= r < rates.len(),
        rates[r].value@.len() == 0 || (rates[r].value@[0] != 'C' && rates[r].value@[0] != 'D'),
    ensures
        has_error_code(rate_errors(rates, s), "T51"@),
    decreases rates.len(),
{
    let l = rates.len() - 1;
    let p = rates.drop_last();
    if r == l {
        let v = rates[r].value@;
        if v.len() > 0 {
            assert(seq![v[0]] != seq!['C']) by {
                assert(seq![v[0]][0] != seq!['C'][0]);
            }
            assert(seq![v[0]] != seq!['D']) by {
                assert(seq![v[0]][0] != seq!['D'][0]);
            }
        } else {
            assert(Seq::<char>::empty() != seq!['C']) by {
                assert(seq!['C'].len() == 1);
            }
            assert(Seq::<char>::empty() != seq!['D']) by {
                assert(seq!['D'].len() == 1);
            }
        }
        let e = rate_error(v, s, l as nat);
        assert(e[0].0 == "T51"@);
        assert(has_error_code(e, "T51"@));
        lemma_code_kept(rate_errors(p, s), e, "T51"@);
    } else {
        assert(p[r] == rates[r]);
        lemma_rate_t51(p, s, r);
        lemma_code_kept(rate_errors(p, s), rate_error(rates.last().value@, s, l as nat), "T51"@);
    }
}

/// A rate without the indicator C or D in any rate change gives a T51
/// error among the rate changes.
proof fn lemma_changes_t51(v: Seq<MT935RateChange>, c: int, r: int)
    requires
        0 <= c < v.len(),
        0 <= r < v[c].field_37h.len(),
        v[c].field_37h@[r].value@.len() == 0 || (v[c].field_37h@[r].value@[0] != 'C' && v[c].field_37h@[r].value@[0] != 'D'),
    ensures
        has_error_code(f37h_errors(v), "T51"@),
    decreases v.len(),
{
    let l = v.len() - 1;
    let p = v.drop_last();
    if c == l {
        lemma_rate_t51(v[c].field_37h@, l as nat, r);
        lemma_code_kept(f37h_errors(p), rate_errors(v.last().field_37h@, l as nat), "T51"@);
    } else {
        assert(p[c] == v[c]);
        lemma_changes_t51(p, c, r);
        lemma_code_kept(f37h_errors(p), rate_errors(v.last().field_37h@, l as nat), "T51"@);
    }
}

impl MT935 {
    /// A message without rate changes, or with more than ten, gives a T10
    /// error first.
    pub proof fn lemma_rate_change_count(m: MT935, stop: bool)
        requires
            m.rate_changes.len() == 0 || m.rate_changes.len() > 10,
        ensures
            mt935_rule_errors(m.rate_changes@, stop).len() > 0,
            mt935_rule_errors(m.rate_changes@, stop)[0].0 == "T10"@,
    {
    }

    /// A rate (37H) whose indicator is neither C nor D gives a T51 error
    /// when all errors are asked for.
    pub proof fn lemma_rate_indicator(m: MT935, c: int, r: int)
        requires
            0 <= c < m.rate_changes.len(),
            0 <= r < m.rate_changes@[c].field_37h.len(),
            m.rate_changes@[c].field_37h@[r].value@.len() == 0 || (m.rate_changes@[c].field_37h@[r].value@[0] != 'C'
                && m.rate_changes@[c].field_37h@[r].value@[0] != 'D'),
        ensures
            has_error_code(mt935_rule_errors(m.rate_changes@, false), "T51"@),
    {
        let v = m.rate_changes@;
        lemma_changes_t51(v, c, r);
        let b = c1_errors(v.len()) + c2_errors(v);
        lemma_code_kept(b + f23_errors(v), f37h_errors(v), "T51"@);
    }
}

} // verus!
