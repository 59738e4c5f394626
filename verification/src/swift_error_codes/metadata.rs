//! Metadata of a selection of SWIFT error codes, and lookups over it.

use vstd::prelude::*;
use crate::text::{chars_eq, in_str_list, str_views, to_chars};

verus! {

/// Error code metadata structure
#[derive(Debug, Clone)]
pub struct ErrorCodeInfo {
    pub code: &'static str,
    pub series: &'static str,
    pub category: &'static str,
    pub description: &'static str,
    pub when_thrown: &'static str,
    pub mt_categories: Vec<&'static str>,
}

/// An entry of the metadata table: code, series, category, description,
/// when it is raised, and the MT categories it applies to.
pub type ErrorCodeRow = (Seq<char>, Seq<char>, Seq<char>, Seq<char>, Seq<char>, Seq<Seq<char>>);

impl ErrorCodeInfo {
    pub open spec fn row(&self) -> ErrorCodeRow {
        (
            self.code@,
            self.series@,
            self.category@,
            self.description@,
            self.when_thrown@,
            str_views(self.mt_categories@),
        )
    }
}

/// The metadata table.
pub open spec fn error_code_table() -> Seq<ErrorCodeRow> {
    seq![
        (
            "T08"@,
            "T"@,
            "Format Validation"@,
            "Invalid code in field"@,
            "Field contains invalid enumerated value"@,
            seq!["1"@, "2"@, "3"@, "4"@, "5"@, "6"@, "7"@, "8"@, "9"@],
        ),
        (
            "T27"@,
            "T"@,
            "Format Validation"@,
            "Invalid BIC code format"@,
            "BIC doesn't match required pattern"@,
            seq!["1"@, "2"@, "3"@, "5"@],
        ),
        (
            "T50"@,
            "T"@,
            "Format Validation"@,
            "Invalid date format"@,
            "Date not in YYMMDD format"@,
            seq!["1"@, "2"@, "3"@, "4"@, "5"@, "6"@, "7"@, "8"@, "9"@],
        ),
        (
            "C02"@,
            "C"@,
            "Business Rules"@,
            "Currency code mismatch"@,
            "Related fields have different currencies"@,
            seq!["1"@, "2"@, "3"@, "5"@],
        ),
        (
            "D19"@,
            "D"@,
            "Content Validation"@,
            "IBAN mandatory for SEPA"@,
            "EU payment without IBAN in beneficiary field"@,
            seq!["1"@],
        ),
        (
            "E01"@,
            "E"@,
            "Relation Validation"@,
            "Instruction code restrictions"@,
            "Field 23E with SPRI can only contain SDVA, TELB, PHOB, INTC"@,
            seq!["1"@],
        ),
        (
            "G001"@,
            "G"@,
            "General Validation"@,
            "Field format violation"@,
            "Field doesn't match specified format pattern"@,
            seq!["2"@, "3"@, "5"@, "6"@, "7"@, "8"@, "9"@],
        ),
    ]
}

pub open spec fn rows(v: Seq<ErrorCodeInfo>) -> Seq<ErrorCodeRow> {
    v.map_values(|e: ErrorCodeInfo| e.row())
}

/// An entry has this code.
pub open spec fn has_code(code: Seq<char>) -> spec_fn(ErrorCodeRow) -> bool {
    |e: ErrorCodeRow| e.0 == code
}

/// An entry belongs to this series.
pub open spec fn has_series(series: Seq<char>) -> spec_fn(ErrorCodeRow) -> bool {
    |e: ErrorCodeRow| e.1 == series
}

/// An entry applies to this MT category.
pub open spec fn has_category(category: Seq<char>) -> spec_fn(ErrorCodeRow) -> bool {
    |e: ErrorCodeRow| e.5.contains(category)
}

/// The code of an entry.
pub open spec fn code_of(e: ErrorCodeRow) -> Seq<char> {
    e.0
}

/// The entries for `code`.
pub open spec fn entries_for_code(code: Seq<char>) -> Seq<ErrorCodeRow> {
    error_code_table().filter(has_code(code))
}

/// The codes of the entries of a series, in table order.
pub open spec fn codes_of_series(series: Seq<char>) -> Seq<Seq<char>> {
    error_code_table().filter(has_series(series)).map_values(|e: ErrorCodeRow| code_of(e))
}

/// The codes of the entries that apply to an MT category, in table order.
pub open spec fn codes_of_category(category: Seq<char>) -> Seq<Seq<char>> {
    error_code_table().filter(has_category(category)).map_values(|e: ErrorCodeRow| code_of(e))
}

/// The metadata table.
pub fn error_code_metadata() -> (v: Vec<ErrorCodeInfo>)
    ensures
        rows(v@) == error_code_table(),
{
    let mut v: Vec<ErrorCodeInfo> = Vec::new();
    v.push(
        ErrorCodeInfo {
            code: "T08",
            series: "T",
            category: "Format Validation",
            description: "Invalid code in field",
            when_thrown: "Field contains invalid enumerated value",
            mt_categories: vec!["1", "2", "3", "4", "5", "6", "7", "8", "9"],
        },
    );
    assert(str_views(v@[v.len() - 1].mt_categories@) =~= seq!["1"@, "2"@, "3"@, "4"@, "5"@, "6"@, "7"@, "8"@, "9"@]);
    v.push(
        ErrorCodeInfo {
            code: "T27",
            series: "T",
            category: "Format Validation",
            description: "Invalid BIC code format",
            when_thrown: "BIC doesn't match required pattern",
            mt_categories: vec!["1", "2", "3", "5"],
        },
    );
    assert(str_views(v@[v.len() - 1].mt_categories@) =~= seq!["1"@, "2"@, "3"@, "5"@]);
    v.push(
        ErrorCodeInfo {
            code: "T50",
            series: "T",
            category: "Format Validation",
            description: "Invalid date format",
            when_thrown: "Date not in YYMMDD format",
            mt_categories: vec!["1", "2", "3", "4", "5", "6", "7", "8", "9"],
        },
    );
    assert(str_views(v@[v.len() - 1].mt_categories@) =~= seq!["1"@, "2"@, "3"@, "4"@, "5"@, "6"@, "7"@, "8"@, "9"@]);
    v.push(
        ErrorCodeInfo {
            code: "C02",
            series: "C",
            category: "Business Rules",
            description: "Currency code mismatch",
            when_thrown: "Related fields have different currencies",
            mt_categories: vec!["1", "2", "3", "5"],
        },
    );
    assert(str_views(v@[v.len() - 1].mt_categories@) =~= seq!["1"@, "2"@, "3"@, "5"@]);
    v.push(
        ErrorCodeInfo {
            code: "D19",
            series: "D",
            category: "Content Validation",
            description: "IBAN mandatory for SEPA",
            when_thrown: "EU payment without IBAN in beneficiary field",
            mt_categories: vec!["1"],
        },
    );
    assert(str_views(v@[v.len() - 1].mt_categories@) =~= seq!["1"@]);
    v.push(
        ErrorCodeInfo {
            code: "E01",
            series: "E",
            category: "Relation Validation",
            description: "Instruction code restrictions",
            when_thrown: "Field 23E with SPRI can only contain SDVA, TELB, PHOB, INTC",
            mt_categories: vec!["1"],
        },
    );
    assert(str_views(v@[v.len() - 1].mt_categories@) =~= seq!["1"@]);
    v.push(
        ErrorCodeInfo {
            code: "G001",
            series: "G",
            category: "General Validation",
            description: "Field format violation",
            when_thrown: "Field doesn't match specified format pattern",
            mt_categories: vec!["2", "3", "5", "6", "7", "8", "9"],
        },
    );
    assert(str_views(v@[v.len() - 1].mt_categories@) =~= seq!["2"@, "3"@, "5"@, "6"@, "7"@, "8"@, "9"@]);
    assert(rows(v@) =~= error_code_table());
    v
}

/// Get metadata for an error code
pub fn get_error_info(code: &str) -> (r: Option<ErrorCodeInfo>)
    ensures
        match r {
            Some(info) => entries_for_code(code@).len() > 0 && info.row() == entries_for_code(
                code@,
            )[0],
            None => entries_for_code(code@).len() == 0,
        },
{
    let table = error_code_metadata();
    let c = to_chars(code);
    let mut i: usize = 0;
    while i < table.len()
        invariant
            i <= table.len(),
            rows(table@) == error_code_table(),
            c@ == code@,
            error_code_table().take(i as int).filter(has_code(c@)).len() == 0,
        decreases table.len() - i,
    {
        proof {
            reveal(Seq::filter);
            assert(error_code_table().take(i + 1).drop_last() =~= error_code_table().take(
                i as int,
            ));
        }
        let k = to_chars(table[i].code);
        if chars_eq(&k, &c) {
            proof {
                assert(error_code_table()[i as int] == table@[i as int].row());
                assert(k@ == c@);
                assert(table@[i as int].row().0 == c@);
                assert(has_code(c@)(error_code_table()[i as int]));
                lemma_filter_prefix(error_code_table(), has_code(c@), i as int);
            }
            let info = table[i].clone_info();
            assert(info.row() == entries_for_code(c@)[0]);
            return Some(info);
        }
        i = i + 1;
    }
    proof {
        assert(error_code_table().take(table.len() as int) =~= error_code_table());
    }
    None
}

/// When the filtered prefix is empty and the next element passes, it heads the filter.
proof fn lemma_filter_prefix(s: Seq<ErrorCodeRow>, p: spec_fn(ErrorCodeRow) -> bool, i: int)
    requires
        0 <= i < s.len(),
        s.take(i).filter(p).len() == 0,
        p(s[i]),
    ensures
        s.filter(p).len() > 0,
        s.filter(p)[0] == s[i],
    decreases s.len() - i,
{
    reveal(Seq::filter);
    if i + 1 < s.len() {
        assert(s.drop_last().take(i) =~= s.take(i));
        lemma_filter_prefix(s.drop_last(), p, i);
        if p(s.last()) {
            assert(s.filter(p) == s.drop_last().filter(p).push(s.last()));
        }
    } else {
        assert(s.drop_last() =~= s.take(i));
        assert(s.filter(p) == s.drop_last().filter(p).push(s.last()));
    }
}

impl ErrorCodeInfo {
    /// A copy of this entry.
    pub fn clone_info(&self) -> (r: ErrorCodeInfo)
        ensures
            r.row() == self.row(),
    {
        let mut cats: Vec<&'static str> = Vec::new();
        let mut i: usize = 0;
        while i < self.mt_categories.len()
            invariant
                i <= self.mt_categories.len(),
                cats@ == self.mt_categories@.take(i as int),
            decreases self.mt_categories.len() - i,
        {
            cats.push(self.mt_categories[i]);
            i = i + 1;
            assert(cats@ =~= self.mt_categories@.take(i as int));
        }
        assert(self.mt_categories@.take(i as int) =~= self.mt_categories@);
        ErrorCodeInfo {
            code: self.code,
            series: self.series,
            category: self.category,
            description: self.description,
            when_thrown: self.when_thrown,
            mt_categories: cats,
        }
    }
}

/// Get all error codes for a specific series
pub fn get_codes_by_series(series: &str) -> (r: Vec<&'static str>)
    ensures
        str_views(r@) == codes_of_series(series@),
{
    let table = error_code_metadata();
    let s = to_chars(series);
    let mut out: Vec<&'static str> = Vec::new();
    let mut i: usize = 0;
    while i < table.len()
        invariant
            i <= table.len(),
            rows(table@) == error_code_table(),
            s@ == series@,
            str_views(out@) == error_code_table().take(i as int).filter(has_series(s@)).map_values(
                |e: ErrorCodeRow| code_of(e),
            ),
        decreases table.len() - i,
    {
        proof {
            reveal(Seq::filter);
            assert(error_code_table().take(i + 1).drop_last() =~= error_code_table().take(
                i as int,
            ));
            assert(error_code_table()[i as int] == table@[i as int].row());
        }
        let k = to_chars(table[i].series);
        if chars_eq(&k, &s) {
            let ghost prev = out@;
            out.push(table[i].code);
            proof {
                assert(out@ == prev.push(table@[i as int].code));
                assert(str_views(out@) =~= str_views(prev).push(table@[i as int].code@));
                let p = has_series(s@);
                let t1 = error_code_table().take(i + 1);
                assert(t1.drop_last() =~= error_code_table().take(i as int));
                assert(t1.last() == error_code_table()[i as int]);
                assert(t1.filter(p) == error_code_table().take(i as int).filter(p).push(t1.last()));
                assert(str_views(out@) =~= t1.filter(p).map_values(|e: ErrorCodeRow| code_of(e)));
            }
        }
        i = i + 1;
    }
    proof {
        assert(error_code_table().take(table.len() as int) =~= error_code_table());
    }
    out
}

/// Get all error codes for a specific MT category
pub fn get_codes_by_category(category: &str) -> (r: Vec<&'static str>)
    ensures
        str_views(r@) == codes_of_category(category@),
{
    let table = error_code_metadata();
    let c = to_chars(category);
    let mut out: Vec<&'static str> = Vec::new();
    let mut i: usize = 0;
    while i < table.len()
        invariant
            i <= table.len(),
            rows(table@) == error_code_table(),
            c@ == category@,
            str_views(out@) == error_code_table().take(i as int).filter(has_category(c@)).map_values(
                |e: ErrorCodeRow| code_of(e),
            ),
        decreases table.len() - i,
    {
        proof {
            reveal(Seq::filter);
            assert(error_code_table().take(i + 1).drop_last() =~= error_code_table().take(
                i as int,
            ));
            assert(error_code_table()[i as int] == table@[i as int].row());
        }
        if in_str_list(&c, &table[i].mt_categories) {
            let ghost prev = out@;
            out.push(table[i].code);
            proof {
                assert(out@ == prev.push(table@[i as int].code));
                assert(str_views(out@) =~= str_views(prev).push(table@[i as int].code@));
                let p = has_category(c@);
                let t1 = error_code_table().take(i + 1);
                assert(t1.drop_last() =~= error_code_table().take(i as int));
                assert(t1.last() == error_code_table()[i as int]);
                assert(t1.filter(p) == error_code_table().take(i as int).filter(p).push(t1.last()));
                assert(str_views(out@) =~= t1.filter(p).map_values(|e: ErrorCodeRow| code_of(e)));
            }
        }
        i = i + 1;
    }
    proof {
        assert(error_code_table().take(table.len() as int) =~= error_code_table());
    }
    out
}


/// The codes of a series are distinct, and they are exactly the codes whose
/// metadata, as `get_error_info` finds it, names that series.
pub proof fn lemma_series_codes(series: Seq<char>)
    ensures
        codes_of_series(series).no_duplicates(),
        forall|c: Seq<char>|
            #[trigger] codes_of_series(series).contains(c) <==> (entries_for_code(c).len() > 0
                && entries_for_code(c)[0].1 == series),
{
    broadcast use Seq::lemma_filter_push;

    reveal_strlit("T08");
    reveal_strlit("T27");
    reveal_strlit("T50");
    reveal_strlit("C02");
    reveal_strlit("D19");
    reveal_strlit("E01");
    reveal_strlit("G001");
    reveal_strlit("T");
    reveal_strlit("C");
    reveal_strlit("D");
    reveal_strlit("E");
    reveal_strlit("G");
    let t = error_code_table();
    let r0 = t[0];
    let r1 = t[1];
    let r2 = t[2];
    let r3 = t[3];
    let r4 = t[4];
    let r5 = t[5];
    let r6 = t[6];
    assert(r0.0 == "T08"@ && r0.1 == "T"@);
    assert(r1.0 == "T27"@ && r1.1 == "T"@);
    assert(r2.0 == "T50"@ && r2.1 == "T"@);
    assert(r3.0 == "C02"@ && r3.1 == "C"@);
    assert(r4.0 == "D19"@ && r4.1 == "D"@);
    assert(r5.0 == "E01"@ && r5.1 == "E"@);
    assert(r6.0 == "G001"@ && r6.1 == "G"@);
    assert(Seq::<ErrorCodeRow>::empty().filter(has_series(series)) =~= Seq::<ErrorCodeRow>::empty()) by {
        reveal(Seq::filter);
    }
    let s = codes_of_series(series);
    if series == "T"@ {
        assert(has_series(series)(r0));
        assert(has_series(series)(r1));
        assert(has_series(series)(r2));
        assert(!has_series(series)(r3)) by { assert(r3.1[0] != series[0]); }
        assert(!has_series(series)(r4)) by { assert(r4.1[0] != series[0]); }
        assert(!has_series(series)(r5)) by { assert(r5.1[0] != series[0]); }
        assert(!has_series(series)(r6)) by { assert(r6.1[0] != series[0]); }
        assert(has_series(series)(r0) && has_series(series)(r1) && has_series(series)(r2));
        let a = seq![r0];
        assert(a.filter(has_series(series)) =~= seq![r0]);
        assert(a.push(r1).filter(has_series(series)) == a.filter(has_series(series)).push(r1));
        assert(a.push(r1) =~= seq![r0, r1]);
        assert(a.push(r1).push(r2).filter(has_series(series)) == a.push(r1).filter(has_series(series)).push(r2));
        assert(a.push(r1).push(r2) =~= seq![r0, r1, r2]);
        assert(seq![r0].filter(has_series(series)) =~= seq![r0]);
        assert(seq![r0, r1] =~= seq![r0].push(r1));
        assert(seq![r0].push(r1).filter(has_series(series)) == if has_series(series)(r1) { seq![r0].filter(has_series(series)).push(r1) } else { seq![r0].filter(has_series(series)) });
        assert(seq![r0, r1].filter(has_series(series)) =~= seq![r0, r1]);
        assert(seq![r0, r1, r2] =~= seq![r0, r1].push(r2));
        assert(seq![r0, r1].push(r2).filter(has_series(series)) == if has_series(series)(r2) { seq![r0, r1].filter(has_series(series)).push(r2) } else { seq![r0, r1].filter(has_series(series)) });
        assert(seq![r0, r1, r2].filter(has_series(series)) =~= seq![r0, r1, r2]);
        assert(seq![r0, r1, r2, r3] =~= seq![r0, r1, r2].push(r3));
        assert(seq![r0, r1, r2].push(r3).filter(has_series(series)) == if has_series(series)(r3) { seq![r0, r1, r2].filter(has_series(series)).push(r3) } else { seq![r0, r1, r2].filter(has_series(series)) });
        assert(seq![r0, r1, r2, r3].filter(has_series(series)) =~= seq![r0, r1, r2]);
        assert(seq![r0, r1, r2, r3, r4] =~= seq![r0, r1, r2, r3].push(r4));
        assert(seq![r0, r1, r2, r3].push(r4).filter(has_series(series)) == if has_series(series)(r4) { seq![r0, r1, r2, r3].filter(has_series(series)).push(r4) } else { seq![r0, r1, r2, r3].filter(has_series(series)) });
        assert(seq![r0, r1, r2, r3, r4].filter(has_series(series)) =~= seq![r0, r1, r2]);
        assert(seq![r0, r1, r2, r3, r4, r5] =~= seq![r0, r1, r2, r3, r4].push(r5));
        assert(seq![r0, r1, r2, r3, r4].push(r5).filter(has_series(series)) == if has_series(series)(r5) { seq![r0, r1, r2, r3, r4].filter(has_series(series)).push(r5) } else { seq![r0, r1, r2, r3, r4].filter(has_series(series)) });
        assert(seq![r0, r1, r2, r3, r4, r5].filter(has_series(series)) =~= seq![r0, r1, r2]);
        assert(seq![r0, r1, r2, r3, r4, r5, r6] =~= seq![r0, r1, r2, r3, r4, r5].push(r6));
        assert(seq![r0, r1, r2, r3, r4, r5].push(r6).filter(has_series(series)) == if has_series(series)(r6) { seq![r0, r1, r2, r3, r4, r5].filter(has_series(series)).push(r6) } else { seq![r0, r1, r2, r3, r4, r5].filter(has_series(series)) });
        assert(seq![r0, r1, r2, r3, r4, r5, r6].filter(has_series(series)) =~= seq![r0, r1, r2]);
        assert(t.filter(has_series(series)) =~= seq![r0, r1, r2]);
        assert(s =~= seq!["T08"@, "T27"@, "T50"@]);
        assert forall|c: Seq<char>| #[trigger] s.contains(c) <==> (entries_for_code(c).len() > 0
            && entries_for_code(c)[0].1 == series) by {
            lemma_code_entries(c);
            if s.contains(c) {
                let i = choose|i: int| 0 <= i < s.len() && s[i] == c;
            }
            if c == "T08"@ {
                assert(s[0] == c);
            }
            if c == "T27"@ {
                assert(s[1] == c);
            }
            if c == "T50"@ {
                assert(s[2] == c);
            }
        }
        assert("T08"@[1] != "T27"@[1] && "T08"@[1] != "T50"@[1] && "T27"@[1] != "T50"@[1]);
    } else if series == "C"@ {
        assert(!has_series(series)(r0)) by { assert(r0.1[0] != series[0]); }
        assert(!has_series(series)(r1)) by { assert(r1.1[0] != series[0]); }
        assert(!has_series(series)(r2)) by { assert(r2.1[0] != series[0]); }
        assert(has_series(series)(r3));
        assert(!has_series(series)(r4)) by { assert(r4.1[0] != series[0]); }
        assert(!has_series(series)(r5)) by { assert(r5.1[0] != series[0]); }
        assert(!has_series(series)(r6)) by { assert(r6.1[0] != series[0]); }
        assert(seq![r0].filter(has_series(series)) =~= Seq::<ErrorCodeRow>::empty());
        assert(seq![r0, r1] =~= seq![r0].push(r1));
        assert(seq![r0].push(r1).filter(has_series(series)) == if has_series(series)(r1) { seq![r0].filter(has_series(series)).push(r1) } else { seq![r0].filter(has_series(series)) });
        assert(seq![r0, r1].filter(has_series(series)) =~= Seq::<ErrorCodeRow>::empty());
        assert(seq![r0, r1, r2] =~= seq![r0, r1].push(r2));
        assert(seq![r0, r1].push(r2).filter(has_series(series)) == if has_series(series)(r2) { seq![r0, r1].filter(has_series(series)).push(r2) } else { seq![r0, r1].filter(has_series(series)) });
        assert(seq![r0, r1, r2].filter(has_series(series)) =~= Seq::<ErrorCodeRow>::empty());
        assert(seq![r0, r1, r2, r3] =~= seq![r0, r1, r2].push(r3));
        assert(seq![r0, r1, r2].push(r3).filter(has_series(series)) == if has_series(series)(r3) { seq![r0, r1, r2].filter(has_series(series)).push(r3) } else { seq![r0, r1, r2].filter(has_series(series)) });
        assert(seq![r0, r1, r2, r3].filter(has_series(series)) =~= seq![r3]);
        assert(seq![r0, r1, r2, r3, r4] =~= seq![r0, r1, r2, r3].push(r4));
        assert(seq![r0, r1, r2, r3].push(r4).filter(has_series(series)) == if has_series(series)(r4) { seq![r0, r1, r2, r3].filter(has_series(series)).push(r4) } else { seq![r0, r1, r2, r3].filter(has_series(series)) });
        assert(seq![r0, r1, r2, r3, r4].filter(has_series(series)) =~= seq![r3]);
        assert(seq![r0, r1, r2, r3, r4, r5] =~= seq![r0, r1, r2, r3, r4].push(r5));
        assert(seq![r0, r1, r2, r3, r4].push(r5).filter(has_series(series)) == if has_series(series)(r5) { seq![r0, r1, r2, r3, r4].filter(has_series(series)).push(r5) } else { seq![r0, r1, r2, r3, r4].filter(has_series(series)) });
        assert(seq![r0, r1, r2, r3, r4, r5].filter(has_series(series)) =~= seq![r3]);
        assert(seq![r0, r1, r2, r3, r4, r5, r6] =~= seq![r0, r1, r2, r3, r4, r5].push(r6));
        assert(seq![r0, r1, r2, r3, r4, r5].push(r6).filter(has_series(series)) == if has_series(series)(r6) { seq![r0, r1, r2, r3, r4, r5].filter(has_series(series)).push(r6) } else { seq![r0, r1, r2, r3, r4, r5].filter(has_series(series)) });
        assert(seq![r0, r1, r2, r3, r4, r5, r6].filter(has_series(series)) =~= seq![r3]);
        assert(t.filter(has_series(series)) =~= seq![r3]);
        assert(s =~= seq!["C02"@]);
        assert forall|c: Seq<char>| #[trigger] s.contains(c) <==> (entries_for_code(c).len() > 0
            && entries_for_code(c)[0].1 == series) by {
            lemma_code_entries(c);
            if s.contains(c) {
                let i = choose|i: int| 0 <= i < s.len() && s[i] == c;
            }
            if c == "C02"@ {
                assert(s[0] == c);
            }
        }
    } else if series == "D"@ {
        assert(!has_series(series)(r0)) by { assert(r0.1[0] != series[0]); }
        assert(!has_series(series)(r1)) by { assert(r1.1[0] != series[0]); }
        assert(!has_series(series)(r2)) by { assert(r2.1[0] != series[0]); }
        assert(!has_series(series)(r3)) by { assert(r3.1[0] != series[0]); }
        assert(has_series(series)(r4));
        assert(!has_series(series)(r5)) by { assert(r5.1[0] != series[0]); }
        assert(!has_series(series)(r6)) by { assert(r6.1[0] != series[0]); }
        assert(seq![r0].filter(has_series(series)) =~= Seq::<ErrorCodeRow>::empty());
        assert(seq![r0, r1] =~= seq![r0].push(r1));
        assert(seq![r0].push(r1).filter(has_series(series)) == if has_series(series)(r1) { seq![r0].filter(has_series(series)).push(r1) } else { seq![r0].filter(has_series(series)) });
        assert(seq![r0, r1].filter(has_series(series)) =~= Seq::<ErrorCodeRow>::empty());
        assert(seq![r0, r1, r2] =~= seq![r0, r1].push(r2));
        assert(seq![r0, r1].push(r2).filter(has_series(series)) == if has_series(series)(r2) { seq![r0, r1].filter(has_series(series)).push(r2) } else { seq![r0, r1].filter(has_series(series)) });
        assert(seq![r0, r1, r2].filter(has_series(series)) =~= Seq::<ErrorCodeRow>::empty());
        assert(seq![r0, r1, r2, r3] =~= seq![r0, r1, r2].push(r3));
        assert(seq![r0, r1, r2].push(r3).filter(has_series(series)) == if has_series(series)(r3) { seq![r0, r1, r2].filter(has_series(series)).push(r3) } else { seq![r0, r1, r2].filter(has_series(series)) });
        assert(seq![r0, r1, r2, r3].filter(has_series(series)) =~= Seq::<ErrorCodeRow>::empty());
        assert(seq![r0, r1, r2, r3, r4] =~= seq![r0, r1, r2, r3].push(r4));
        assert(seq![r0, r1, r2, r3].push(r4).filter(has_series(series)) == if has_series(series)(r4) { seq![r0, r1, r2, r3].filter(has_series(series)).push(r4) } else { seq![r0, r1, r2, r3].filter(has_series(series)) });
        assert(seq![r0, r1, r2, r3, r4].filter(has_series(series)) =~= seq![r4]);
        assert(seq![r0, r1, r2, r3, r4, r5] =~= seq![r0, r1, r2, r3, r4].push(r5));
        assert(seq![r0, r1, r2, r3, r4].push(r5).filter(has_series(series)) == if has_series(series)(r5) { seq![r0, r1, r2, r3, r4].filter(has_series(series)).push(r5) } else { seq![r0, r1, r2, r3, r4].filter(has_series(series)) });
        assert(seq![r0, r1, r2, r3, r4, r5].filter(has_series(series)) =~= seq![r4]);
        assert(seq![r0, r1, r2, r3, r4, r5, r6] =~= seq![r0, r1, r2, r3, r4, r5].push(r6));
        assert(seq![r0, r1, r2, r3, r4, r5].push(r6).filter(has_series(series)) == if has_series(series)(r6) { seq![r0, r1, r2, r3, r4, r5].filter(has_series(series)).push(r6) } else { seq![r0, r1, r2, r3, r4, r5].filter(has_series(series)) });
        assert(seq![r0, r1, r2, r3, r4, r5, r6].filter(has_series(series)) =~= seq![r4]);
        assert(t.filter(has_series(series)) =~= seq![r4]);
        assert(s =~= seq!["D19"@]);
        assert forall|c: Seq<char>| #[trigger] s.contains(c) <==> (entries_for_code(c).len() > 0
            && entries_for_code(c)[0].1 == series) by {
            lemma_code_entries(c);
            if s.contains(c) {
                let i = choose|i: int| 0 <= i < s.len() && s[i] == c;
            }
            if c == "D19"@ {
                assert(s[0] == c);
            }
        }
    } else if series == "E"@ {
        assert(!has_series(series)(r0)) by { assert(r0.1[0] != series[0]); }
        assert(!has_series(series)(r1)) by { assert(r1.1[0] != series[0]); }
        assert(!has_series(series)(r2)) by { assert(r2.1[0] != series[0]); }
        assert(!has_series(series)(r3)) by { assert(r3.1[0] != series[0]); }
        assert(!has_series(series)(r4)) by { assert(r4.1[0] != series[0]); }
        assert(has_series(series)(r5));
        assert(!has_series(series)(r6)) by { assert(r6.1[0] != series[0]); }
        assert(seq![r0].filter(has_series(series)) =~= Seq::<ErrorCodeRow>::empty());
        assert(seq![r0, r1] =~= seq![r0].push(r1));
        assert(seq![r0].push(r1).filter(has_series(series)) == if has_series(series)(r1) { seq![r0].filter(has_series(series)).push(r1) } else { seq![r0].filter(has_series(series)) });
        assert(seq![r0, r1].filter(has_series(series)) =~= Seq::<ErrorCodeRow>::empty());
        assert(seq![r0, r1, r2] =~= seq![r0, r1].push(r2));
        assert(seq![r0, r1].push(r2).filter(has_series(series)) == if has_series(series)(r2) { seq![r0, r1].filter(has_series(series)).push(r2) } else { seq![r0, r1].filter(has_series(series)) });
        assert(seq![r0, r1, r2].filter(has_series(series)) =~= Seq::<ErrorCodeRow>::empty());
        assert(seq![r0, r1, r2, r3] =~= seq![r0, r1, r2].push(r3));
        assert(seq![r0, r1, r2].push(r3).filter(has_series(series)) == if has_series(series)(r3) { seq![r0, r1, r2].filter(has_series(series)).push(r3) } else { seq![r0, r1, r2].filter(has_series(series)) });
        assert(seq![r0, r1, r2, r3].filter(has_series(series)) =~= Seq::<ErrorCodeRow>::empty());
        assert(seq![r0, r1, r2, r3, r4] =~= seq![r0, r1, r2, r3].push(r4));
        assert(seq![r0, r1, r2, r3].push(r4).filter(has_series(series)) == if has_series(series)(r4) { seq![r0, r1, r2, r3].filter(has_series(series)).push(r4) } else { seq![r0, r1, r2, r3].filter(has_series(series)) });
        assert(seq![r0, r1, r2, r3, r4].filter(has_series(series)) =~= Seq::<ErrorCodeRow>::empty());
        assert(seq![r0, r1, r2, r3, r4, r5] =~= seq![r0, r1, r2, r3, r4].push(r5));
        assert(seq![r0, r1, r2, r3, r4].push(r5).filter(has_series(series)) == if has_series(series)(r5) { seq![r0, r1, r2, r3, r4].filter(has_series(series)).push(r5) } else { seq![r0, r1, r2, r3, r4].filter(has_series(series)) });
        assert(seq![r0, r1, r2, r3, r4, r5].filter(has_series(series)) =~= seq![r5]);
        assert(seq![r0, r1, r2, r3, r4, r5, r6] =~= seq![r0, r1, r2, r3, r4, r5].push(r6));
        assert(seq![r0, r1, r2, r3, r4, r5].push(r6).filter(has_series(series)) == if has_series(series)(r6) { seq![r0, r1, r2, r3, r4, r5].filter(has_series(series)).push(r6) } else { seq![r0, r1, r2, r3, r4, r5].filter(has_series(series)) });
        assert(seq![r0, r1, r2, r3, r4, r5, r6].filter(has_series(series)) =~= seq![r5]);
        assert(t.filter(has_series(series)) =~= seq![r5]);
        assert(s =~= seq!["E01"@]);
        assert forall|c: Seq<char>| #[trigger] s.contains(c) <==> (entries_for_code(c).len() > 0
            && entries_for_code(c)[0].1 == series) by {
            lemma_code_entries(c);
            if s.contains(c) {
                let i = choose|i: int| 0 <= i < s.len() && s[i] == c;
            }
            if c == "E01"@ {
                assert(s[0] == c);
            }
        }
    } else if series == "G"@ {
        assert(!has_series(series)(r0)) by { assert(r0.1[0] != series[0]); }
        assert(!has_series(series)(r1)) by { assert(r1.1[0] != series[0]); }
        assert(!has_series(series)(r2)) by { assert(r2.1[0] != series[0]); }
        assert(!has_series(series)(r3)) by { assert(r3.1[0] != series[0]); }
        assert(!has_series(series)(r4)) by { assert(r4.1[0] != series[0]); }
        assert(!has_series(series)(r5)) by { assert(r5.1[0] != series[0]); }
        assert(has_series(series)(r6));
        assert(seq![r0].filter(has_series(series)) =~= Seq::<ErrorCodeRow>::empty());
        assert(seq![r0, r1] =~= seq![r0].push(r1));
        assert(seq![r0].push(r1).filter(has_series(series)) == if has_series(series)(r1) { seq![r0].filter(has_series(series)).push(r1) } else { seq![r0].filter(has_series(series)) });
        assert(seq![r0, r1].filter(has_series(series)) =~= Seq::<ErrorCodeRow>::empty());
        assert(seq![r0, r1, r2] =~= seq![r0, r1].push(r2));
        assert(seq![r0, r1].push(r2).filter(has_series(series)) == if has_series(series)(r2) { seq![r0, r1].filter(has_series(series)).push(r2) } else { seq![r0, r1].filter(has_series(series)) });
        assert(seq![r0, r1, r2].filter(has_series(series)) =~= Seq::<ErrorCodeRow>::empty());
        assert(seq![r0, r1, r2, r3] =~= seq![r0, r1, r2].push(r3));
        assert(seq![r0, r1, r2].push(r3).filter(has_series(series)) == if has_series(series)(r3) { seq![r0, r1, r2].filter(has_series(series)).push(r3) } else { seq![r0, r1, r2].filter(has_series(series)) });
        assert(seq![r0, r1, r2, r3].filter(has_series(series)) =~= Seq::<ErrorCodeRow>::empty());
        assert(seq![r0, r1, r2, r3, r4] =~= seq![r0, r1, r2, r3].push(r4));
        assert(seq![r0, r1, r2, r3].push(r4).filter(has_series(series)) == if has_series(series)(r4) { seq![r0, r1, r2, r3].filter(has_series(series)).push(r4) } else { seq![r0, r1, r2, r3].filter(has_series(series)) });
        assert(seq![r0, r1, r2, r3, r4].filter(has_series(series)) =~= Seq::<ErrorCodeRow>::empty());
        assert(seq![r0, r1, r2, r3, r4, r5] =~= seq![r0, r1, r2, r3, r4].push(r5));
        assert(seq![r0, r1, r2, r3, r4].push(r5).filter(has_series(series)) == if has_series(series)(r5) { seq![r0, r1, r2, r3, r4].filter(has_series(series)).push(r5) } else { seq![r0, r1, r2, r3, r4].filter(has_series(series)) });
        assert(seq![r0, r1, r2, r3, r4, r5].filter(has_series(series)) =~= Seq::<ErrorCodeRow>::empty());
        assert(seq![r0, r1, r2, r3, r4, r5, r6] =~= seq![r0, r1, r2, r3, r4, r5].push(r6));
        assert(seq![r0, r1, r2, r3, r4, r5].push(r6).filter(has_series(series)) == if has_series(series)(r6) { seq![r0, r1, r2, r3, r4, r5].filter(has_series(series)).push(r6) } else { seq![r0, r1, r2, r3, r4, r5].filter(has_series(series)) });
        assert(seq![r0, r1, r2, r3, r4, r5, r6].filter(has_series(series)) =~= seq![r6]);
        assert(t.filter(has_series(series)) =~= seq![r6]);
        assert(s =~= seq!["G001"@]);
        assert forall|c: Seq<char>| #[trigger] s.contains(c) <==> (entries_for_code(c).len() > 0
            && entries_for_code(c)[0].1 == series) by {
            lemma_code_entries(c);
            if s.contains(c) {
                let i = choose|i: int| 0 <= i < s.len() && s[i] == c;
            }
            if c == "G001"@ {
                assert(s[0] == c);
            }
        }
    } else {
        assert(!has_series(series)(r0)) by { if r0.1 == series { assert(series == "T"@); } }
        assert(!has_series(series)(r1)) by { if r1.1 == series { assert(series == "T"@); } }
        assert(!has_series(series)(r2)) by { if r2.1 == series { assert(series == "T"@); } }
        assert(!has_series(series)(r3)) by { if r3.1 == series { assert(series == "C"@); } }
        assert(!has_series(series)(r4)) by { if r4.1 == series { assert(series == "D"@); } }
        assert(!has_series(series)(r5)) by { if r5.1 == series { assert(series == "E"@); } }
        assert(!has_series(series)(r6)) by { if r6.1 == series { assert(series == "G"@); } }
        assert(seq![r0].filter(has_series(series)) =~= Seq::<ErrorCodeRow>::empty());
        assert(seq![r0, r1] =~= seq![r0].push(r1));
        assert(seq![r0].push(r1).filter(has_series(series)) == if has_series(series)(r1) { seq![r0].filter(has_series(series)).push(r1) } else { seq![r0].filter(has_series(series)) });
        assert(seq![r0, r1].filter(has_series(series)) =~= Seq::<ErrorCodeRow>::empty());
        assert(seq![r0, r1, r2] =~= seq![r0, r1].push(r2));
        assert(seq![r0, r1].push(r2).filter(has_series(series)) == if has_series(series)(r2) { seq![r0, r1].filter(has_series(series)).push(r2) } else { seq![r0, r1].filter(has_series(series)) });
        assert(seq![r0, r1, r2].filter(has_series(series)) =~= Seq::<ErrorCodeRow>::empty());
        assert(seq![r0, r1, r2, r3] =~= seq![r0, r1, r2].push(r3));
        assert(seq![r0, r1, r2].push(r3).filter(has_series(series)) == if has_series(series)(r3) { seq![r0, r1, r2].filter(has_series(series)).push(r3) } else { seq![r0, r1, r2].filter(has_series(series)) });
        assert(seq![r0, r1, r2, r3].filter(has_series(series)) =~= Seq::<ErrorCodeRow>::empty());
        assert(seq![r0, r1, r2, r3, r4] =~= seq![r0, r1, r2, r3].push(r4));
        assert(seq![r0, r1, r2, r3].push(r4).filter(has_series(series)) == if has_series(series)(r4) { seq![r0, r1, r2, r3].filter(has_series(series)).push(r4) } else { seq![r0, r1, r2, r3].filter(has_series(series)) });
        assert(seq![r0, r1, r2, r3, r4].filter(has_series(series)) =~= Seq::<ErrorCodeRow>::empty());
        assert(seq![r0, r1, r2, r3, r4, r5] =~= seq![r0, r1, r2, r3, r4].push(r5));
        assert(seq![r0, r1, r2, r3, r4].push(r5).filter(has_series(series)) == if has_series(series)(r5) { seq![r0, r1, r2, r3, r4].filter(has_series(series)).push(r5) } else { seq![r0, r1, r2, r3, r4].filter(has_series(series)) });
        assert(seq![r0, r1, r2, r3, r4, r5].filter(has_series(series)) =~= Seq::<ErrorCodeRow>::empty());
        assert(seq![r0, r1, r2, r3, r4, r5, r6] =~= seq![r0, r1, r2, r3, r4, r5].push(r6));
        assert(seq![r0, r1, r2, r3, r4, r5].push(r6).filter(has_series(series)) == if has_series(series)(r6) { seq![r0, r1, r2, r3, r4, r5].filter(has_series(series)).push(r6) } else { seq![r0, r1, r2, r3, r4, r5].filter(has_series(series)) });
        assert(seq![r0, r1, r2, r3, r4, r5, r6].filter(has_series(series)) =~= Seq::<ErrorCodeRow>::empty());
        assert(t.filter(has_series(series)) =~= Seq::<ErrorCodeRow>::empty());
        assert(s =~= Seq::<Seq<char>>::empty());
        assert forall|c: Seq<char>| #[trigger] s.contains(c) <==> (entries_for_code(c).len() > 0
            && entries_for_code(c)[0].1 == series) by {
            lemma_code_entries(c);
            if s.contains(c) {
                let i = choose|i: int| 0 <= i < s.len() && s[i] == c;
            }

        }
    }
}

/// The entries for a code: its one row, or none.
proof fn lemma_code_entries(c: Seq<char>)
    ensures
        entries_for_code(c) == if c == "T08"@ { seq![error_code_table()[0]] } else if c == "T27"@ { seq![error_code_table()[1]] } else if c == "T50"@ { seq![error_code_table()[2]] } else if c == "C02"@ { seq![error_code_table()[3]] } else if c == "D19"@ { seq![error_code_table()[4]] } else if c == "E01"@ { seq![error_code_table()[5]] } else if c == "G001"@ { seq![error_code_table()[6]] } else { Seq::<ErrorCodeRow>::empty() },
{
    broadcast use Seq::lemma_filter_push;

    reveal_strlit("T08");
    reveal_strlit("T27");
    reveal_strlit("T50");
    reveal_strlit("C02");
    reveal_strlit("D19");
    reveal_strlit("E01");
    reveal_strlit("G001");
    reveal_strlit("T");
    reveal_strlit("C");
    reveal_strlit("D");
    reveal_strlit("E");
    reveal_strlit("G");
    let t = error_code_table();
    let r0 = t[0];
    let r1 = t[1];
    let r2 = t[2];
    let r3 = t[3];
    let r4 = t[4];
    let r5 = t[5];
    let r6 = t[6];
    assert(r0.0 == "T08"@ && r0.1 == "T"@);
    assert(r1.0 == "T27"@ && r1.1 == "T"@);
    assert(r2.0 == "T50"@ && r2.1 == "T"@);
    assert(r3.0 == "C02"@ && r3.1 == "C"@);
    assert(r4.0 == "D19"@ && r4.1 == "D"@);
    assert(r5.0 == "E01"@ && r5.1 == "E"@);
    assert(r6.0 == "G001"@ && r6.1 == "G"@);
    assert(Seq::<ErrorCodeRow>::empty().filter(has_code(c)) =~= Seq::<ErrorCodeRow>::empty()) by {
        reveal(Seq::filter);
    }
    let e = entries_for_code(c);
    if c == "T08"@ {
        assert(has_code(c)(r0));
        assert(!has_code(c)(r1)) by { assert(r1.0[1] != c[1]); }
        assert(!has_code(c)(r2)) by { assert(r2.0[1] != c[1]); }
        assert(!has_code(c)(r3)) by { assert(r3.0[0] != c[0]); }
        assert(!has_code(c)(r4)) by { assert(r4.0[0] != c[0]); }
        assert(!has_code(c)(r5)) by { assert(r5.0[0] != c[0]); }
        assert(!has_code(c)(r6)) by { assert(r6.0[0] != c[0]); }
        assert(seq![r0].filter(has_code(c)) =~= seq![r0]);
        assert(seq![r0, r1] =~= seq![r0].push(r1));
        assert(seq![r0].push(r1).filter(has_code(c)) == if has_code(c)(r1) { seq![r0].filter(has_code(c)).push(r1) } else { seq![r0].filter(has_code(c)) });
        assert(seq![r0, r1].filter(has_code(c)) =~= seq![r0]);
        assert(seq![r0, r1, r2] =~= seq![r0, r1].push(r2));
        assert(seq![r0, r1].push(r2).filter(has_code(c)) == if has_code(c)(r2) { seq![r0, r1].filter(has_code(c)).push(r2) } else { seq![r0, r1].filter(has_code(c)) });
        assert(seq![r0, r1, r2].filter(has_code(c)) =~= seq![r0]);
        assert(seq![r0, r1, r2, r3] =~= seq![r0, r1, r2].push(r3));
        assert(seq![r0, r1, r2].push(r3).filter(has_code(c)) == if has_code(c)(r3) { seq![r0, r1, r2].filter(has_code(c)).push(r3) } else { seq![r0, r1, r2].filter(has_code(c)) });
        assert(seq![r0, r1, r2, r3].filter(has_code(c)) =~= seq![r0]);
        assert(seq![r0, r1, r2, r3, r4] =~= seq![r0, r1, r2, r3].push(r4));
        assert(seq![r0, r1, r2, r3].push(r4).filter(has_code(c)) == if has_code(c)(r4) { seq![r0, r1, r2, r3].filter(has_code(c)).push(r4) } else { seq![r0, r1, r2, r3].filter(has_code(c)) });
        assert(seq![r0, r1, r2, r3, r4].filter(has_code(c)) =~= seq![r0]);
        assert(seq![r0, r1, r2, r3, r4, r5] =~= seq![r0, r1, r2, r3, r4].push(r5));
        assert(seq![r0, r1, r2, r3, r4].push(r5).filter(has_code(c)) == if has_code(c)(r5) { seq![r0, r1, r2, r3, r4].filter(has_code(c)).push(r5) } else { seq![r0, r1, r2, r3, r4].filter(has_code(c)) });
        assert(seq![r0, r1, r2, r3, r4, r5].filter(has_code(c)) =~= seq![r0]);
        assert(seq![r0, r1, r2, r3, r4, r5, r6] =~= seq![r0, r1, r2, r3, r4, r5].push(r6));
        assert(seq![r0, r1, r2, r3, r4, r5].push(r6).filter(has_code(c)) == if has_code(c)(r6) { seq![r0, r1, r2, r3, r4, r5].filter(has_code(c)).push(r6) } else { seq![r0, r1, r2, r3, r4, r5].filter(has_code(c)) });
        assert(seq![r0, r1, r2, r3, r4, r5, r6].filter(has_code(c)) =~= seq![r0]);
        assert(e =~= seq![r0]);
    } else if c == "T27"@ {
        assert(!has_code(c)(r0)) by { assert(r0.0[1] != c[1]); }
        assert(has_code(c)(r1));
        assert(!has_code(c)(r2)) by { assert(r2.0[1] != c[1]); }
        assert(!has_code(c)(r3)) by { assert(r3.0[0] != c[0]); }
        assert(!has_code(c)(r4)) by { assert(r4.0[0] != c[0]); }
        assert(!has_code(c)(r5)) by { assert(r5.0[0] != c[0]); }
        assert(!has_code(c)(r6)) by { assert(r6.0[0] != c[0]); }
        assert(seq![r0].filter(has_code(c)) =~= Seq::<ErrorCodeRow>::empty());
        assert(seq![r0, r1] =~= seq![r0].push(r1));
        assert(seq![r0].push(r1).filter(has_code(c)) == if has_code(c)(r1) { seq![r0].filter(has_code(c)).push(r1) } else { seq![r0].filter(has_code(c)) });
        assert(seq![r0, r1].filter(has_code(c)) =~= seq![r1]);
        assert(seq![r0, r1, r2] =~= seq![r0, r1].push(r2));
        assert(seq![r0, r1].push(r2).filter(has_code(c)) == if has_code(c)(r2) { seq![r0, r1].filter(has_code(c)).push(r2) } else { seq![r0, r1].filter(has_code(c)) });
        assert(seq![r0, r1, r2].filter(has_code(c)) =~= seq![r1]);
        assert(seq![r0, r1, r2, r3] =~= seq![r0, r1, r2].push(r3));
        assert(seq![r0, r1, r2].push(r3).filter(has_code(c)) == if has_code(c)(r3) { seq![r0, r1, r2].filter(has_code(c)).push(r3) } else { seq![r0, r1, r2].filter(has_code(c)) });
        assert(seq![r0, r1, r2, r3].filter(has_code(c)) =~= seq![r1]);
        assert(seq![r0, r1, r2, r3, r4] =~= seq![r0, r1, r2, r3].push(r4));
        assert(seq![r0, r1, r2, r3].push(r4).filter(has_code(c)) == if has_code(c)(r4) { seq![r0, r1, r2, r3].filter(has_code(c)).push(r4) } else { seq![r0, r1, r2, r3].filter(has_code(c)) });
        assert(seq![r0, r1, r2, r3, r4].filter(has_code(c)) =~= seq![r1]);
        assert(seq![r0, r1, r2, r3, r4, r5] =~= seq![r0, r1, r2, r3, r4].push(r5));
        assert(seq![r0, r1, r2, r3, r4].push(r5).filter(has_code(c)) == if has_code(c)(r5) { seq![r0, r1, r2, r3, r4].filter(has_code(c)).push(r5) } else { seq![r0, r1, r2, r3, r4].filter(has_code(c)) });
        assert(seq![r0, r1, r2, r3, r4, r5].filter(has_code(c)) =~= seq![r1]);
        assert(seq![r0, r1, r2, r3, r4, r5, r6] =~= seq![r0, r1, r2, r3, r4, r5].push(r6));
        assert(seq![r0, r1, r2, r3, r4, r5].push(r6).filter(has_code(c)) == if has_code(c)(r6) { seq![r0, r1, r2, r3, r4, r5].filter(has_code(c)).push(r6) } else { seq![r0, r1, r2, r3, r4, r5].filter(has_code(c)) });
        assert(seq![r0, r1, r2, r3, r4, r5, r6].filter(has_code(c)) =~= seq![r1]);
        assert(e =~= seq![r1]);
    } else if c == "T50"@ {
        assert(!has_code(c)(r0)) by { assert(r0.0[1] != c[1]); }
        assert(!has_code(c)(r1)) by { assert(r1.0[1] != c[1]); }
        assert(has_code(c)(r2));
        assert(!has_code(c)(r3)) by { assert(r3.0[0] != c[0]); }
        assert(!has_code(c)(r4)) by { assert(r4.0[0] != c[0]); }
        assert(!has_code(c)(r5)) by { assert(r5.0[0] != c[0]); }
        assert(!has_code(c)(r6)) by { assert(r6.0[0] != c[0]); }
        assert(seq![r0].filter(has_code(c)) =~= Seq::<ErrorCodeRow>::empty());
        assert(seq![r0, r1] =~= seq![r0].push(r1));
        assert(seq![r0].push(r1).filter(has_code(c)) == if has_code(c)(r1) { seq![r0].filter(has_code(c)).push(r1) } else { seq![r0].filter(has_code(c)) });
        assert(seq![r0, r1].filter(has_code(c)) =~= Seq::<ErrorCodeRow>::empty());
        assert(seq![r0, r1, r2] =~= seq![r0, r1].push(r2));
        assert(seq![r0, r1].push(r2).filter(has_code(c)) == if has_code(c)(r2) { seq![r0, r1].filter(has_code(c)).push(r2) } else { seq![r0, r1].filter(has_code(c)) });
        assert(seq![r0, r1, r2].filter(has_code(c)) =~= seq![r2]);
        assert(seq![r0, r1, r2, r3] =~= seq![r0, r1, r2].push(r3));
        assert(seq![r0, r1, r2].push(r3).filter(has_code(c)) == if has_code(c)(r3) { seq![r0, r1, r2].filter(has_code(c)).push(r3) } else { seq![r0, r1, r2].filter(has_code(c)) });
        assert(seq![r0, r1, r2, r3].filter(has_code(c)) =~= seq![r2]);
        assert(seq![r0, r1, r2, r3, r4] =~= seq![r0, r1, r2, r3].push(r4));
        assert(seq![r0, r1, r2, r3].push(r4).filter(has_code(c)) == if has_code(c)(r4) { seq![r0, r1, r2, r3].filter(has_code(c)).push(r4) } else { seq![r0, r1, r2, r3].filter(has_code(c)) });
        assert(seq![r0, r1, r2, r3, r4].filter(has_code(c)) =~= seq![r2]);
        assert(seq![r0, r1, r2, r3, r4, r5] =~= seq![r0, r1, r2, r3, r4].push(r5));
        assert(seq![r0, r1, r2, r3, r4].push(r5).filter(has_code(c)) == if has_code(c)(r5) { seq![r0, r1, r2, r3, r4].filter(has_code(c)).push(r5) } else { seq![r0, r1, r2, r3, r4].filter(has_code(c)) });
        assert(seq![r0, r1, r2, r3, r4, r5].filter(has_code(c)) =~= seq![r2]);
        assert(seq![r0, r1, r2, r3, r4, r5, r6] =~= seq![r0, r1, r2, r3, r4, r5].push(r6));
        assert(seq![r0, r1, r2, r3, r4, r5].push(r6).filter(has_code(c)) == if has_code(c)(r6) { seq![r0, r1, r2, r3, r4, r5].filter(has_code(c)).push(r6) } else { seq![r0, r1, r2, r3, r4, r5].filter(has_code(c)) });
        assert(seq![r0, r1, r2, r3, r4, r5, r6].filter(has_code(c)) =~= seq![r2]);
        assert(e =~= seq![r2]);
    } else if c == "C02"@ {
        assert(!has_code(c)(r0)) by { assert(r0.0[0] != c[0]); }
        assert(!has_code(c)(r1)) by { assert(r1.0[0] != c[0]); }
        assert(!has_code(c)(r2)) by { assert(r2.0[0] != c[0]); }
        assert(has_code(c)(r3));
        assert(!has_code(c)(r4)) by { assert(r4.0[0] != c[0]); }
        assert(!has_code(c)(r5)) by { assert(r5.0[0] != c[0]); }
        assert(!has_code(c)(r6)) by { assert(r6.0[0] != c[0]); }
        assert(seq![r0].filter(has_code(c)) =~= Seq::<ErrorCodeRow>::empty());
        assert(seq![r0, r1] =~= seq![r0].push(r1));
        assert(seq![r0].push(r1).filter(has_code(c)) == if has_code(c)(r1) { seq![r0].filter(has_code(c)).push(r1) } else { seq![r0].filter(has_code(c)) });
        assert(seq![r0, r1].filter(has_code(c)) =~= Seq::<ErrorCodeRow>::empty());
        assert(seq![r0, r1, r2] =~= seq![r0, r1].push(r2));
        assert(seq![r0, r1].push(r2).filter(has_code(c)) == if has_code(c)(r2) { seq![r0, r1].filter(has_code(c)).push(r2) } else { seq![r0, r1].filter(has_code(c)) });
        assert(seq![r0, r1, r2].filter(has_code(c)) =~= Seq::<ErrorCodeRow>::empty());
        assert(seq![r0, r1, r2, r3] =~= seq![r0, r1, r2].push(r3));
        assert(seq![r0, r1, r2].push(r3).filter(has_code(c)) == if has_code(c)(r3) { seq![r0, r1, r2].filter(has_code(c)).push(r3) } else { seq![r0, r1, r2].filter(has_code(c)) });
        assert(seq![r0, r1, r2, r3].filter(has_code(c)) =~= seq![r3]);
        assert(seq![r0, r1, r2, r3, r4] =~= seq![r0, r1, r2, r3].push(r4));
        assert(seq![r0, r1, r2, r3].push(r4).filter(has_code(c)) == if has_code(c)(r4) { seq![r0, r1, r2, r3].filter(has_code(c)).push(r4) } else { seq![r0, r1, r2, r3].filter(has_code(c)) });
        assert(seq![r0, r1, r2, r3, r4].filter(has_code(c)) =~= seq![r3]);
        assert(seq![r0, r1, r2, r3, r4, r5] =~= seq![r0, r1, r2, r3, r4].push(r5));
        assert(seq![r0, r1, r2, r3, r4].push(r5).filter(has_code(c)) == if has_code(c)(r5) { seq![r0, r1, r2, r3, r4].filter(has_code(c)).push(r5) } else { seq![r0, r1, r2, r3, r4].filter(has_code(c)) });
        assert(seq![r0, r1, r2, r3, r4, r5].filter(has_code(c)) =~= seq![r3]);
        assert(seq![r0, r1, r2, r3, r4, r5, r6] =~= seq![r0, r1, r2, r3, r4, r5].push(r6));
        assert(seq![r0, r1, r2, r3, r4, r5].push(r6).filter(has_code(c)) == if has_code(c)(r6) { seq![r0, r1, r2, r3, r4, r5].filter(has_code(c)).push(r6) } else { seq![r0, r1, r2, r3, r4, r5].filter(has_code(c)) });
        assert(seq![r0, r1, r2, r3, r4, r5, r6].filter(has_code(c)) =~= seq![r3]);
        assert(e =~= seq![r3]);
    } else if c == "D19"@ {
        assert(!has_code(c)(r0)) by { assert(r0.0[0] != c[0]); }
        assert(!has_code(c)(r1)) by { assert(r1.0[0] != c[0]); }
        assert(!has_code(c)(r2)) by { assert(r2.0[0] != c[0]); }
        assert(!has_code(c)(r3)) by { assert(r3.0[0] != c[0]); }
        assert(has_code(c)(r4));
        assert(!has_code(c)(r5)) by { assert(r5.0[0] != c[0]); }
        assert(!has_code(c)(r6)) by { assert(r6.0[0] != c[0]); }
        assert(seq![r0].filter(has_code(c)) =~= Seq::<ErrorCodeRow>::empty());
        assert(seq![r0, r1] =~= seq![r0].push(r1));
        assert(seq![r0].push(r1).filter(has_code(c)) == if has_code(c)(r1) { seq![r0].filter(has_code(c)).push(r1) } else { seq![r0].filter(has_code(c)) });
        assert(seq![r0, r1].filter(has_code(c)) =~= Seq::<ErrorCodeRow>::empty());
        assert(seq![r0, r1, r2] =~= seq![r0, r1].push(r2));
        assert(seq![r0, r1].push(r2).filter(has_code(c)) == if has_code(c)(r2) { seq![r0, r1].filter(has_code(c)).push(r2) } else { seq![r0, r1].filter(has_code(c)) });
        assert(seq![r0, r1, r2].filter(has_code(c)) =~= Seq::<ErrorCodeRow>::empty());
        assert(seq![r0, r1, r2, r3] =~= seq![r0, r1, r2].push(r3));
        assert(seq![r0, r1, r2].push(r3).filter(has_code(c)) == if has_code(c)(r3) { seq![r0, r1, r2].filter(has_code(c)).push(r3) } else { seq![r0, r1, r2].filter(has_code(c)) });
        assert(seq![r0, r1, r2, r3].filter(has_code(c)) =~= Seq::<ErrorCodeRow>::empty());
        assert(seq![r0, r1, r2, r3, r4] =~= seq![r0, r1, r2, r3].push(r4));
        assert(seq![r0, r1, r2, r3].push(r4).filter(has_code(c)) == if has_code(c)(r4) { seq![r0, r1, r2, r3].filter(has_code(c)).push(r4) } else { seq![r0, r1, r2, r3].filter(has_code(c)) });
        assert(seq![r0, r1, r2, r3, r4].filter(has_code(c)) =~= seq![r4]);
        assert(seq![r0, r1, r2, r3, r4, r5] =~= seq![r0, r1, r2, r3, r4].push(r5));
        assert(seq![r0, r1, r2, r3, r4].push(r5).filter(has_code(c)) == if has_code(c)(r5) { seq![r0, r1, r2, r3, r4].filter(has_code(c)).push(r5) } else { seq![r0, r1, r2, r3, r4].filter(has_code(c)) });
        assert(seq![r0, r1, r2, r3, r4, r5].filter(has_code(c)) =~= seq![r4]);
        assert(seq![r0, r1, r2, r3, r4, r5, r6] =~= seq![r0, r1, r2, r3, r4, r5].push(r6));
        assert(seq![r0, r1, r2, r3, r4, r5].push(r6).filter(has_code(c)) == if has_code(c)(r6) { seq![r0, r1, r2, r3, r4, r5].filter(has_code(c)).push(r6) } else { seq![r0, r1, r2, r3, r4, r5].filter(has_code(c)) });
        assert(seq![r0, r1, r2, r3, r4, r5, r6].filter(has_code(c)) =~= seq![r4]);
        assert(e =~= seq![r4]);
    } else if c == "E01"@ {
        assert(!has_code(c)(r0)) by { assert(r0.0[0] != c[0]); }
        assert(!has_code(c)(r1)) by { assert(r1.0[0] != c[0]); }
        assert(!has_code(c)(r2)) by { assert(r2.0[0] != c[0]); }
        assert(!has_code(c)(r3)) by { assert(r3.0[0] != c[0]); }
        assert(!has_code(c)(r4)) by { assert(r4.0[0] != c[0]); }
        assert(has_code(c)(r5));
        assert(!has_code(c)(r6)) by { assert(r6.0[0] != c[0]); }
        assert(seq![r0].filter(has_code(c)) =~= Seq::<ErrorCodeRow>::empty());
        assert(seq![r0, r1] =~= seq![r0].push(r1));
        assert(seq![r0].push(r1).filter(has_code(c)) == if has_code(c)(r1) { seq![r0].filter(has_code(c)).push(r1) } else { seq![r0].filter(has_code(c)) });
        assert(seq![r0, r1].filter(has_code(c)) =~= Seq::<ErrorCodeRow>::empty());
        assert(seq![r0, r1, r2] =~= seq![r0, r1].push(r2));
        assert(seq![r0, r1].push(r2).filter(has_code(c)) == if has_code(c)(r2) { seq![r0, r1].filter(has_code(c)).push(r2) } else { seq![r0, r1].filter(has_code(c)) });
        assert(seq![r0, r1, r2].filter(has_code(c)) =~= Seq::<ErrorCodeRow>::empty());
        assert(seq![r0, r1, r2, r3] =~= seq![r0, r1, r2].push(r3));
        assert(seq![r0, r1, r2].push(r3).filter(has_code(c)) == if has_code(c)(r3) { seq![r0, r1, r2].filter(has_code(c)).push(r3) } else { seq![r0, r1, r2].filter(has_code(c)) });
        assert(seq![r0, r1, r2, r3].filter(has_code(c)) =~= Seq::<ErrorCodeRow>::empty());
        assert(seq![r0, r1, r2, r3, r4] =~= seq![r0, r1, r2, r3].push(r4));
        assert(seq![r0, r1, r2, r3].push(r4).filter(has_code(c)) == if has_code(c)(r4) { seq![r0, r1, r2, r3].filter(has_code(c)).push(r4) } else { seq![r0, r1, r2, r3].filter(has_code(c)) });
        assert(seq![r0, r1, r2, r3, r4].filter(has_code(c)) =~= Seq::<ErrorCodeRow>::empty());
        assert(seq![r0, r1, r2, r3, r4, r5] =~= seq![r0, r1, r2, r3, r4].push(r5));
        assert(seq![r0, r1, r2, r3, r4].push(r5).filter(has_code(c)) == if has_code(c)(r5) { seq![r0, r1, r2, r3, r4].filter(has_code(c)).push(r5) } else { seq![r0, r1, r2, r3, r4].filter(has_code(c)) });
        assert(seq![r0, r1, r2, r3, r4, r5].filter(has_code(c)) =~= seq![r5]);
        assert(seq![r0, r1, r2, r3, r4, r5, r6] =~= seq![r0, r1, r2, r3, r4, r5].push(r6));
        assert(seq![r0, r1, r2, r3, r4, r5].push(r6).filter(has_code(c)) == if has_code(c)(r6) { seq![r0, r1, r2, r3, r4, r5].filter(has_code(c)).push(r6) } else { seq![r0, r1, r2, r3, r4, r5].filter(has_code(c)) });
        assert(seq![r0, r1, r2, r3, r4, r5, r6].filter(has_code(c)) =~= seq![r5]);
        assert(e =~= seq![r5]);
    } else if c == "G001"@ {
        assert(!has_code(c)(r0)) by { assert(r0.0[0] != c[0]); }
        assert(!has_code(c)(r1)) by { assert(r1.0[0] != c[0]); }
        assert(!has_code(c)(r2)) by { assert(r2.0[0] != c[0]); }
        assert(!has_code(c)(r3)) by { assert(r3.0[0] != c[0]); }
        assert(!has_code(c)(r4)) by { assert(r4.0[0] != c[0]); }
        assert(!has_code(c)(r5)) by { assert(r5.0[0] != c[0]); }
        assert(has_code(c)(r6));
        assert(seq![r0].filter(has_code(c)) =~= Seq::<ErrorCodeRow>::empty());
        assert(seq![r0, r1] =~= seq![r0].push(r1));
        assert(seq![r0].push(r1).filter(has_code(c)) == if has_code(c)(r1) { seq![r0].filter(has_code(c)).push(r1) } else { seq![r0].filter(has_code(c)) });
        assert(seq![r0, r1].filter(has_code(c)) =~= Seq::<ErrorCodeRow>::empty());
        assert(seq![r0, r1, r2] =~= seq![r0, r1].push(r2));
        assert(seq![r0, r1].push(r2).filter(has_code(c)) == if has_code(c)(r2) { seq![r0, r1].filter(has_code(c)).push(r2) } else { seq![r0, r1].filter(has_code(c)) });
        assert(seq![r0, r1, r2].filter(has_code(c)) =~= Seq::<ErrorCodeRow>::empty());
        assert(seq![r0, r1, r2, r3] =~= seq![r0, r1, r2].push(r3));
        assert(seq![r0, r1, r2].push(r3).filter(has_code(c)) == if has_code(c)(r3) { seq![r0, r1, r2].filter(has_code(c)).push(r3) } else { seq![r0, r1, r2].filter(has_code(c)) });
        assert(seq![r0, r1, r2, r3].filter(has_code(c)) =~= Seq::<ErrorCodeRow>::empty());
        assert(seq![r0, r1, r2, r3, r4] =~= seq![r0, r1, r2, r3].push(r4));
        assert(seq![r0, r1, r2, r3].push(r4).filter(has_code(c)) == if has_code(c)(r4) { seq![r0, r1, r2, r3].filter(has_code(c)).push(r4) } else { seq![r0, r1, r2, r3].filter(has_code(c)) });
        assert(seq![r0, r1, r2, r3, r4].filter(has_code(c)) =~= Seq::<ErrorCodeRow>::empty());
        assert(seq![r0, r1, r2, r3, r4, r5] =~= seq![r0, r1, r2, r3, r4].push(r5));
        assert(seq![r0, r1, r2, r3, r4].push(r5).filter(has_code(c)) == if has_code(c)(r5) { seq![r0, r1, r2, r3, r4].filter(has_code(c)).push(r5) } else { seq![r0, r1, r2, r3, r4].filter(has_code(c)) });
        assert(seq![r0, r1, r2, r3, r4, r5].filter(has_code(c)) =~= Seq::<ErrorCodeRow>::empty());
        assert(seq![r0, r1, r2, r3, r4, r5, r6] =~= seq![r0, r1, r2, r3, r4, r5].push(r6));
        assert(seq![r0, r1, r2, r3, r4, r5].push(r6).filter(has_code(c)) == if has_code(c)(r6) { seq![r0, r1, r2, r3, r4, r5].filter(has_code(c)).push(r6) } else { seq![r0, r1, r2, r3, r4, r5].filter(has_code(c)) });
        assert(seq![r0, r1, r2, r3, r4, r5, r6].filter(has_code(c)) =~= seq![r6]);
        assert(e =~= seq![r6]);
    } else {
        assert(!has_code(c)(r0)) by { if r0.0 == c { assert(c == "T08"@); } }
        assert(!has_code(c)(r1)) by { if r1.0 == c { assert(c == "T27"@); } }
        assert(!has_code(c)(r2)) by { if r2.0 == c { assert(c == "T50"@); } }
        assert(!has_code(c)(r3)) by { if r3.0 == c { assert(c == "C02"@); } }
        assert(!has_code(c)(r4)) by { if r4.0 == c { assert(c == "D19"@); } }
        assert(!has_code(c)(r5)) by { if r5.0 == c { assert(c == "E01"@); } }
        assert(!has_code(c)(r6)) by { if r6.0 == c { assert(c == "G001"@); } }
        assert(seq![r0].filter(has_code(c)) =~= Seq::<ErrorCodeRow>::empty());
        assert(seq![r0, r1] =~= seq![r0].push(r1));
        assert(seq![r0].push(r1).filter(has_code(c)) == if has_code(c)(r1) { seq![r0].filter(has_code(c)).push(r1) } else { seq![r0].filter(has_code(c)) });
        assert(seq![r0, r1].filter(has_code(c)) =~= Seq::<ErrorCodeRow>::empty());
        assert(seq![r0, r1, r2] =~= seq![r0, r1].push(r2));
        assert(seq![r0, r1].push(r2).filter(has_code(c)) == if has_code(c)(r2) { seq![r0, r1].filter(has_code(c)).push(r2) } else { seq![r0, r1].filter(has_code(c)) });
        assert(seq![r0, r1, r2].filter(has_code(c)) =~= Seq::<ErrorCodeRow>::empty());
        assert(seq![r0, r1, r2, r3] =~= seq![r0, r1, r2].push(r3));
        assert(seq![r0, r1, r2].push(r3).filter(has_code(c)) == if has_code(c)(r3) { seq![r0, r1, r2].filter(has_code(c)).push(r3) } else { seq![r0, r1, r2].filter(has_code(c)) });
        assert(seq![r0, r1, r2, r3].filter(has_code(c)) =~= Seq::<ErrorCodeRow>::empty());
        assert(seq![r0, r1, r2, r3, r4] =~= seq![r0, r1, r2, r3].push(r4));
        assert(seq![r0, r1, r2, r3].push(r4).filter(has_code(c)) == if has_code(c)(r4) { seq![r0, r1, r2, r3].filter(has_code(c)).push(r4) } else { seq![r0, r1, r2, r3].filter(has_code(c)) });
        assert(seq![r0, r1, r2, r3, r4].filter(has_code(c)) =~= Seq::<ErrorCodeRow>::empty());
        assert(seq![r0, r1, r2, r3, r4, r5] =~= seq![r0, r1, r2, r3, r4].push(r5));
        assert(seq![r0, r1, r2, r3, r4].push(r5).filter(has_code(c)) == if has_code(c)(r5) { seq![r0, r1, r2, r3, r4].filter(has_code(c)).push(r5) } else { seq![r0, r1, r2, r3, r4].filter(has_code(c)) });
        assert(seq![r0, r1, r2, r3, r4, r5].filter(has_code(c)) =~= Seq::<ErrorCodeRow>::empty());
        assert(seq![r0, r1, r2, r3, r4, r5, r6] =~= seq![r0, r1, r2, r3, r4, r5].push(r6));
        assert(seq![r0, r1, r2, r3, r4, r5].push(r6).filter(has_code(c)) == if has_code(c)(r6) { seq![r0, r1, r2, r3, r4, r5].filter(has_code(c)).push(r6) } else { seq![r0, r1, r2, r3, r4, r5].filter(has_code(c)) });
        assert(seq![r0, r1, r2, r3, r4, r5, r6].filter(has_code(c)) =~= Seq::<ErrorCodeRow>::empty());
        assert(e =~= Seq::<ErrorCodeRow>::empty());
    }
}

} // verus!
