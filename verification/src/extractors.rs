//! Budgets read from the text each job board shows: Upwork, NoFluffJobs and
//! eFinancialCareers each write them their own way.

use crate::budget::{Budget, BudgetView, make_budget, make_budget_exec, opt_budget_view};
use crate::pattern::{captures_in, group, group_at, regex_captures_result};
use crate::text::{
    ascii_lower, ascii_upper_seq, ascii_upper_vec, chars_of, contains_exec, contains_seq,
    keep_digits, keep_digits_vec, parse_digits_u64, parse_digits_u64_exec, replace_all,
    replace_all_exec, to_lowercase_vec, trim, trim_vec, unicode_lowercase,
};
use vstd::prelude::*;

verus! {

/// An Upwork range: two amounts with optional '$', joined by a dash, "to"
/// or "and", with an optional hourly marker.
pub const UPWORK_RANGE_RE: &'static str =
    r"(?i)\$?\s*(\d[\d\s,]*[kKmM]?)\s*(?:\x{2013}|-|\s+to\s+|and)\s*\$?\s*(\d[\d\s,]*[kKmM]?)\s*(?:/hr|hour|hours)?";

/// One Upwork amount.
pub const UPWORK_SINGLE_RE: &'static str = r"(?i)\$?\s*(\d[\d\s,]*[kKmM]?)\s*(?:/hr|hour|hours)?";

/// A NoFluffJobs range: two amounts and a currency code.
pub const NOFLUFF_RANGE_RE: &'static str =
    r"(?i)(\d[\d\s]*)\s*[\x{2013}-]\s*(\d[\d\s]*)\s*(EUR|PLN|USD|GBP|CHF)";

/// One NoFluffJobs amount and a currency code.
pub const NOFLUFF_SINGLE_RE: &'static str = r"(?i)(\d[\d\s]*)\s*(EUR|PLN|USD|GBP|CHF)";

/// An eFinancialCareers range: each amount behind a currency code.
pub const EFC_RANGE_RE: &'static str =
    r"(?i)\b(USD|EUR|GBP|PLN|CHF)\s*(\d[\d,]*[kKmM]?)\s*-\s*(?:USD|EUR|GBP|PLN|CHF)\s*(\d[\d,]*[kKmM]?)\b";

/// One eFinancialCareers amount behind a currency code.
pub const EFC_SINGLE_RE: &'static str = r"(?i)\b(USD|EUR|GBP|PLN|CHF)\s*(\d[\d,]*[kKmM]?)\b";

/// No-break and figure spaces, commas and tabs become plain spaces.
pub open spec fn blank_char(c: char) -> char {
    if c == '\u{a0}' || c == '\u{2007}' || c == '\u{202f}' || c == ',' || c == '\t' {
        ' '
    } else {
        c
    }
}

pub open spec fn blanked(s: Seq<char>) -> Seq<char> {
    s.map_values(|c: char| blank_char(c))
}

pub fn blanked_vec(v: &Vec<char>) -> (r: Vec<char>)
    ensures
        r@ == blanked(v@),
{
    let mut r: Vec<char> = Vec::new();
    let mut i: usize = 0;
    while i < v.len()
        invariant
            i <= v.len(),
            r@ == blanked(v@.subrange(0, i as int)),
        decreases v.len() - i,
    {
        let c = v[i];
        let d = if c == '\u{a0}' || c == '\u{2007}' || c == '\u{202f}' || c == ',' || c == '\t' {
            ' '
        } else {
            c
        };
        r.push(d);
        i = i + 1;
        assert(blanked(v@.subrange(0, i as int)) =~= blanked(v@.subrange(0, i - 1)).push(
            blank_char(c),
        ));
    }
    assert(v@.subrange(0, i as int) =~= v@);
    r
}

/// The amount an extracted number stands for: its digits, times 1000 for
/// a final 'k' and a million for a final 'm' (either case); nothing when
/// there are no digits or the amount exceeds `u32::MAX`.
pub open spec fn amount_spec(s: Seq<char>) -> Option<u32> {
    let t = trim(blanked(s));
    if t.len() == 0 {
        None
    } else {
        let last = ascii_lower(t.last());
        let mult: nat = if last == 'k' {
            1000
        } else if last == 'm' {
            1000000
        } else {
            1
        };
        match parse_digits_u64(keep_digits(t)) {
            None => None,
            Some(n) => if n as nat * mult <= u32::MAX {
                Some((n as nat * mult) as u32)
            } else {
                None
            },
        }
    }
}

pub fn parse_amount(v: &Vec<char>) -> (r: Option<u32>)
    ensures
        r == amount_spec(v@),
{
    let t = trim_vec(&blanked_vec(v));
    if t.len() == 0 {
        return None;
    }
    let last = crate::text::ascii_lower_char(t[t.len() - 1]);
    let mult: u64 = if last == 'k' {
        1000
    } else if last == 'm' {
        1000000
    } else {
        1
    };
    let digits = keep_digits_vec(&t);
    match parse_digits_u64_exec(&digits) {
        None => None,
        Some(n) => {
            if n > u32::MAX as u64 {
                assert(n as nat * mult > u32::MAX) by (nonlinear_arith)
                    requires
                        n > u32::MAX,
                        mult >= 1,
                ;
                return None;
            }
            assert(n * mult <= 4294967295u64 * 1000000u64) by (nonlinear_arith)
                requires
                    n <= 4294967295u64,
                    mult <= 1000000,
            ;
            let a = n * mult;
            if a <= u32::MAX as u64 {
                Some(a as u32)
            } else {
                None
            }
        },
    }
}

/// Both amounts of groups `i` and `j`, when both are there and read.
pub open spec fn amounts_of(g: Seq<Option<Seq<char>>>, i: int, j: int) -> Option<(u32, u32)> {
    match (group(g, i), group(g, j)) {
        (Some(a), Some(b)) => match (amount_spec(a), amount_spec(b)) {
            (Some(x), Some(y)) => Some((x, y)),
            _ => None,
        },
        _ => None,
    }
}

/// The amounts in capture groups `i` and `j`, when both groups took part
/// in the match and both read as amounts.
pub fn amounts_exec(caps: &Vec<Option<String>>, i: usize, j: usize) -> (r: Option<(u32, u32)>)
    ensures
        r == amounts_of(caps.deep_view(), i as int, j as int),
{
    let a = match group_at(caps, i) {
        Some(a) => a,
        None => return None,
    };
    let b = match group_at(caps, j) {
        Some(b) => b,
        None => return None,
    };
    let x = match parse_amount(&a) {
        Some(x) => x,
        None => return None,
    };
    let y = match parse_amount(&b) {
        Some(y) => y,
        None => return None,
    };
    Some((x, y))
}

/// The Upwork labels removed before amounts are searched.
pub open spec fn upwork_cleaned(s: Seq<char>) -> Seq<char> {
    blanked(
        replace_all(
            replace_all(
                replace_all(
                    replace_all(
                        replace_all(
                            replace_all(s, "Hourly:"@, Seq::empty()),
                            "hourly:"@,
                            Seq::empty(),
                        ),
                        "Fixed-price:"@,
                        Seq::empty(),
                    ),
                    "fixed-price:"@,
                    Seq::empty(),
                ),
                "Fixed price:"@,
                Seq::empty(),
            ),
            "fixed price:"@,
            Seq::empty(),
        ),
    )
}

/// Hourly when the lower-cased text mentions "hour" or "/hr".
pub open spec fn upwork_period(s: Seq<char>) -> Option<Seq<char>> {
    let lower = unicode_lowercase(s);
    if contains_seq(lower, "hour"@) || contains_seq(lower, "/hr"@) {
        Some("hr"@)
    } else {
        None
    }
}

/// `parse_upwork_budget`: an amount range, else one amount, in US dollars.
pub open spec fn upwork_budget_spec(s: Seq<char>) -> Option<BudgetView> {
    let cleaned = upwork_cleaned(s);
    let period = upwork_period(s);
    match regex_captures_result(UPWORK_RANGE_RE@, cleaned) {
        Some(g) => match amounts_of(g, 1, 2) {
            Some((min, max)) => Some(make_budget(min, max, "USD"@, period)),
            None => None,
        },
        None => match regex_captures_result(UPWORK_SINGLE_RE@, cleaned) {
            Some(g) => match group(g, 1) {
                Some(a) => match amount_spec(a) {
                    Some(x) => Some(make_budget(x, x, "USD"@, period)),
                    None => None,
                },
                None => None,
            },
            None => None,
        },
    }
}

fn remove_all(v: Vec<char>, p: &str) -> (r: Vec<char>)
    ensures
        r@ == replace_all(v@, p@, Seq::empty()),
{
    let pat = chars_of(p);
    let empty: Vec<char> = Vec::new();
    assert(empty@ =~= Seq::<char>::empty());
    replace_all_exec(&v, &pat, &empty)
}

fn opt_chars_of(o: Option<&str>) -> (r: Option<Vec<char>>)
    ensures
        crate::pattern::opt_chars(r) == crate::budget::opt_str_view(o),
{
    match o {
        Some(s) => Some(chars_of(s)),
        None => None,
    }
}

/// Reads Upwork budget strings: "Hourly: $50-$100/hr", "Fixed-price: $5,000",
/// "$125 - $200/hr".
pub fn parse_upwork_budget(s: &str) -> (r: Option<Budget>)
    ensures
        opt_budget_view(r) == upwork_budget_spec(s@),
{
    let v = chars_of(s);
    let lower = to_lowercase_vec(&v);
    let hour = chars_of("hour");
    let hr = chars_of("/hr");
    let period: Option<&str> = if contains_exec(&lower, &hour) || contains_exec(&lower, &hr) {
        Some("hr")
    } else {
        None
    };
    let period_v = opt_chars_of(period);
    let c = remove_all(v, "Hourly:");
    let c = remove_all(c, "hourly:");
    let c = remove_all(c, "Fixed-price:");
    let c = remove_all(c, "fixed-price:");
    let c = remove_all(c, "Fixed price:");
    let c = remove_all(c, "fixed price:");
    let cleaned = blanked_vec(&c);
    let usd = chars_of("USD");
    match captures_in(UPWORK_RANGE_RE, &cleaned) {
        Some(caps) => match amounts_exec(&caps, 1, 2) {
            Some((min, max)) => Some(make_budget_exec(min, max, &usd, &period_v)),
            None => None,
        },
        None => match captures_in(UPWORK_SINGLE_RE, &cleaned) {
            Some(caps) => match group_at(&caps, 1) {
                Some(a) => match parse_amount(&a) {
                    Some(x) => Some(make_budget_exec(x, x, &usd, &period_v)),
                    None => None,
                },
                None => None,
            },
            None => None,
        },
    }
}

/// `parse_nofluff_budget`: a monthly range or amount with its currency.
pub open spec fn nofluff_budget_spec(s: Seq<char>) -> Option<BudgetView> {
    let cleaned = trim(blanked(s));
    match regex_captures_result(NOFLUFF_RANGE_RE@, cleaned) {
        Some(g) => match (amounts_of(g, 1, 2), group(g, 3)) {
            (Some((min, max)), Some(cur)) => Some(
                make_budget(min, max, ascii_upper_seq(cur), Some("mo"@)),
            ),
            _ => None,
        },
        None => match regex_captures_result(NOFLUFF_SINGLE_RE@, cleaned) {
            Some(g) => match (group(g, 1), group(g, 2)) {
                (Some(a), Some(cur)) => match amount_spec(a) {
                    Some(x) => Some(make_budget(x, x, ascii_upper_seq(cur), Some("mo"@))),
                    None => None,
                },
                _ => None,
            },
            None => None,
        },
    }
}

/// Reads NoFluffJobs budget strings: "7 069 – 9 426 EUR", "15 000 – 20 000 PLN".
/// "Salary Match" holds no amount and gives nothing.
pub fn parse_nofluff_budget(s: &str) -> (r: Option<Budget>)
    ensures
        opt_budget_view(r) == nofluff_budget_spec(s@),
{
    let cleaned = trim_vec(&blanked_vec(&chars_of(s)));
    let mo = Some(chars_of("mo"));
    match captures_in(NOFLUFF_RANGE_RE, &cleaned) {
        Some(caps) => {
            let amounts = amounts_exec(&caps, 1, 2);
            let cur = group_at(&caps, 3);
            match (amounts, cur) {
                (Some((min, max)), Some(c)) => Some(
                    make_budget_exec(min, max, &ascii_upper_vec(&c), &mo),
                ),
                _ => None,
            }
        },
        None => match captures_in(NOFLUFF_SINGLE_RE, &cleaned) {
            Some(caps) => {
                let a = group_at(&caps, 1);
                let cur = group_at(&caps, 2);
                match (a, cur) {
                    (Some(a), Some(c)) => match parse_amount(&a) {
                        Some(x) => Some(make_budget_exec(x, x, &ascii_upper_vec(&c), &mo)),
                        None => None,
                    },
                    _ => None,
                }
            },
            None => None,
        },
    }
}

/// `parse_efinancialcareers_budget`: a yearly range or amount behind a
/// currency code.
pub open spec fn efc_budget_spec(s: Seq<char>) -> Option<BudgetView> {
    let cleaned = blanked(s);
    match regex_captures_result(EFC_RANGE_RE@, cleaned) {
        Some(g) => match (amounts_of(g, 2, 3), group(g, 1)) {
            (Some((min, max)), Some(cur)) => Some(
                make_budget(min, max, ascii_upper_seq(cur), Some("year"@)),
            ),
            _ => None,
        },
        None => match regex_captures_result(EFC_SINGLE_RE@, cleaned) {
            Some(g) => match (group(g, 1), group(g, 2)) {
                (Some(cur), Some(a)) => match amount_spec(a) {
                    Some(x) => Some(make_budget(x, x, ascii_upper_seq(cur), Some("year"@))),
                    None => None,
                },
                _ => None,
            },
            None => None,
        },
    }
}

/// Reads eFinancialCareers budget strings: "USD120000 - USD140000 per annum".
pub fn parse_efinancialcareers_budget(s: &str) -> (r: Option<Budget>)
    ensures
        opt_budget_view(r) == efc_budget_spec(s@),
{
    let cleaned = blanked_vec(&chars_of(s));
    let year = Some(chars_of("year"));
    match captures_in(EFC_RANGE_RE, &cleaned) {
        Some(caps) => {
            let amounts = amounts_exec(&caps, 2, 3);
            let cur = group_at(&caps, 1);
            match (amounts, cur) {
                (Some((min, max)), Some(c)) => Some(
                    make_budget_exec(min, max, &ascii_upper_vec(&c), &year),
                ),
                _ => None,
            }
        },
        None => match captures_in(EFC_SINGLE_RE, &cleaned) {
            Some(caps) => {
                let cur = group_at(&caps, 1);
                let a = group_at(&caps, 2);
                match (cur, a) {
                    (Some(c), Some(a)) => match parse_amount(&a) {
                        Some(x) => Some(make_budget_exec(x, x, &ascii_upper_vec(&c), &year)),
                        None => None,
                    },
                    _ => None,
                }
            },
            None => None,
        },
    }
}


/// The currency of a budget.
pub open spec fn budget_currency(b: BudgetView) -> Seq<char> {
    match b {
        BudgetView::Range { currency, .. } => currency,
        BudgetView::Single { currency, .. } => currency,
    }
}

/// Upwork budgets are in US dollars, hourly exactly when the text speaks
/// of hours, and a range only when its ends differ.
pub proof fn lemma_upwork_budget_usd(s: Seq<char>)
    ensures
        upwork_budget_spec(s) matches Some(b) ==> budget_currency(b) == "USD"@
            && crate::budget::budget_period(b) == upwork_period(s) && crate::budget::ends_differ(b),
{
}

/// NoFluffJobs budgets are monthly, in the upper-cased currency code found.
pub proof fn lemma_nofluff_budget_monthly(s: Seq<char>)
    ensures
        nofluff_budget_spec(s) matches Some(b) ==> crate::budget::budget_period(b) == Some("mo"@)
            && crate::budget::ends_differ(b),
{
}

/// eFinancialCareers budgets are yearly.
pub proof fn lemma_efc_budget_yearly(s: Seq<char>)
    ensures
        efc_budget_spec(s) matches Some(b) ==> crate::budget::budget_period(b) == Some("year"@)
            && crate::budget::ends_differ(b),
{
}
} // verus!
