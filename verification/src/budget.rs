//! Parsed budget values: "7 069 – 9 426 EUR" becomes `7069 - 9426 EUR/mo`.

use crate::pattern::{captures_in, group, group_at, opt_chars, regex_captures_result};
use crate::text::{
    ascii_lower_seq, ascii_lower_vec, ascii_upper_seq, ascii_upper_vec, chars_of, contains_exec,
    contains_seq, dec, ends_with, ends_with_exec, keep_digits, keep_digits_vec, last_index_of,
    last_index_of_exec, parse_digits_u32, parse_digits_u32_exec, push_all, push_decimal,
    push_str, slice_vec, starts_with, starts_with_exec, string_of, trim, trim_vec,
};
use vstd::prelude::*;

verus! {

/// Currency-code-prefixed range, e.g. "USD120000 - USD140000".
pub const CODE_PREFIX_RANGE_RE: &'static str =
    r"(?i)\b(USD|EUR|GBP|PLN|CHF)\s*(\d[\d,]*[kKmM]?)\s*-\s*(?:USD|EUR|GBP|PLN|CHF)\s*(\d[\d,]*[kKmM]?)\b";

/// One number with optional fraction and k/M suffix.
pub const NUMBER_RE: &'static str = r"(\d[\d\s,]*)(?:\.(\d+))?\s*([kKmM])?\b";

/// Range whose both ends carry a currency code.
pub const CURRENCY_CODE_RANGE_RE: &'static str =
    r"(?i)(USD|EUR|GBP|PLN|CHF)\s*(\d[\d,]*[kKmM]?)\s*-\s*(USD|EUR|GBP|PLN|CHF)\s*(\d[\d,]*[kKmM]?)";

/// Range "a - b", "a – b" or "a to b" with optional currency marks.
pub const RANGE_RE: &'static str =
    r"(?:\$|\x{20AC}|\x{A3}|\b(?:USD|EUR|GBP|PLN|CHF)\b\s*)?(\d[\d\s,.$\x{A3}\x{20AC}]*[kKmM]?)\s*(?:\x{2013}|-|\s+to\s+)\s*(?:\$|\x{20AC}|\x{A3}|\b(?:USD|EUR|GBP|PLN|CHF)\b\s*)?(\d[\d\s,.$\x{A3}\x{20AC}]*[kKmM]?)\b";

/// Parsed budget value with consistent formatting.
#[derive(Debug, Clone)]
pub enum Budget {
    Range { min: u32, max: u32, currency: String, period: Option<String> },
    Single { amount: u32, currency: String, period: Option<String> },
}

/// A budget over character sequences.
pub enum BudgetView {
    Range { min: u32, max: u32, currency: Seq<char>, period: Option<Seq<char>> },
    Single { amount: u32, currency: Seq<char>, period: Option<Seq<char>> },
}

pub open spec fn opt_string_view(o: Option<String>) -> Option<Seq<char>> {
    match o {
        Some(s) => Some(s@),
        None => None,
    }
}

pub open spec fn opt_str_view(o: Option<&str>) -> Option<Seq<char>> {
    match o {
        Some(s) => Some(s@),
        None => None,
    }
}

impl View for Budget {
    type V = BudgetView;

    open spec fn view(&self) -> BudgetView {
        match self {
            Budget::Range { min, max, currency, period } => BudgetView::Range {
                min: *min,
                max: *max,
                currency: currency@,
                period: opt_string_view(*period),
            },
            Budget::Single { amount, currency, period } => BudgetView::Single {
                amount: *amount,
                currency: currency@,
                period: opt_string_view(*period),
            },
        }
    }
}

/// A single amount when both ends agree, a range otherwise.
pub open spec fn make_budget(
    min: u32,
    max: u32,
    currency: Seq<char>,
    period: Option<Seq<char>>,
) -> BudgetView {
    if min == max {
        BudgetView::Single { amount: min, currency, period }
    } else {
        BudgetView::Range { min, max, currency, period }
    }
}

/// The explicit period wins over the default one.
pub open spec fn resolve_period(explicit: Option<Seq<char>>, default: Option<Seq<char>>) -> Option<
    Seq<char>,
> {
    match explicit {
        Some(p) => Some(p),
        None => default,
    }
}

/// Text form: "min - max CUR/period" or "amount CUR/period".
pub open spec fn budget_text(b: BudgetView) -> Seq<char> {
    match b {
        BudgetView::Range { min, max, currency, period } => dec(min as nat) + seq![' ', '-', ' ']
            + dec(max as nat) + seq![' '] + currency + period_suffix(period),
        BudgetView::Single { amount, currency, period } => dec(amount as nat) + seq![' ']
            + currency + period_suffix(period),
    }
}

pub open spec fn period_suffix(period: Option<Seq<char>>) -> Seq<char> {
    match period {
        Some(p) => seq!['/'] + p,
        None => Seq::empty(),
    }
}

/// No-break and figure spaces become plain spaces.
pub open spec fn normalize_space_char(c: char) -> char {
    if c == '\u{a0}' || c == '\u{2007}' || c == '\u{202f}' {
        ' '
    } else {
        c
    }
}

pub open spec fn normalize_spaces(s: Seq<char>) -> Seq<char> {
    s.map_values(|c: char| normalize_space_char(c))
}

/// Splits off the text after the last '/', trimmed, as the period.
pub open spec fn split_period(s: Seq<char>) -> (Seq<char>, Option<Seq<char>>) {
    let i = last_index_of(s, '/');
    let base = if i >= 0 {
        s.subrange(0, i)
    } else {
        s
    };
    let period = if i >= 0 {
        trim(s.subrange(i + 1, s.len() as int))
    } else {
        Seq::empty()
    };
    (trim(base), if period.len() == 0 {
        None
    } else {
        Some(period)
    })
}

pub open spec fn pow10(n: nat) -> nat
    decreases n,
{
    if n == 0 {
        1
    } else {
        10 * pow10((n - 1) as nat)
    }
}

/// Bytes of the UTF-8 encoding of `c`.
pub open spec fn utf8_char_len(c: char) -> nat {
    if (c as u32) < 0x80 {
        1
    } else if (c as u32) < 0x800 {
        2
    } else if (c as u32) < 0x10000 {
        3
    } else {
        4
    }
}

/// Bytes of the UTF-8 encoding of `s` (`str::len`).
pub open spec fn utf8_len(s: Seq<char>) -> nat
    decreases s.len(),
{
    if s.len() == 0 {
        0
    } else {
        utf8_len(s.drop_last()) + utf8_char_len(s.last())
    }
}

/// 1000 for a "k" suffix, a million for "m" (either case), else 1.
pub open spec fn unit_multiplier(m: Option<Seq<char>>) -> nat {
    match m {
        Some(x) => if ascii_lower_seq(x) == seq!['k'] {
            1000
        } else if ascii_lower_seq(x) == seq!['m'] {
            1000000
        } else {
            1
        },
        None => 1,
    }
}

/// The number that the groups of `NUMBER_RE` describe: integer digits,
/// optional fraction, optional k/M multiplier, floored to a whole number.
pub open spec fn number_from_groups(g: Seq<Option<Seq<char>>>) -> Option<u32> {
    match group(g, 1) {
        None => None,
        Some(int_part) => match parse_digits_u32(keep_digits(int_part)) {
            None => None,
            Some(integer) => {
                let frac_digits: nat = match group(g, 2) {
                    Some(f) => utf8_len(f),
                    None => 0,
                };
                let fraction: nat = match group(g, 2) {
                    Some(f) => match parse_digits_u32(keep_digits(f)) {
                        Some(x) => x as nat,
                        None => 0,
                    },
                    None => 0,
                };
                let mult = unit_multiplier(group(g, 3));
                let value: nat = if frac_digits == 0 {
                    integer as nat * mult
                } else {
                    ((integer as nat * pow10(frac_digits) + fraction) * mult / pow10(
                        frac_digits,
                    )) as nat
                };
                if value <= u32::MAX {
                    Some(value as u32)
                } else {
                    None
                }
            },
        },
    }
}

/// `Budget::parse_number`: first number in `s` after space normalization.
pub open spec fn parse_number_spec(s: Seq<char>) -> Option<u32> {
    match regex_captures_result(NUMBER_RE@, trim(normalize_spaces(s))) {
        None => None,
        Some(g) => number_from_groups(g),
    }
}

/// `Budget::parse_range`: a (min, max) pair, or the same number twice.
pub open spec fn parse_range_spec(s: Seq<char>) -> Option<(u32, u32)> {
    match regex_captures_result(CURRENCY_CODE_RANGE_RE@, s) {
        Some(g) => match (group(g, 2), group(g, 4)) {
            (Some(a), Some(b)) => match (parse_number_spec(a), parse_number_spec(b)) {
                (Some(x), Some(y)) => Some((x, y)),
                _ => None,
            },
            _ => None,
        },
        None => match regex_captures_result(RANGE_RE@, s) {
            Some(g) => match (group(g, 1), group(g, 2)) {
                (Some(a), Some(b)) => match (parse_number_spec(a), parse_number_spec(b)) {
                    (Some(x), Some(y)) => Some((x, y)),
                    _ => None,
                },
                _ => None,
            },
            None => match parse_number_spec(s) {
                Some(x) => Some((x, x)),
                None => None,
            },
        },
    }
}


/// `Budget::parse_code_prefix_range` on normalized text.
pub open spec fn code_prefix_range_spec(s: Seq<char>, default: Option<Seq<char>>) -> Option<
    BudgetView,
> {
    let (base, period) = split_period(s);
    match regex_captures_result(CODE_PREFIX_RANGE_RE@, trim(base)) {
        None => None,
        Some(g) => code_prefix_from_groups(g, period, default),
    }
}

/// The budget read from the groups of a currency-code range match: the
/// code (upper-cased) in group 1, the two amounts in groups 2 and 3, and
/// `period` or else `default` as the period.
pub open spec fn code_prefix_from_groups(
    g: Seq<Option<Seq<char>>>,
    period: Option<Seq<char>>,
    default: Option<Seq<char>>,
) -> Option<BudgetView> {
    match (group(g, 1), group(g, 2), group(g, 3)) {
        (Some(cur), Some(a), Some(b)) => match (parse_number_spec(a), parse_number_spec(b)) {
            (Some(min), Some(max)) => Some(
                make_budget(min, max, ascii_upper_seq(cur), resolve_period(period, default)),
            ),
            _ => None,
        },
        _ => None,
    }
}

/// `Budget::parse_symbol_prefix` on normalized text: "$..." is USD, "€..." EUR.
pub open spec fn symbol_prefix_spec(s: Seq<char>, default: Option<Seq<char>>) -> Option<
    BudgetView,
> {
    let (base, period) = split_period(s);
    let currency = if starts_with(base, seq!['$']) {
        Some(seq!['U', 'S', 'D'])
    } else if starts_with(base, seq!['\u{20ac}']) {
        Some(seq!['E', 'U', 'R'])
    } else {
        None
    };
    match currency {
        None => None,
        Some(cur) => match parse_range_spec(base) {
            Some((min, max)) => Some(make_budget(min, max, cur, resolve_period(period, default))),
            None => None,
        },
    }
}

/// The currency codes tried, in order, as a suffix or prefix.
pub open spec fn suffix_currencies() -> Seq<Seq<char>> {
    seq![
        seq!['E', 'U', 'R'],
        seq!['P', 'L', 'N'],
        seq!['U', 'S', 'D'],
        seq!['G', 'B', 'P'],
        seq!['C', 'H', 'F'],
    ]
}

/// `base` without the currency `cur` at its end or, failing that, its start.
pub open spec fn strip_currency(base: Seq<char>, cur: Seq<char>) -> Seq<char> {
    let t = trim(base);
    if ends_with(t, cur) {
        t.subrange(0, t.len() - cur.len())
    } else if starts_with(t, cur) {
        t.subrange(cur.len() as int, t.len() as int)
    } else {
        t
    }
}

/// The first currency from index `k` on that `base` contains decides.
pub open spec fn suffix_currency_from(
    base: Seq<char>,
    period: Option<Seq<char>>,
    default: Option<Seq<char>>,
    k: int,
) -> Option<BudgetView>
    decreases 5 - k,
{
    if k < 0 || k >= 5 {
        None
    } else {
        let cur = suffix_currencies()[k];
        if contains_seq(base, cur) {
            match parse_range_spec(trim(strip_currency(base, cur))) {
                Some((min, max)) => Some(
                    make_budget(min, max, cur, resolve_period(period, default)),
                ),
                None => None,
            }
        } else {
            suffix_currency_from(base, period, default, k + 1)
        }
    }
}

/// `Budget::parse_suffix_currency` on normalized text.
pub open spec fn suffix_currency_spec(s: Seq<char>, default: Option<Seq<char>>) -> Option<
    BudgetView,
> {
    let (base, period) = split_period(s);
    suffix_currency_from(base, period, default, 0)
}

/// `Budget::parse`: the first of the three readings that succeeds.
pub open spec fn budget_parse_spec(s: Seq<char>, default: Option<Seq<char>>) -> Option<
    BudgetView,
> {
    let n = normalize_spaces(s);
    match code_prefix_range_spec(n, default) {
        Some(b) => Some(b),
        None => match symbol_prefix_spec(n, default) {
            Some(b) => Some(b),
            None => suffix_currency_spec(n, default),
        },
    }
}

pub open spec fn opt_budget_view(o: Option<Budget>) -> Option<BudgetView> {
    match o {
        Some(b) => Some(b@),
        None => None,
    }
}


pub proof fn lemma_utf8_len_bounds(s: Seq<char>)
    ensures
        utf8_len(s) >= s.len(),
        utf8_len(s) <= 4 * s.len(),
    decreases s.len(),
{
    if s.len() > 0 {
        lemma_utf8_len_bounds(s.drop_last());
    }
}

proof fn lemma_pow10_positive(n: nat)
    ensures
        pow10(n) >= 1,
    decreases n,
{
    if n > 0 {
        lemma_pow10_positive((n - 1) as nat);
    }
}

proof fn lemma_pow10_mono(m: nat, n: nat)
    requires
        m <= n,
    ensures
        pow10(m) <= pow10(n),
    decreases n,
{
    if m < n {
        lemma_pow10_mono(m, (n - 1) as nat);
        lemma_pow10_positive((n - 1) as nat);
    }
}

/// Bytes of the UTF-8 encoding of `v`, for fewer than 16 characters.
fn utf8_len_small(v: &Vec<char>) -> (r: u64)
    requires
        v.len() < 16,
    ensures
        r == utf8_len(v@),
{
    let mut total: u64 = 0;
    let mut i: usize = 0;
    while i < v.len()
        invariant
            i <= v.len() < 16,
            total == utf8_len(v@.subrange(0, i as int)),
        decreases v.len() - i,
    {
        proof {
            assert(v@.subrange(0, i + 1).drop_last() =~= v@.subrange(0, i as int));
            lemma_utf8_len_bounds(v@.subrange(0, i as int));
        }
        let c = v[i] as u32;
        let n: u64 = if c < 0x80 {
            1
        } else if c < 0x800 {
            2
        } else if c < 0x10000 {
            3
        } else {
            4
        };
        total = total + n;
        i = i + 1;
    }
    assert(v@.subrange(0, i as int) =~= v@);
    total
}

/// 10 to the power `n`, for `n` below 16.
fn pow10_small(n: u64) -> (r: u64)
    requires
        n < 16,
    ensures
        r == pow10(n as nat),
        r <= 1_000_000_000_000_000,
{
    let mut r: u64 = 1;
    let mut i: u64 = 0;
    proof {
        reveal_with_fuel(pow10, 16);
    }
    while i < n
        invariant
            i <= n < 16,
            r == pow10(i as nat),
            pow10(15) == 1_000_000_000_000_000,
        decreases n - i,
    {
        proof {
            lemma_pow10_mono(i as nat, 14);
            reveal_with_fuel(pow10, 16);
        }
        r = r * 10;
        i = i + 1;
    }
    proof {
        lemma_pow10_mono(n as nat, 15);
    }
    r
}

/// The k/M multiplier a unit group names.
pub fn unit_multiplier_exec(m: &Option<Vec<char>>) -> (r: u64)
    ensures
        r == unit_multiplier(opt_chars(*m)),
        1 <= r <= 1000000,
{
    match m {
        Some(x) => {
            let l = ascii_lower_vec(x);
            if l.len() == 1 && l[0] == 'k' {
                assert(l@ =~= seq!['k']);
                1000
            } else if l.len() == 1 && l[0] == 'm' {
                assert(l@ =~= seq!['m']);
                assert(l@ != seq!['k']);
                1000000
            } else {
                assert(l@ != seq!['k']) by {
                    if l@ == seq!['k'] {
                        assert(l@[0] == 'k');
                    }
                }
                assert(l@ != seq!['m']) by {
                    if l@ == seq!['m'] {
                        assert(l@[0] == 'm');
                    }
                }
                1
            }
        },
        None => 1,
    }
}

/// The number the groups of a `NUMBER_RE` match describe.
pub fn number_from_caps(caps: &Vec<Option<String>>) -> (r: Option<u32>)
    ensures
        r == number_from_groups(caps.deep_view()),
{
    let int_part = match group_at(caps, 1) {
        Some(v) => v,
        None => return None,
    };
    let idigits = keep_digits_vec(&int_part);
    let integer = match parse_digits_u32_exec(&idigits) {
        Some(x) => x,
        None => return None,
    };
    let frac = group_at(caps, 2);
    let mult = unit_multiplier_exec(&group_at(caps, 3));
    assert(integer as u64 * mult <= 4294967295u64 * 1000000u64) by (nonlinear_arith)
        requires
            mult <= 1000000,
    ;
    let a: u64 = integer as u64 * mult;
    match frac {
        None => {
            if a <= u32::MAX as u64 {
                Some(a as u32)
            } else {
                None
            }
        },
        Some(f) => {
            let fdigits = keep_digits_vec(&f);
            let fraction: u64 = match parse_digits_u32_exec(&fdigits) {
                Some(x) => x as u64,
                None => 0,
            };
            proof {
                lemma_utf8_len_bounds(f@);
            }
            if f.len() == 0 {
                if a <= u32::MAX as u64 {
                    return Some(a as u32);
                } else {
                    return None;
                }
            }
            assert(fraction * mult <= 4294967295u64 * 1000000u64) by (nonlinear_arith)
                requires
                    mult <= 1000000,
                    fraction <= 4294967295u64,
            ;
            let b: u64 = fraction * mult;
            let ghost p_big: nat = pow10(utf8_len(f@));
            let fd: u64 = if f.len() >= 16 {
                16
            } else {
                utf8_len_small(&f)
            };
            proof {
                lemma_utf8_len_bounds(f@);
                assert(fd >= 16 <==> utf8_len(f@) >= 16);
                assert(fd < 16 ==> fd == utf8_len(f@));
            }
            let q: u64 = if fd >= 16 {
                proof {
                    lemma_pow10_mono(16, utf8_len(f@));
                    reveal_with_fuel(pow10, 17);
                    assert(b < p_big);
                    assert(b as nat / p_big == 0) by (nonlinear_arith)
                        requires
                            b < p_big,
                    ;
                }
                0
            } else {
                let p = pow10_small(fd);
                proof {
                    lemma_pow10_positive(fd as nat);
                }
                b / p
            };
            proof {
                lemma_pow10_positive(utf8_len(f@));
                let i = integer as nat;
                let fr = fraction as nat;
                let m = mult as nat;
                assert(((i * p_big + fr) * m) as nat / p_big == i * m + (fr * m) / p_big)
                    by (nonlinear_arith)
                    requires
                        p_big >= 1,
                ;
            }
            let value = a + q;
            if value <= u32::MAX as u64 {
                Some(value as u32)
            } else {
                None
            }
        },
    }
}

/// The characters of `v` with no-break and figure spaces made plain.
pub fn normalize_vec(v: &Vec<char>) -> (r: Vec<char>)
    ensures
        r@ == normalize_spaces(v@),
{
    let mut r: Vec<char> = Vec::new();
    let mut i: usize = 0;
    while i < v.len()
        invariant
            i <= v.len(),
            r@ == normalize_spaces(v@.subrange(0, i as int)),
        decreases v.len() - i,
    {
        let c = v[i];
        let d = if c == '\u{a0}' || c == '\u{2007}' || c == '\u{202f}' {
            ' '
        } else {
            c
        };
        r.push(d);
        i = i + 1;
        assert(normalize_spaces(v@.subrange(0, i as int)) =~= normalize_spaces(
            v@.subrange(0, i - 1),
        ).push(normalize_space_char(c)));
    }
    assert(v@.subrange(0, i as int) =~= v@);
    r
}

/// Splits `v` at its last '/' into trimmed base and non-empty period.
pub fn split_period_vec(v: &Vec<char>) -> (r: (Vec<char>, Option<Vec<char>>))
    ensures
        (r.0@, opt_chars(r.1)) == split_period(v@),
{
    match last_index_of_exec(v, '/') {
        Some(i) => {
            let base = slice_vec(v, 0, i);
            let rest = slice_vec(v, i + 1, v.len());
            let p = trim_vec(&rest);
            let b = trim_vec(&base);
            if p.len() == 0 {
                (b, None)
            } else {
                (b, Some(p))
            }
        },
        None => {
            let b = trim_vec(v);
            let ghost e = Seq::<char>::empty();
            assert(e.len() == 0);
            (b, None)
        },
    }
}

/// `Budget::parse_number` on characters.
pub fn parse_number_vec(v: &Vec<char>) -> (r: Option<u32>)
    ensures
        r == parse_number_spec(v@),
{
    let n = normalize_vec(v);
    let t = trim_vec(&n);
    match captures_in(NUMBER_RE, &t) {
        None => None,
        Some(caps) => number_from_caps(&caps),
    }
}

/// The numbers in capture groups `i` and `j`, when both groups took part
/// in the match and both read as numbers.
pub fn numbers_of_groups(caps: &Vec<Option<String>>, i: usize, j: usize) -> (r: Option<(u32, u32)>)
    ensures
        r == (match (group(caps.deep_view(), i as int), group(caps.deep_view(), j as int)) {
            (Some(a), Some(b)) => match (parse_number_spec(a), parse_number_spec(b)) {
                (Some(x), Some(y)) => Some((x, y)),
                _ => None,
            },
            _ => None,
        }),
{
    let a = match group_at(caps, i) {
        Some(a) => a,
        None => return None,
    };
    let b = match group_at(caps, j) {
        Some(b) => b,
        None => return None,
    };
    let x = match parse_number_vec(&a) {
        Some(x) => x,
        None => return None,
    };
    let y = match parse_number_vec(&b) {
        Some(y) => y,
        None => return None,
    };
    Some((x, y))
}

/// `Budget::parse_range` on characters.
pub fn parse_range_vec(v: &Vec<char>) -> (r: Option<(u32, u32)>)
    ensures
        r == parse_range_spec(v@),
{
    match captures_in(CURRENCY_CODE_RANGE_RE, v) {
        Some(caps) => numbers_of_groups(&caps, 2, 4),
        None => match captures_in(RANGE_RE, v) {
            Some(caps) => numbers_of_groups(&caps, 1, 2),
            None => match parse_number_vec(v) {
                Some(x) => Some((x, x)),
                None => None,
            },
        },
    }
}


fn opt_string_of(o: &Option<Vec<char>>) -> (r: Option<String>)
    ensures
        opt_string_view(r) == opt_chars(*o),
{
    match o {
        Some(v) => Some(string_of(v)),
        None => None,
    }
}

/// The period a budget carries: the one written in the text, else the
/// caller's default.
pub fn resolve_period_exec(explicit: Option<Vec<char>>, default: &Option<Vec<char>>) -> (r: Option<
    Vec<char>,
>)
    ensures
        opt_chars(r) == resolve_period(opt_chars(explicit), opt_chars(*default)),
{
    match explicit {
        Some(p) => Some(p),
        None => match default {
            Some(d) => Some(slice_vec(d, 0, d.len())),
            None => None,
        },
    }
}

/// A single amount when `min == max`, else a range, with the currency and
/// period given.
pub fn make_budget_exec(min: u32, max: u32, currency: &Vec<char>, period: &Option<Vec<char>>) -> (r:
    Budget)
    ensures
        r@ == make_budget(min, max, currency@, opt_chars(*period)),
{
    if min == max {
        Budget::Single {
            amount: min,
            currency: string_of(currency),
            period: opt_string_of(period),
        }
    } else {
        Budget::Range {
            min,
            max,
            currency: string_of(currency),
            period: opt_string_of(period),
        }
    }
}

/// A range written after a currency code ("USD 50-100/hr").
pub fn code_prefix_range_vec(s: &Vec<char>, default: &Option<Vec<char>>) -> (r: Option<Budget>)
    ensures
        opt_budget_view(r) == code_prefix_range_spec(s@, opt_chars(*default)),
{
    let (base, period) = split_period_vec(s);
    let t = trim_vec(&base);
    let caps = match captures_in(CODE_PREFIX_RANGE_RE, &t) {
        Some(c) => c,
        None => return None,
    };
    code_prefix_from_caps(&caps, period, default)
}

/// The budget read from the captures of a currency-code range match.
pub fn code_prefix_from_caps(
    caps: &Vec<Option<String>>,
    period: Option<Vec<char>>,
    default: &Option<Vec<char>>,
) -> (r: Option<Budget>)
    ensures
        opt_budget_view(r) == code_prefix_from_groups(
            caps.deep_view(),
            opt_chars(period),
            opt_chars(*default),
        ),
{
    let cur = match group_at(caps, 1) {
        Some(c) => c,
        None => return None,
    };
    let (min, max) = match numbers_of_groups(caps, 2, 3) {
        Some(p) => p,
        None => return None,
    };
    let upper = ascii_upper_vec(&cur);
    let per = resolve_period_exec(period, default);
    Some(make_budget_exec(min, max, &upper, &per))
}

/// An amount or range written after `$` (USD) or `€` (EUR).
pub fn symbol_prefix_vec(s: &Vec<char>, default: &Option<Vec<char>>) -> (r: Option<Budget>)
    ensures
        opt_budget_view(r) == symbol_prefix_spec(s@, opt_chars(*default)),
{
    let (base, period) = split_period_vec(s);
    let dollar = vec!['$'];
    let euro = vec!['\u{20ac}'];
    assert(dollar@ =~= seq!['$']);
    assert(euro@ =~= seq!['\u{20ac}']);
    let cur = if starts_with_exec(&base, &dollar) {
        let c = vec!['U', 'S', 'D'];
        assert(c@ =~= seq!['U', 'S', 'D']);
        c
    } else if starts_with_exec(&base, &euro) {
        let c = vec!['E', 'U', 'R'];
        assert(c@ =~= seq!['E', 'U', 'R']);
        c
    } else {
        return None;
    };
    let (min, max) = match parse_range_vec(&base) {
        Some(p) => p,
        None => return None,
    };
    let per = resolve_period_exec(period, default);
    Some(make_budget_exec(min, max, &cur, &per))
}

/// The trimmed text with the currency `cur` taken off its end, or else off
/// its start.
pub fn strip_currency_vec(base: &Vec<char>, cur: &Vec<char>) -> (r: Vec<char>)
    ensures
        r@ == strip_currency(base@, cur@),
{
    let t = trim_vec(base);
    if ends_with_exec(&t, cur) {
        slice_vec(&t, 0, t.len() - cur.len())
    } else if starts_with_exec(&t, cur) {
        slice_vec(&t, cur.len(), t.len())
    } else {
        t
    }
}

/// An amount or range written with a currency code before or after it
/// ("7 069 – 9 426 EUR"); the first of EUR, PLN, USD, GBP and CHF that the
/// text contains decides.
pub fn suffix_currency_vec(s: &Vec<char>, default: &Option<Vec<char>>) -> (r: Option<Budget>)
    ensures
        opt_budget_view(r) == suffix_currency_spec(s@, opt_chars(*default)),
{
    let (base, period) = split_period_vec(s);
    let currencies: Vec<Vec<char>> = vec![
        vec!['E', 'U', 'R'],
        vec!['P', 'L', 'N'],
        vec!['U', 'S', 'D'],
        vec!['G', 'B', 'P'],
        vec!['C', 'H', 'F'],
    ];
    assert(currencies@.len() == 5);
    assert forall|j: int| 0 <= j < 5 implies currencies@[j]@ == suffix_currencies()[j] by {
        assert(currencies@[j]@ =~= suffix_currencies()[j]);
    }
    let mut k: usize = 0;
    while k < 5
        invariant
            k <= 5,
            currencies@.len() == 5,
            forall|j: int| 0 <= j < 5 ==> currencies@[j]@ == suffix_currencies()[j],
            (base@, opt_chars(period)) == split_period(s@),
            suffix_currency_from(base@, opt_chars(period), opt_chars(*default), k as int)
                == suffix_currency_from(base@, opt_chars(period), opt_chars(*default), 0),
        decreases 5 - k,
    {
        let cur = &currencies[k];
        assert(cur@ == suffix_currencies()[k as int]);
        if contains_exec(&base, cur) {
            let stripped = strip_currency_vec(&base, cur);
            let st = trim_vec(&stripped);
            let (min, max) = match parse_range_vec(&st) {
                Some(p) => p,
                None => return None,
            };
            let per = resolve_period_exec(period, default);
            return Some(make_budget_exec(min, max, cur, &per));
        }
        k = k + 1;
    }
    None
}

impl Budget {
    /// Parse budget strings like "7 069 – 9 426 EUR" or "$50-$100/hr".
    /// `default_period` is applied when the string does not already specify one.
    pub fn parse(s: &str, default_period: Option<&str>) -> (r: Option<Budget>)
        ensures
            opt_budget_view(r) == budget_parse_spec(s@, opt_str_view(default_period)),
    {
        let v = chars_of(s);
        let n = normalize_vec(&v);
        let default: Option<Vec<char>> = match default_period {
            Some(p) => Some(chars_of(p)),
            None => None,
        };
        match code_prefix_range_vec(&n, &default) {
            Some(b) => Some(b),
            None => match symbol_prefix_vec(&n, &default) {
                Some(b) => Some(b),
                None => suffix_currency_vec(&n, &default),
            },
        }
    }

    /// Text form of the budget, e.g. "50 - 100 USD/hr" or "5000 USD".
    pub fn to_string(&self) -> (r: String)
        ensures
            r@ == budget_text(self@),
    {
        let mut out: Vec<char> = Vec::new();
        let (cur, period) = match self {
            Budget::Range { min, max, currency, period } => {
                push_decimal(&mut out, *min as u64);
                out.push(' ');
                out.push('-');
                out.push(' ');
                push_decimal(&mut out, *max as u64);
                (currency, period)
            },
            Budget::Single { amount, currency, period } => {
                push_decimal(&mut out, *amount as u64);
                (currency, period)
            },
        };
        out.push(' ');
        push_str(&mut out, cur.as_str());
        match period {
            Some(p) => {
                out.push('/');
                push_str(&mut out, p.as_str());
            },
            None => {},
        }
        proof {
            match self@ {
                BudgetView::Range { min, max, currency, period } => {
                    assert(out@ =~= budget_text(self@));
                },
                BudgetView::Single { amount, currency, period } => {
                    assert(out@ =~= budget_text(self@));
                },
            }
        }
        string_of(&out)
    }
}


/// The period of a budget.
pub open spec fn budget_period(b: BudgetView) -> Option<Seq<char>> {
    match b {
        BudgetView::Range { period, .. } => period,
        BudgetView::Single { period, .. } => period,
    }
}

/// A budget is a range only when its ends differ.
pub open spec fn ends_differ(b: BudgetView) -> bool {
    match b {
        BudgetView::Range { min, max, .. } => min != max,
        BudgetView::Single { .. } => true,
    }
}

proof fn lemma_suffix_from_laws(
    base: Seq<char>,
    period: Option<Seq<char>>,
    default: Option<Seq<char>>,
    k: int,
)
    ensures
        suffix_currency_from(base, period, default, k) matches Some(b) ==> budget_period(b)
            == resolve_period(period, default) && ends_differ(b),
    decreases 5 - k,
{
    if 0 <= k < 5 && !contains_seq(base, suffix_currencies()[k]) {
        lemma_suffix_from_laws(base, period, default, k + 1);
    }
}

/// The period a text names after its last '/' wins; the default period
/// applies when it names none. This holds of every budget `Budget::parse`
/// reads, whichever of its readings succeeds.
pub proof fn lemma_parse_period(s: Seq<char>, default: Option<Seq<char>>)
    ensures
        budget_parse_spec(s, default) matches Some(b) ==> budget_period(b) == resolve_period(
            split_period(normalize_spaces(s)).1,
            default,
        ),
{
    lemma_suffix_from_laws(split_period(normalize_spaces(s)).0, split_period(normalize_spaces(s)).1, default, 0);
}

/// `Budget::parse` gives a range only when its two ends differ: equal ends
/// make a single amount.
pub proof fn lemma_parse_range_ends_differ(s: Seq<char>, default: Option<Seq<char>>)
    ensures
        budget_parse_spec(s, default) matches Some(b) ==> ends_differ(b),
{
    lemma_suffix_from_laws(split_period(normalize_spaces(s)).0, split_period(normalize_spaces(s)).1, default, 0);
}

/// The suffix reading walks from index `j` on to the code at index `k`,
/// which is the first the text contains.
proof fn lemma_suffix_reaches(
    base: Seq<char>,
    period: Option<Seq<char>>,
    default: Option<Seq<char>>,
    j: int,
    k: int,
)
    requires
        0 <= j <= k < 5,
        forall|m: int| j <= m < k ==> !contains_seq(base, #[trigger] suffix_currencies()[m]),
    ensures
        suffix_currency_from(base, period, default, j) == suffix_currency_from(
            base,
            period,
            default,
            k,
        ),
    decreases k - j,
{
    if j < k {
        lemma_suffix_reaches(base, period, default, j + 1, k);
    }
}

/// Every one of the five currency codes is read as a suffix (or prefix)
/// currency: when the code at index `k` of EUR, PLN, USD, GBP, CHF is the
/// first of them that the text before the period contains, the suffix
/// reading is the amount or range that the rest of the text gives, in that
/// currency, with the written period or else the default one; and a text
/// that contains none of the five codes has no suffix reading.
pub proof fn lemma_suffix_codes(s: Seq<char>, default: Option<Seq<char>>, k: int)
    requires
        0 <= k < 5,
    ensures
        ({
            let codes = seq![
                seq!['E', 'U', 'R'],
                seq!['P', 'L', 'N'],
                seq!['U', 'S', 'D'],
                seq!['G', 'B', 'P'],
                seq!['C', 'H', 'F'],
            ];
            let base = split_period(s).0;
            let period = match split_period(s).1 {
                Some(p) => Some(p),
                None => default,
            };
            &&& (contains_seq(base, codes[k]) && forall|m: int|
                0 <= m < k ==> !contains_seq(base, #[trigger] codes[m])) ==> suffix_currency_spec(
                s,
                default,
            ) == match parse_range_spec(trim(strip_currency(base, codes[k]))) {
                Some((a, b)) => Some(
                    if a == b {
                        BudgetView::Single { amount: a, currency: codes[k], period }
                    } else {
                        BudgetView::Range { min: a, max: b, currency: codes[k], period }
                    },
                ),
                None => None,
            }
            &&& (forall|m: int| 0 <= m < 5 ==> !contains_seq(base, #[trigger] codes[m]))
                ==> suffix_currency_spec(s, default) is None
        }),
{
    let codes = seq![
        seq!['E', 'U', 'R'],
        seq!['P', 'L', 'N'],
        seq!['U', 'S', 'D'],
        seq!['G', 'B', 'P'],
        seq!['C', 'H', 'F'],
    ];
    assert(suffix_currencies() == codes);
    let base = split_period(s).0;
    let period = split_period(s).1;
    if contains_seq(base, codes[k]) && forall|m: int|
        0 <= m < k ==> !contains_seq(base, #[trigger] codes[m]) {
        lemma_suffix_reaches(base, period, default, 0, k);
    }
    if forall|m: int| 0 <= m < 5 ==> !contains_seq(base, #[trigger] codes[m]) {
        assert(!contains_seq(base, codes[4]));
        lemma_suffix_reaches(base, period, default, 0, 4);
        assert(suffix_currency_from(base, period, default, 5) is None);
    }
}

} // verus!
