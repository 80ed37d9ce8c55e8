//! Character-sequence utilities: conversion between `str`/`String` and
//! `Vec<char>`, whitespace trimming, ASCII case mapping and decimal rendering.

use crate::budget::opt_string_view;
use vstd::prelude::*;

verus! {

/// Unicode `White_Space` property, the set `char::is_whitespace` tests.
pub open spec fn is_white_space(c: char) -> bool {
    ||| ('\u{9}' <= c && c <= '\u{d}')
    ||| c == ' '
    ||| c == '\u{85}'
    ||| c == '\u{a0}'
    ||| c == '\u{1680}'
    ||| ('\u{2000}' <= c && c <= '\u{200a}')
    ||| c == '\u{2028}'
    ||| c == '\u{2029}'
    ||| c == '\u{202f}'
    ||| c == '\u{205f}'
    ||| c == '\u{3000}'
}

pub fn is_white_space_exec(c: char) -> (r: bool)
    ensures
        r == is_white_space(c),
{
    ('\u{9}' <= c && c <= '\u{d}') || c == ' ' || c == '\u{85}' || c == '\u{a0}' || c
        == '\u{1680}' || ('\u{2000}' <= c && c <= '\u{200a}') || c == '\u{2028}' || c
        == '\u{2029}' || c == '\u{202f}' || c == '\u{205f}' || c == '\u{3000}'
}

/// `s` without its leading white space.
pub open spec fn trim_start(s: Seq<char>) -> Seq<char>
    decreases s.len(),
{
    if s.len() > 0 && is_white_space(s[0]) {
        trim_start(s.drop_first())
    } else {
        s
    }
}

/// `s` without its trailing white space.
pub open spec fn trim_end(s: Seq<char>) -> Seq<char>
    decreases s.len(),
{
    if s.len() > 0 && is_white_space(s.last()) {
        trim_end(s.drop_last())
    } else {
        s
    }
}

/// `s` without leading and trailing white space, as `str::trim` gives it.
pub open spec fn trim(s: Seq<char>) -> Seq<char> {
    trim_end(trim_start(s))
}

/// Appends one character to a `String`.
#[verifier::external_body]
fn push_char(s: &mut String, c: char)
    ensures
        final(s)@ == old(s)@.push(c),
{
    s.push(c);
}

/// The characters of `s`.
pub fn chars_of(s: &str) -> (v: Vec<char>)
    ensures
        v@ == s@,
{
    let n = s.unicode_len();
    let mut v: Vec<char> = Vec::new();
    let mut i: usize = 0;
    while i < n
        invariant
            n == s@.len(),
            i <= n,
            v@ == s@.subrange(0, i as int),
        decreases n - i,
    {
        let c = s.get_char(i);
        v.push(c);
        i = i + 1;
    }
    v
}

/// The `String` made of the characters of `v`.
pub fn string_of(v: &Vec<char>) -> (s: String)
    ensures
        s@ == v@,
{
    let mut s = String::new();
    let mut i: usize = 0;
    while i < v.len()
        invariant
            i <= v.len(),
            s@ == v@.subrange(0, i as int),
        decreases v.len() - i,
    {
        push_char(&mut s, v[i]);
        i = i + 1;
    }
    s
}


proof fn lemma_subrange_drop_first(s: Seq<char>, i: int)
    requires
        0 <= i < s.len(),
    ensures
        s.subrange(i, s.len() as int).drop_first() == s.subrange(i + 1, s.len() as int),
        s.subrange(i, s.len() as int)[0] == s[i],
{
    assert(s.subrange(i, s.len() as int).drop_first() =~= s.subrange(i + 1, s.len() as int));
}

proof fn lemma_subrange_drop_last(s: Seq<char>, j: int)
    requires
        0 < j <= s.len(),
    ensures
        s.subrange(0, j).drop_last() == s.subrange(0, j - 1),
        s.subrange(0, j).last() == s[j - 1],
{
    assert(s.subrange(0, j).drop_last() =~= s.subrange(0, j - 1));
}

/// Start and end of the part of `v` that survives trimming.
pub fn trim_bounds(v: &Vec<char>) -> (r: (usize, usize))
    ensures
        r.0 <= r.1 <= v.len(),
        v@.subrange(r.0 as int, r.1 as int) == trim(v@),
        trim_start(v@) == v@.subrange(r.0 as int, v.len() as int),
{
    let n = v.len();
    let mut a: usize = 0;
    assert(v@.subrange(0, n as int) =~= v@);
    while a < n && is_white_space_exec(v[a])
        invariant
            n == v.len(),
            a <= n,
            trim_start(v@) == trim_start(v@.subrange(a as int, n as int)),
        decreases n - a,
    {
        proof {
            lemma_subrange_drop_first(v@, a as int);
        }
        a = a + 1;
    }
    proof {
        if a < n {
            lemma_subrange_drop_first(v@, a as int);
        }
    }
    let ghost t = v@.subrange(a as int, n as int);
    assert(trim_start(v@) == t);
    let mut b: usize = n;
    assert(t.subrange(0, (b - a) as int) =~= t);
    while b > a && is_white_space_exec(v[b - 1])
        invariant
            n == v.len(),
            a <= b <= n,
            t == v@.subrange(a as int, n as int),
            trim_end(t) == trim_end(t.subrange(0, (b - a) as int)),
        decreases b,
    {
        proof {
            lemma_subrange_drop_last(t, (b - a) as int);
        }
        b = b - 1;
    }
    proof {
        if b > a {
            lemma_subrange_drop_last(t, (b - a) as int);
        }
        assert(t.subrange(0, (b - a) as int) =~= v@.subrange(a as int, b as int));
    }
    (a, b)
}

/// The characters of `v` from `start` to `end`.
pub fn slice_vec(v: &Vec<char>, start: usize, end: usize) -> (r: Vec<char>)
    requires
        start <= end <= v.len(),
    ensures
        r@ == v@.subrange(start as int, end as int),
{
    let mut r: Vec<char> = Vec::new();
    let mut i = start;
    while i < end
        invariant
            start <= i <= end <= v.len(),
            r@ == v@.subrange(start as int, i as int),
        decreases end - i,
    {
        r.push(v[i]);
        i = i + 1;
    }
    r
}

/// `v` without leading and trailing white space.
pub fn trim_vec(v: &Vec<char>) -> (r: Vec<char>)
    ensures
        r@ == trim(v@),
{
    let (a, b) = trim_bounds(v);
    slice_vec(v, a, b)
}

/// `s` without leading and trailing white space (`str::trim`).
pub fn trim_str(s: &str) -> (r: String)
    ensures
        r@ == trim(s@),
{
    let v = chars_of(s);
    let t = trim_vec(&v);
    string_of(&t)
}

/// ASCII lower-casing of one character; other characters are unchanged.
pub open spec fn ascii_lower(c: char) -> char {
    if 'A' <= c && c <= 'Z' {
        ((c as u8) + 32) as char
    } else {
        c
    }
}

/// ASCII upper-casing of one character; other characters are unchanged.
pub open spec fn ascii_upper(c: char) -> char {
    if 'a' <= c && c <= 'z' {
        ((c as u8) - 32) as char
    } else {
        c
    }
}

pub open spec fn ascii_lower_seq(s: Seq<char>) -> Seq<char> {
    s.map_values(|c: char| ascii_lower(c))
}

pub open spec fn ascii_upper_seq(s: Seq<char>) -> Seq<char> {
    s.map_values(|c: char| ascii_upper(c))
}

pub fn ascii_lower_char(c: char) -> (r: char)
    ensures
        r == ascii_lower(c),
{
    if 'A' <= c && c <= 'Z' {
        ((c as u8) + 32) as char
    } else {
        c
    }
}

pub fn ascii_upper_char(c: char) -> (r: char)
    ensures
        r == ascii_upper(c),
{
    if 'a' <= c && c <= 'z' {
        ((c as u8) - 32) as char
    } else {
        c
    }
}

/// `v` with every ASCII letter in upper case (`str::to_ascii_uppercase`).
pub fn ascii_upper_vec(v: &Vec<char>) -> (r: Vec<char>)
    ensures
        r@ == ascii_upper_seq(v@),
{
    let mut r: Vec<char> = Vec::new();
    let mut i: usize = 0;
    while i < v.len()
        invariant
            i <= v.len(),
            r@ == ascii_upper_seq(v@.subrange(0, i as int)),
        decreases v.len() - i,
    {
        r.push(ascii_upper_char(v[i]));
        i = i + 1;
        assert(ascii_upper_seq(v@.subrange(0, i as int)) =~= ascii_upper_seq(
            v@.subrange(0, i - 1),
        ).push(ascii_upper(v@[i - 1])));
    }
    assert(v@.subrange(0, i as int) =~= v@);
    r
}

/// `v` with every ASCII letter in lower case (`str::to_ascii_lowercase`).
pub fn ascii_lower_vec(v: &Vec<char>) -> (r: Vec<char>)
    ensures
        r@ == ascii_lower_seq(v@),
{
    let mut r: Vec<char> = Vec::new();
    let mut i: usize = 0;
    while i < v.len()
        invariant
            i <= v.len(),
            r@ == ascii_lower_seq(v@.subrange(0, i as int)),
        decreases v.len() - i,
    {
        r.push(ascii_lower_char(v[i]));
        i = i + 1;
        assert(ascii_lower_seq(v@.subrange(0, i as int)) =~= ascii_lower_seq(
            v@.subrange(0, i - 1),
        ).push(ascii_lower(v@[i - 1])));
    }
    assert(v@.subrange(0, i as int) =~= v@);
    r
}

/// The character of decimal digit `d`.
pub open spec fn digit_char(d: int) -> char {
    (48 + d) as char
}

/// Decimal rendering of `n`, as `u64::to_string` gives it.
pub open spec fn dec(n: nat) -> Seq<char>
    decreases n,
{
    if n < 10 {
        seq![digit_char(n as int)]
    } else {
        dec(n / 10).push(digit_char((n % 10) as int))
    }
}

/// Appends the decimal rendering of `n` to `out`.
pub fn push_decimal(out: &mut Vec<char>, n: u64)
    ensures
        final(out)@ == old(out)@ + dec(n as nat),
    decreases n,
{
    if n >= 10 {
        push_decimal(out, n / 10);
    }
    let d = (n % 10) as u8;
    out.push((48u8 + d) as char);
    proof {
        if n >= 10 {
            assert(old(out)@ + dec(n as nat) =~= old(out)@ + dec((n / 10) as nat) + seq![
                digit_char((n % 10) as int),
            ]);
        } else {
            assert(old(out)@ + dec(n as nat) =~= old(out)@.push(digit_char(n as int)));
        }
    }
}


pub open spec fn is_ascii_digit(c: char) -> bool {
    '0' <= c && c <= '9'
}

/// The ASCII digits of `s`, in order (`chars().filter(char::is_ascii_digit)`).
pub open spec fn keep_digits(s: Seq<char>) -> Seq<char>
    decreases s.len(),
{
    if s.len() == 0 {
        s
    } else if is_ascii_digit(s.last()) {
        keep_digits(s.drop_last()).push(s.last())
    } else {
        keep_digits(s.drop_last())
    }
}

pub open spec fn all_digits(s: Seq<char>) -> bool {
    forall|i: int| 0 <= i < s.len() ==> is_ascii_digit(#[trigger] s[i])
}

/// The number written by the decimal digits `s` (0 for no digits).
pub open spec fn digits_value(s: Seq<char>) -> nat
    decreases s.len(),
{
    if s.len() == 0 {
        0
    } else {
        digits_value(s.drop_last()) * 10 + ((s.last() as int - 48) as nat)
    }
}

/// What `str::parse::<u32>` gives for a string made of ASCII digits only:
/// nothing for the empty string or a value above `u32::MAX`.
pub open spec fn parse_digits_u32(s: Seq<char>) -> Option<u32> {
    if s.len() == 0 || digits_value(s) > u32::MAX {
        None
    } else {
        Some(digits_value(s) as u32)
    }
}

/// What `str::parse::<u64>` gives for a string made of ASCII digits only.
pub open spec fn parse_digits_u64(s: Seq<char>) -> Option<u64> {
    if s.len() == 0 || digits_value(s) > u64::MAX {
        None
    } else {
        Some(digits_value(s) as u64)
    }
}

proof fn lemma_keep_digits_all_digits(s: Seq<char>)
    ensures
        all_digits(keep_digits(s)),
    decreases s.len(),
{
    if s.len() > 0 {
        lemma_keep_digits_all_digits(s.drop_last());
    }
}

/// `digits_value` does not decrease when digits are appended.
proof fn lemma_digits_value_prefix(s: Seq<char>, i: int)
    requires
        0 <= i <= s.len(),
        all_digits(s),
    ensures
        digits_value(s.subrange(0, i)) <= digits_value(s),
    decreases s.len() - i,
{
    if i < s.len() {
        lemma_digits_value_prefix(s, i + 1);
        let p = s.subrange(0, i + 1);
        assert(p.drop_last() =~= s.subrange(0, i));
        assert(is_ascii_digit(s[i]));
    } else {
        assert(s.subrange(0, i) =~= s);
    }
}

/// The ASCII digits of `v`.
pub fn keep_digits_vec(v: &Vec<char>) -> (r: Vec<char>)
    ensures
        r@ == keep_digits(v@),
        all_digits(r@),
{
    let mut r: Vec<char> = Vec::new();
    let mut i: usize = 0;
    while i < v.len()
        invariant
            i <= v.len(),
            r@ == keep_digits(v@.subrange(0, i as int)),
        decreases v.len() - i,
    {
        let c = v[i];
        proof {
            assert(v@.subrange(0, i + 1).drop_last() =~= v@.subrange(0, i as int));
        }
        if '0' <= c && c <= '9' {
            r.push(c);
        }
        i = i + 1;
    }
    proof {
        assert(v@.subrange(0, i as int) =~= v@);
        lemma_keep_digits_all_digits(v@);
    }
    r
}

/// Reads a string of ASCII digits as a `u64`, or nothing when it is empty or
/// too large.
pub fn parse_digits_u64_exec(v: &Vec<char>) -> (r: Option<u64>)
    requires
        all_digits(v@),
    ensures
        r == parse_digits_u64(v@),
{
    if v.len() == 0 {
        return None;
    }
    let mut acc: u64 = 0;
    let mut i: usize = 0;
    while i < v.len()
        invariant
            i <= v.len(),
            all_digits(v@),
            acc == digits_value(v@.subrange(0, i as int)),
        decreases v.len() - i,
    {
        let d = (v[i] as u32 - 48) as u64;
        proof {
            assert(v@.subrange(0, i + 1).drop_last() =~= v@.subrange(0, i as int));
            assert(is_ascii_digit(v@[i as int]));
        }
        if acc > (u64::MAX - d) / 10 {
            proof {
                assert(digits_value(v@.subrange(0, i + 1)) > u64::MAX) by (nonlinear_arith)
                    requires
                        digits_value(v@.subrange(0, i + 1)) == acc * 10 + d,
                        acc > (u64::MAX - d) / 10,
                        d <= 9,
                ;
                lemma_digits_value_prefix(v@, i + 1);
            }
            return None;
        }
        acc = acc * 10 + d;
        i = i + 1;
    }
    proof {
        assert(v@.subrange(0, i as int) =~= v@);
    }
    Some(acc)
}

/// Reads a string of ASCII digits as a `u32`, or nothing when it is empty or
/// too large.
pub fn parse_digits_u32_exec(v: &Vec<char>) -> (r: Option<u32>)
    requires
        all_digits(v@),
    ensures
        r == parse_digits_u32(v@),
{
    match parse_digits_u64_exec(v) {
        None => None,
        Some(n) => {
            if n > u32::MAX as u64 {
                None
            } else {
                Some(n as u32)
            }
        },
    }
}


pub open spec fn starts_with(s: Seq<char>, p: Seq<char>) -> bool {
    p.len() <= s.len() && s.subrange(0, p.len() as int) == p
}

pub open spec fn ends_with(s: Seq<char>, p: Seq<char>) -> bool {
    p.len() <= s.len() && s.subrange(s.len() - p.len(), s.len() as int) == p
}

/// `p` stands in `s` at position `i`.
pub open spec fn occurs_at(s: Seq<char>, p: Seq<char>, i: int) -> bool {
    0 <= i && i + p.len() <= s.len() && s.subrange(i, i + p.len()) == p
}

/// `s` holds `p` as a contiguous part (`str::contains`).
pub open spec fn contains_seq(s: Seq<char>, p: Seq<char>) -> bool {
    exists|i: int| occurs_at(s, p, i)
}

pub fn occurs_at_exec(v: &Vec<char>, p: &Vec<char>, i: usize) -> (r: bool)
    ensures
        r == occurs_at(v@, p@, i as int),
{
    if i > v.len() || p.len() > v.len() - i {
        return false;
    }
    let mut k: usize = 0;
    while k < p.len()
        invariant
            i + p.len() <= v.len(),
            k <= p.len(),
            forall|j: int| 0 <= j < k ==> v@[i + j] == p@[j],
        decreases p.len() - k,
    {
        if v[i + k] != p[k] {
            assert(v@.subrange(i as int, i + p.len())[k as int] != p@[k as int]);
            return false;
        }
        k = k + 1;
    }
    assert(v@.subrange(i as int, i + p.len()) =~= p@);
    true
}

pub fn starts_with_exec(v: &Vec<char>, p: &Vec<char>) -> (r: bool)
    ensures
        r == starts_with(v@, p@),
{
    occurs_at_exec(v, p, 0)
}

pub fn ends_with_exec(v: &Vec<char>, p: &Vec<char>) -> (r: bool)
    ensures
        r == ends_with(v@, p@),
{
    if p.len() > v.len() {
        false
    } else {
        occurs_at_exec(v, p, v.len() - p.len())
    }
}

pub fn contains_exec(v: &Vec<char>, p: &Vec<char>) -> (r: bool)
    ensures
        r == contains_seq(v@, p@),
{
    let mut i: usize = 0;
    while i < v.len()
        invariant
            i <= v.len(),
            forall|j: int| 0 <= j < i ==> !occurs_at(v@, p@, j),
        decreases v.len() - i,
    {
        if occurs_at_exec(v, p, i) {
            return true;
        }
        i = i + 1;
    }
    if occurs_at_exec(v, p, i) {
        return true;
    }
    assert forall|j: int| !occurs_at(v@, p@, j) by {
        if 0 <= j <= i {
        }
    }
    false
}

/// Index of the last `c` in `s`, or -1.
pub open spec fn last_index_of(s: Seq<char>, c: char) -> int
    decreases s.len(),
{
    if s.len() == 0 {
        -1
    } else if s.last() == c {
        s.len() - 1
    } else {
        last_index_of(s.drop_last(), c)
    }
}

proof fn lemma_last_index_of_range(s: Seq<char>, c: char)
    ensures
        -1 <= last_index_of(s, c) < s.len(),
        last_index_of(s, c) >= 0 ==> s[last_index_of(s, c)] == c,
    decreases s.len(),
{
    if s.len() > 0 && s.last() != c {
        lemma_last_index_of_range(s.drop_last(), c);
    }
}

pub fn last_index_of_exec(v: &Vec<char>, c: char) -> (r: Option<usize>)
    ensures
        match r {
            Some(i) => i as int == last_index_of(v@, c) && i < v.len(),
            None => last_index_of(v@, c) == -1,
        },
{
    let mut j: usize = v.len();
    assert(v@.subrange(0, j as int) =~= v@);
    while j > 0
        invariant
            j <= v.len(),
            last_index_of(v@, c) == last_index_of(v@.subrange(0, j as int), c),
        decreases j,
    {
        proof {
            assert(v@.subrange(0, j as int).drop_last() =~= v@.subrange(0, j - 1));
        }
        if v[j - 1] == c {
            return Some(j - 1);
        }
        j = j - 1;
    }
    None
}

/// `s` with every non-overlapping occurrence of `p` (taken left to right)
/// replaced by `r`, as `str::replace` gives it for a non-empty `p`.
pub open spec fn replace_all(s: Seq<char>, p: Seq<char>, r: Seq<char>) -> Seq<char>
    decreases s.len(),
{
    if s.len() == 0 || p.len() == 0 {
        s
    } else if starts_with(s, p) {
        r + replace_all(s.subrange(p.len() as int, s.len() as int), p, r)
    } else {
        seq![s[0]] + replace_all(s.drop_first(), p, r)
    }
}

pub fn replace_all_exec(v: &Vec<char>, p: &Vec<char>, r: &Vec<char>) -> (out: Vec<char>)
    ensures
        out@ == replace_all(v@, p@, r@),
{
    let mut out: Vec<char> = Vec::new();
    let mut i: usize = 0;
    if p.len() == 0 {
        return slice_vec(v, 0, v.len());
    }
    assert(v@.subrange(0, v.len() as int) =~= v@);
    while i < v.len()
        invariant
            i <= v.len(),
            p.len() > 0,
            out@ + replace_all(v@.subrange(i as int, v.len() as int), p@, r@) == replace_all(
                v@,
                p@,
                r@,
            ),
        decreases v.len() - i,
    {
        let ghost rest = v@.subrange(i as int, v.len() as int);
        if occurs_at_exec(v, p, i) {
            proof {
                assert(rest.subrange(0, p.len() as int) =~= v@.subrange(i as int, i + p.len()));
                assert(rest.subrange(p.len() as int, rest.len() as int) =~= v@.subrange(
                    i + p.len(),
                    v.len() as int,
                ));
                assert(out@ + r@ + replace_all(
                    v@.subrange(i + p.len(), v.len() as int),
                    p@,
                    r@,
                ) =~= out@ + replace_all(rest, p@, r@));
            }
            let mut k: usize = 0;
            let ghost before = out@;
            while k < r.len()
                invariant
                    k <= r.len(),
                    out@ == before + r@.subrange(0, k as int),
                decreases r.len() - k,
            {
                out.push(r[k]);
                k = k + 1;
            }
            assert(r@.subrange(0, k as int) =~= r@);
            i = i + p.len();
        } else {
            proof {
                if p.len() <= rest.len() && rest.subrange(0, p.len() as int) == p@ {
                    assert(rest.subrange(0, p.len() as int) =~= v@.subrange(
                        i as int,
                        i + p.len(),
                    ));
                }
                assert(rest.drop_first() =~= v@.subrange(i + 1, v.len() as int));
                assert(out@.push(v@[i as int]) + replace_all(
                    v@.subrange(i + 1, v.len() as int),
                    p@,
                    r@,
                ) =~= out@ + replace_all(rest, p@, r@));
            }
            out.push(v[i]);
            i = i + 1;
        }
    }
    proof {
        assert(v@.subrange(i as int, v.len() as int) =~= Seq::<char>::empty());
        assert(out@ + Seq::<char>::empty() =~= out@);
    }
    out
}

/// Appends `p` to `out`.
pub fn push_all(out: &mut Vec<char>, p: &Vec<char>)
    ensures
        final(out)@ == old(out)@ + p@,
{
    let mut k: usize = 0;
    while k < p.len()
        invariant
            k <= p.len(),
            out@ == old(out)@ + p@.subrange(0, k as int),
        decreases p.len() - k,
    {
        out.push(p[k]);
        k = k + 1;
    }
    assert(p@.subrange(0, k as int) =~= p@);
}

/// Appends the characters of `s` to `out`.
pub fn push_str(out: &mut Vec<char>, s: &str)
    ensures
        final(out)@ == old(out)@ + s@,
{
    let p = chars_of(s);
    push_all(out, &p);
}


/// `n` spaces.
pub open spec fn spaces(n: nat) -> Seq<char> {
    Seq::new(n, |i: int| ' ')
}

/// `s` right-aligned in a field of `w` characters (`{:>w}`).
pub open spec fn pad_left(s: Seq<char>, w: nat) -> Seq<char> {
    if s.len() < w {
        spaces((w - s.len()) as nat) + s
    } else {
        s
    }
}

/// `s` left-aligned in a field of `w` characters (`{:<w}`).
pub open spec fn pad_right(s: Seq<char>, w: nat) -> Seq<char> {
    if s.len() < w {
        s + spaces((w - s.len()) as nat)
    } else {
        s
    }
}

/// The first `n` characters of `s`, or all of it when shorter (`{:.n}`).
pub open spec fn take_chars(s: Seq<char>, n: nat) -> Seq<char> {
    if s.len() <= n {
        s
    } else {
        s.subrange(0, n as int)
    }
}

/// Appends `n` spaces to `out`.
pub fn push_spaces(out: &mut Vec<char>, n: usize)
    ensures
        final(out)@ == old(out)@ + spaces(n as nat),
{
    let mut k: usize = 0;
    while k < n
        invariant
            k <= n,
            out@ == old(out)@ + spaces(k as nat),
        decreases n - k,
    {
        out.push(' ');
        k = k + 1;
        assert(old(out)@ + spaces(k as nat) =~= old(out)@ + spaces((k - 1) as nat) + seq![' ']);
    }
}

/// Appends `s` right-aligned in a field of `w` characters.
pub fn push_padded_left(out: &mut Vec<char>, s: &Vec<char>, w: usize)
    ensures
        final(out)@ == old(out)@ + pad_left(s@, w as nat),
{
    if s.len() < w {
        push_spaces(out, w - s.len());
    }
    push_all(out, s);
    assert(out@ =~= old(out)@ + pad_left(s@, w as nat));
}

/// Appends `s` left-aligned in a field of `w` characters.
pub fn push_padded_right(out: &mut Vec<char>, s: &Vec<char>, w: usize)
    ensures
        final(out)@ == old(out)@ + pad_right(s@, w as nat),
{
    push_all(out, s);
    if s.len() < w {
        push_spaces(out, w - s.len());
    }
    assert(out@ =~= old(out)@ + pad_right(s@, w as nat));
}

/// The decimal digits of `n`.
pub fn decimal_vec(n: u64) -> (r: Vec<char>)
    ensures
        r@ == dec(n as nat),
{
    let mut r: Vec<char> = Vec::new();
    push_decimal(&mut r, n);
    assert(r@ =~= dec(n as nat));
    r
}


pub open spec fn is_ascii_seq(s: Seq<char>) -> bool {
    forall|i: int| 0 <= i < s.len() ==> (#[trigger] s[i] as u32) < 128
}

/// Name for what `str::to_lowercase` returns (Unicode lower-case mapping).
pub uninterp spec fn unicode_lowercase(s: Seq<char>) -> Seq<char>;

/// `str::to_lowercase`. The contract names the result; for ASCII input it
/// states the ASCII lower-casing, which is what the Unicode lower-case
/// mapping does on ASCII letters (A-Z to a-z, everything else unchanged).
/// Nothing is stated of non-ASCII input beyond the name.
#[verifier::external_body]
pub(crate) fn to_lowercase_str(s: &str) -> (r: String)
    ensures
        r@ == unicode_lowercase(s@),
        is_ascii_seq(s@) ==> r@ == ascii_lower_seq(s@),
{
    s.to_lowercase()
}

/// Lower-cases the characters `v` with `str::to_lowercase`.
pub fn to_lowercase_vec(v: &Vec<char>) -> (r: Vec<char>)
    ensures
        r@ == unicode_lowercase(v@),
        is_ascii_seq(v@) ==> r@ == ascii_lower_seq(v@),
{
    let s = string_of(v);
    let l = to_lowercase_str(s.as_str());
    chars_of(l.as_str())
}

/// Name for the `Debug` rendering of a string (quoted, with escapes).
pub uninterp spec fn debug_quoted(s: Seq<char>) -> Seq<char>;

/// `format!("{s:?}")`: the string quoted and escaped as `Debug` writes it.
/// The contract only names the result.
#[verifier::external_body]
pub(crate) fn debug_quote(s: &str) -> (r: String)
    ensures
        r@ == debug_quoted(s@),
{
    format!("{s:?}")
}


/// Whether `a` and `b` hold the same characters.
pub fn eq_vec(a: &Vec<char>, b: &Vec<char>) -> (r: bool)
    ensures
        r == (a@ == b@),
{
    if a.len() != b.len() {
        return false;
    }
    let mut i: usize = 0;
    while i < a.len()
        invariant
            a.len() == b.len(),
            i <= a.len(),
            forall|j: int| 0 <= j < i ==> a@[j] == b@[j],
        decreases a.len() - i,
    {
        if a[i] != b[i] {
            return false;
        }
        i = i + 1;
    }
    assert(a@ =~= b@);
    true
}


/// Length of `v` without its trailing white space.
pub fn trim_end_len(v: &Vec<char>) -> (r: usize)
    ensures
        r <= v.len(),
        v@.subrange(0, r as int) == trim_end(v@),
{
    let mut b: usize = v.len();
    assert(v@.subrange(0, b as int) =~= v@);
    while b > 0 && is_white_space_exec(v[b - 1])
        invariant
            b <= v.len(),
            trim_end(v@) == trim_end(v@.subrange(0, b as int)),
        decreases b,
    {
        proof {
            lemma_subrange_drop_last(v@, b as int);
        }
        b = b - 1;
    }
    proof {
        if b > 0 {
            lemma_subrange_drop_last(v@, b as int);
        }
    }
    b
}


/// Decimal rendering of a signed number, as `i64::to_string` gives it.
pub open spec fn dec_int(n: int) -> Seq<char> {
    if n < 0 {
        seq!['-'] + dec((-n) as nat)
    } else {
        dec(n as nat)
    }
}

/// Appends the decimal rendering of the signed `n` to `out`.
pub fn push_i64(out: &mut Vec<char>, n: i64)
    ensures
        final(out)@ == old(out)@ + dec_int(n as int),
{
    if n < 0 {
        out.push('-');
        let m: i128 = n as i128;
        let a: u64 = (-m) as u64;
        push_decimal(out, a);
        assert(out@ =~= old(out)@ + dec_int(n as int));
    } else {
        push_decimal(out, n as u64);
    }
}

/// `parts` joined with `sep` between neighbours.
pub open spec fn join(parts: Seq<Seq<char>>, sep: Seq<char>) -> Seq<char>
    decreases parts.len(),
{
    if parts.len() == 0 {
        Seq::empty()
    } else if parts.len() == 1 {
        parts[0]
    } else {
        join(parts.drop_last(), sep) + sep + parts.last()
    }
}

/// The character sequences of `v`.
pub open spec fn vecs_view(v: Seq<Vec<char>>) -> Seq<Seq<char>> {
    v.map_values(|x: Vec<char>| x@)
}

/// Joining a list that starts with `x`: `x`, the separator, and the rest
/// joined.
pub proof fn lemma_join_cons(x: Seq<char>, ys: Seq<Seq<char>>, sep: Seq<char>)
    requires
        ys.len() > 0,
    ensures
        join(seq![x] + ys, sep) == x + sep + join(ys, sep),
    decreases ys.len(),
{
    let all = seq![x] + ys;
    if ys.len() == 1 {
        assert(all.drop_last() =~= seq![x]);
        assert(join(seq![x], sep) == x);
    } else {
        lemma_join_cons(x, ys.drop_last(), sep);
        assert(all.drop_last() =~= seq![x] + ys.drop_last());
        assert(join(all, sep) =~= x + sep + join(ys, sep));
    }
}

/// `parts` joined with `sep`.
pub fn join_vecs(parts: &Vec<Vec<char>>, sep: &Vec<char>) -> (r: Vec<char>)
    ensures
        r@ == join(vecs_view(parts@), sep@),
{
    let mut out: Vec<char> = Vec::new();
    let mut i: usize = 0;
    let ghost pv = vecs_view(parts@);
    while i < parts.len()
        invariant
            i <= parts.len(),
            pv == vecs_view(parts@),
            out@ == join(pv.subrange(0, i as int), sep@),
        decreases parts.len() - i,
    {
        proof {
            assert(pv.subrange(0, i + 1).drop_last() =~= pv.subrange(0, i as int));
        }
        if i > 0 {
            push_all(&mut out, sep);
        }
        push_all(&mut out, &parts[i]);
        proof {
            if i == 0 {
                assert(out@ =~= pv.subrange(0, 1)[0]);
            }
        }
        i = i + 1;
    }
    proof {
        assert(pv.subrange(0, i as int) =~= pv);
    }
    out
}


/// The character sequences of the strings `v`.
pub open spec fn strings_view(v: Seq<String>) -> Seq<Seq<char>> {
    v.map_values(|x: String| x@)
}

/// The strings `parts` joined with `sep` (`[String]::join`).
pub fn join_strings(parts: &Vec<String>, sep: &str) -> (r: Vec<char>)
    ensures
        r@ == join(strings_view(parts@), sep@),
{
    let mut vs: Vec<Vec<char>> = Vec::new();
    let mut i: usize = 0;
    while i < parts.len()
        invariant
            i <= parts.len(),
            vecs_view(vs@) == strings_view(parts@).subrange(0, i as int),
        decreases parts.len() - i,
    {
        let c = chars_of(parts[i].as_str());
        let ghost v0 = vs@;
        vs.push(c);
        assert(vecs_view(vs@) =~= vecs_view(v0).push(c@));
        assert(strings_view(parts@).subrange(0, i + 1) =~= strings_view(parts@).subrange(
            0,
            i as int,
        ).push(parts@[i as int]@));
        i = i + 1;
    }
    assert(strings_view(parts@).subrange(0, i as int) =~= strings_view(parts@));
    join_vecs(&vs, &chars_of(sep))
}

/// Index of the first line feed in `s`, or its length when there is none.
pub open spec fn first_newline(s: Seq<char>) -> nat
    decreases s.len(),
{
    if s.len() == 0 || s[0] == '\n' {
        0
    } else {
        1 + first_newline(s.drop_first())
    }
}

/// A line without the carriage return that ends it, if any.
pub open spec fn strip_cr(line: Seq<char>) -> Seq<char> {
    if line.len() > 0 && line.last() == '\r' {
        line.drop_last()
    } else {
        line
    }
}

/// The lines of `s` (`str::lines`): split at each line feed, a carriage
/// return just before it dropped, and no empty line after a final line feed.
pub open spec fn lines_of(s: Seq<char>) -> Seq<Seq<char>>
    decreases s.len(),
{
    if s.len() == 0 {
        Seq::empty()
    } else {
        let e = first_newline(s);
        if e >= s.len() {
            seq![s]
        } else {
            seq![strip_cr(s.subrange(0, e as int))] + lines_of(s.subrange(e as int + 1, s.len() as int))
        }
    }
}

proof fn lemma_first_newline(s: Seq<char>)
    ensures
        first_newline(s) <= s.len(),
        first_newline(s) < s.len() ==> s[first_newline(s) as int] == '\n',
        forall|j: int| 0 <= j < first_newline(s) ==> s[j] != '\n',
    decreases s.len(),
{
    if s.len() > 0 && s[0] != '\n' {
        lemma_first_newline(s.drop_first());
        assert forall|j: int| 0 <= j < first_newline(s) implies s[j] != '\n' by {
            if j > 0 {
                assert(s[j] == s.drop_first()[j - 1]);
            }
        }
    }
}

proof fn lemma_first_newline_at(s: Seq<char>, e: int)
    requires
        0 <= e <= s.len(),
        e < s.len() ==> s[e] == '\n',
        forall|j: int| 0 <= j < e ==> s[j] != '\n',
    ensures
        first_newline(s) == e,
    decreases s.len(),
{
    if s.len() > 0 && e > 0 {
        assert(s[0] != '\n');
        assert forall|j: int| 0 <= j < e - 1 implies s.drop_first()[j] != '\n' by {
            assert(s.drop_first()[j] == s[j + 1]);
        }
        if e - 1 < s.drop_first().len() {
            assert(s.drop_first()[e - 1] == s[e]);
        }
        lemma_first_newline_at(s.drop_first(), e - 1);
    }
}

/// The lines of `v`.
pub fn lines_vec(v: &Vec<char>) -> (r: Vec<Vec<char>>)
    ensures
        vecs_view(r@) == lines_of(v@),
{
    let mut out: Vec<Vec<char>> = Vec::new();
    let mut i: usize = 0;
    assert(v@.subrange(0, v.len() as int) =~= v@);
    assert(vecs_view(out@) + lines_of(v@) =~= lines_of(v@));
    while i < v.len()
        invariant
            i <= v.len(),
            vecs_view(out@) + lines_of(v@.subrange(i as int, v.len() as int)) == lines_of(v@),
        decreases v.len() - i,
    {
        let ghost rest = v@.subrange(i as int, v.len() as int);
        let mut e: usize = i;
        while e < v.len() && v[e] != '\n'
            invariant
                i <= e <= v.len(),
                forall|j: int| i <= j < e ==> v@[j] != '\n',
            decreases v.len() - e,
        {
            e = e + 1;
        }
        proof {
            lemma_first_newline_at(rest, e - i);
        }
        let mut piece = slice_vec(v, i, e);
        if piece.len() > 0 && piece[piece.len() - 1] == '\r' {
            piece = slice_vec(&piece, 0, piece.len() - 1);
        }
        let ghost o0 = out@;
        if e >= v.len() {
            proof {
                assert(piece@ =~= rest || (piece@ =~= rest.drop_last()));
            }
            let whole = slice_vec(v, i, e);
            out.push(whole);
            proof {
                assert(whole@ =~= rest);
                assert(vecs_view(out@) =~= vecs_view(o0).push(whole@));
                assert(lines_of(rest) =~= seq![rest]);
                assert(v@.subrange(v.len() as int, v.len() as int) =~= Seq::<char>::empty());
                assert(vecs_view(out@) + lines_of(Seq::<char>::empty()) =~= vecs_view(out@));
            }
            i = e;
        } else {
            out.push(piece);
            proof {
                assert(rest.subrange(0, (e - i) as int) =~= v@.subrange(i as int, e as int));
                assert(piece@ == strip_cr(rest.subrange(0, (e - i) as int)));
                assert(rest.subrange(e - i + 1, rest.len() as int) =~= v@.subrange(
                    e + 1,
                    v.len() as int,
                ));
                assert(vecs_view(out@) =~= vecs_view(o0).push(piece@));
                assert(vecs_view(out@) + lines_of(v@.subrange(e + 1, v.len() as int)) =~= vecs_view(
                    o0,
                ) + lines_of(rest));
            }
            i = e + 1;
        }
    }
    proof {
        assert(v@.subrange(i as int, v.len() as int) =~= Seq::<char>::empty());
        assert(vecs_view(out@) + Seq::<Seq<char>>::empty() =~= vecs_view(out@));
    }
    out
}


/// A fresh copy of `s`.
pub fn copy_string(s: &String) -> (r: String)
    ensures
        r@ == s@,
{
    string_of(&chars_of(s.as_str()))
}

/// A fresh copy of each string of `v`, in order.
pub fn copy_strings(v: &Vec<String>) -> (r: Vec<String>)
    ensures
        strings_view(r@) == strings_view(v@),
{
    let mut out: Vec<String> = Vec::new();
    let mut i: usize = 0;
    while i < v.len()
        invariant
            i <= v.len(),
            strings_view(out@) == strings_view(v@).subrange(0, i as int),
        decreases v.len() - i,
    {
        let c = copy_string(&v[i]);
        let ghost o0 = strings_view(out@);
        out.push(c);
        assert(strings_view(out@) =~= o0.push(c@));
        assert(strings_view(v@).subrange(0, i + 1) =~= strings_view(v@).subrange(0, i as int).push(
            v@[i as int]@,
        ));
        i = i + 1;
    }
    assert(strings_view(v@).subrange(0, i as int) =~= strings_view(v@));
    out
}

/// A fresh copy of an optional string.
pub fn copy_opt_string(o: &Option<String>) -> (r: Option<String>)
    ensures
        opt_string_view(r) == opt_string_view(*o),
{
    match o {
        Some(s) => Some(copy_string(s)),
        None => None,
    }
}

/// The string when it has text (`Option::filter(|s| !s.is_empty())`).
pub open spec fn non_empty_view(o: Option<String>) -> Option<Seq<char>> {
    match o {
        Some(s) => if s@.len() > 0 {
            Some(s@)
        } else {
            None
        },
        None => None,
    }
}

/// A copy of the string when it has text, nothing otherwise.
pub fn non_empty_copy(o: &Option<String>) -> (r: Option<String>)
    ensures
        opt_string_view(r) == non_empty_view(*o),
{
    match o {
        Some(s) => if s.as_str().is_empty() {
            None
        } else {
            Some(copy_string(s))
        },
        None => None,
    }
}

/// What `str::parse::<u64>` gives: an optional '+', then at least one
/// ASCII digit and nothing else, within the range of `u64`.
pub open spec fn parse_u64_spec(s: Seq<char>) -> Option<u64> {
    let body = if s.len() > 0 && s[0] == '+' {
        s.drop_first()
    } else {
        s
    };
    if !all_digits(body) {
        None
    } else {
        parse_digits_u64(body)
    }
}

/// Reads a `u64` as `str::parse::<u64>` does.
pub fn parse_u64_str(s: &str) -> (r: Option<u64>)
    ensures
        r == parse_u64_spec(s@),
{
    let v = chars_of(s);
    let body = if v.len() > 0 && v[0] == '+' {
        slice_vec(&v, 1, v.len())
    } else {
        slice_vec(&v, 0, v.len())
    };
    proof {
        if v@.len() > 0 && v@[0] == '+' {
            assert(body@ =~= v@.drop_first());
        } else {
            assert(body@ =~= v@);
        }
    }
    let ghost b = if s@.len() > 0 && s@[0] == '+' {
        s@.drop_first()
    } else {
        s@
    };
    assert(body@ =~= b);
    let mut i: usize = 0;
    while i < body.len()
        invariant
            i <= body.len(),
            body@ == b,
            b == (if s@.len() > 0 && s@[0] == '+' {
                s@.drop_first()
            } else {
                s@
            }),
            forall|k: int| 0 <= k < i ==> is_ascii_digit(#[trigger] body@[k]),
        decreases body.len() - i,
    {
        let c = body[i];
        if !(c >= '0' && c <= '9') {
            assert(!is_ascii_digit(body@[i as int]));
            return None;
        }
        i = i + 1;
    }
    parse_digits_u64_exec(&body)
}

} // verus!
