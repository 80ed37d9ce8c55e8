//! Regular-expression search, done by the `regex` crate.

use crate::text::chars_of;
use vstd::prelude::*;

verus! {

/// Name for what `regex::Regex::captures` finds when `pattern` is searched
/// for in `text`: nothing when there is no match, else one entry per capture
/// group (group 0 first), holding the group's matched text or nothing when
/// the group did not take part in the match.
pub uninterp spec fn regex_captures_result(pattern: Seq<char>, text: Seq<char>) -> Option<
    Seq<Option<Seq<char>>>,
>;

/// Compiles `pattern` with `regex::Regex::new` and searches `text` with
/// `regex::Regex::captures`, turning each group into an owned `String`.
/// The contract names the result and says nothing more of it: the matching
/// rules of the `regex` crate are not restated here. (A pattern that does not
/// compile gives no match; the patterns of this crate all compile.)
#[verifier::external_body]
pub(crate) fn regex_captures(pattern: &str, text: &str) -> (r: Option<Vec<Option<String>>>)
    ensures
        r.deep_view() == regex_captures_result(pattern@, text@),
{
    let re = regex::Regex::new(pattern).ok()?;
    re.captures(text).map(|c| c.iter().map(|m| m.map(|m| m.as_str().to_string())).collect())
}

/// Group `i` of a capture list, or nothing when it is absent.
pub open spec fn group(g: Seq<Option<Seq<char>>>, i: int) -> Option<Seq<char>> {
    if 0 <= i < g.len() {
        g[i]
    } else {
        None
    }
}

pub open spec fn opt_chars(o: Option<Vec<char>>) -> Option<Seq<char>> {
    match o {
        Some(v) => Some(v@),
        None => None,
    }
}

/// The characters of capture group `i`.
pub fn group_at(caps: &Vec<Option<String>>, i: usize) -> (r: Option<Vec<char>>)
    ensures
        opt_chars(r) == group(caps.deep_view(), i as int),
{
    if i < caps.len() {
        match &caps[i] {
            Some(s) => Some(chars_of(s.as_str())),
            None => None,
        }
    } else {
        None
    }
}

/// Searches `pattern` in the characters `v`.
pub fn captures_in(pattern: &str, v: &Vec<char>) -> (r: Option<Vec<Option<String>>>)
    ensures
        r.deep_view() == regex_captures_result(pattern@, v@),
{
    let s = crate::text::string_of(v);
    regex_captures(pattern, s.as_str())
}

} // verus!
