//! URLs, parsed and rebuilt by the `url` crate.

use crate::budget::opt_string_view;
use crate::text::{ascii_lower_seq, chars_of, slice_vec, starts_with, starts_with_exec, string_of, to_lowercase_vec, unicode_lowercase};
use vstd::prelude::*;

verus! {

#[verifier::external_type_specification]
#[verifier::external_body]
pub struct ExUrlParseError(url::ParseError);

/// The parts of a parsed URL that the library reads.
#[derive(Debug, Clone)]
pub struct UrlParts {
    /// The host, when the URL has one.
    pub host: Option<String>,
    /// The path, percent-encoded.
    pub path: String,
    /// The path split at '/', when the URL can be a base.
    pub segments: Option<Vec<String>>,
    /// The query's key-value pairs, decoded, in order.
    pub query: Vec<(String, String)>,
}

/// The parts of a URL over character sequences.
pub type UrlPartsView = (
    Option<Seq<char>>,
    Seq<char>,
    Option<Seq<Seq<char>>>,
    Seq<(Seq<char>, Seq<char>)>,
);

pub open spec fn url_parts_view(p: UrlParts) -> UrlPartsView {
    (
        opt_string_view(p.host),
        p.path@,
        match p.segments {
            Some(s) => Some(s.deep_view()),
            None => None,
        },
        p.query.deep_view(),
    )
}

/// Name for what `url::Url::parse` makes of `url`, read through its host,
/// path, path segments and decoded query pairs: nothing when it does not
/// parse.
pub uninterp spec fn url_parts_result(url: Seq<char>) -> Option<
    (Option<Seq<char>>, Seq<char>, Option<Seq<Seq<char>>>, Seq<(Seq<char>, Seq<char>)>),
>;

/// `url::Url::parse`, read through `host_str`, `path`, `path_segments` and
/// `query_pairs`. The contract names the result and says nothing more: the
/// URL standard that the crate implements is not restated here.
#[verifier::external_body]
pub(crate) fn parse_url(url: &str) -> (r: Result<UrlParts, url::ParseError>)
    ensures
        match r {
            Ok(p) => url_parts_result(url@) == Some(url_parts_view(p)),
            Err(_) => url_parts_result(url@) is None,
        },
{
    let u = url::Url::parse(url)?;
    Ok(UrlParts {
        host: u.host_str().map(|h| h.to_string()),
        path: u.path().to_string(),
        segments: u.path_segments().map(|s| s.map(|x| x.to_string()).collect()),
        query: u.query_pairs().map(|(k, v)| (k.into_owned(), v.into_owned())).collect(),
    })
}

/// Name for the text of `url` parsed and given `query` with
/// `url::Url::set_query` (no query for nothing).
pub uninterp spec fn url_with_query_result(url: Seq<char>, query: Option<Seq<char>>) -> Option<
    Seq<char>,
>;

/// `url::Url::parse`, then `set_query`, then the URL's text. Only the
/// parse can fail, and it is the parse that `parse_url` makes, so the
/// result is there exactly when `parse_url` gives parts.
#[verifier::external_body]
pub(crate) fn url_with_query(url: &str, query: Option<&str>) -> (r: Result<String, url::ParseError>)
    ensures
        match r {
            Ok(s) => url_with_query_result(url@, crate::budget::opt_str_view(query)) == Some(s@),
            Err(_) => url_with_query_result(url@, crate::budget::opt_str_view(query)) is None,
        },
        r is Ok <==> url_parts_result(url@) is Some,
{
    let mut u = url::Url::parse(url)?;
    u.set_query(query);
    Ok(u.to_string())
}

/// Name for the `application/x-www-form-urlencoded` serialization of
/// `pairs` by `url::form_urlencoded::Serializer`.
pub uninterp spec fn form_urlencoded_result(pairs: Seq<(Seq<char>, Seq<char>)>) -> Seq<char>;

/// `url::form_urlencoded::Serializer` over `pairs`, finished.
#[verifier::external_body]
pub(crate) fn form_urlencode(pairs: &Vec<(String, String)>) -> (r: String)
    ensures
        r@ == form_urlencoded_result(pairs.deep_view()),
{
    url::form_urlencoded::Serializer::new(String::new()).extend_pairs(pairs.iter()).finish()
}

/// Name for the text of `url` parsed and given the query pairs `pairs`
/// through `url::Url::query_pairs_mut`, cleared first.
pub uninterp spec fn url_with_pairs_result(
    url: Seq<char>,
    pairs: Seq<(Seq<char>, Seq<char>)>,
) -> Option<Seq<char>>;

/// `url::Url::parse`, then `query_pairs_mut().clear().extend_pairs(pairs)`,
/// then the URL's text. Only the parse can fail, and it is the parse that
/// `parse_url` makes, so the result is there exactly when `parse_url` gives
/// parts.
#[verifier::external_body]
pub(crate) fn url_with_pairs(url: &str, pairs: &Vec<(String, String)>) -> (r: Result<
    String,
    url::ParseError,
>)
    ensures
        match r {
            Ok(s) => url_with_pairs_result(url@, pairs.deep_view()) == Some(s@),
            Err(_) => url_with_pairs_result(url@, pairs.deep_view()) is None,
        },
        r is Ok <==> url_parts_result(url@) is Some,
{
    let mut u = url::Url::parse(url)?;
    u.query_pairs_mut().clear().extend_pairs(pairs.iter());
    Ok(u.to_string())
}

/// The pairs whose key is not `key`, in order.
pub open spec fn pairs_without(pairs: Seq<(Seq<char>, Seq<char>)>, key: Seq<char>) -> Seq<
    (Seq<char>, Seq<char>),
> {
    pairs.filter(|p: (Seq<char>, Seq<char>)| p.0 != key)
}

/// No pair left after dropping a key has that key.
pub proof fn lemma_pairs_without(pairs: Seq<(Seq<char>, Seq<char>)>, key: Seq<char>)
    ensures
        forall|i: int|
            0 <= i < pairs_without(pairs, key).len() ==> (#[trigger] pairs_without(pairs, key)[i]).0
                != key,
    decreases pairs.len(),
{
    reveal(Seq::filter);
    if pairs.len() > 0 {
        lemma_pairs_without(pairs.drop_last(), key);
        let a = pairs_without(pairs, key);
        let b = pairs_without(pairs.drop_last(), key);
        if pairs.last().0 != key {
            assert(a == b.push(pairs.last()));
        } else {
            assert(a == b);
        }
    }
}

/// `pairs` without those whose key is `key`.
pub fn drop_key(pairs: &Vec<(String, String)>, key: &str) -> (r: Vec<(String, String)>)
    ensures
        r.deep_view() == pairs_without(pairs.deep_view(), key@),
{
    let ghost all = pairs.deep_view();
    let ghost pred = |p: (Seq<char>, Seq<char>)| p.0 != key@;
    let mut out: Vec<(String, String)> = Vec::new();
    let mut i: usize = 0;
    while i < pairs.len()
        invariant
            i <= pairs.len(),
            all == pairs.deep_view(),
            pred == (|p: (Seq<char>, Seq<char>)| p.0 != key@),
            out.deep_view() == all.subrange(0, i as int).filter(pred),
        decreases pairs.len() - i,
    {
        proof {
            assert(all.subrange(0, i + 1).drop_last() =~= all.subrange(0, i as int));
            reveal_with_fuel(Seq::filter, 1);
        }
        let k = &pairs[i].0;
        let v = &pairs[i].1;
        let same = crate::text::eq_vec(&chars_of(k.as_str()), &chars_of(key));
        if !same {
            let ghost o0 = out.deep_view();
            let pair = (string_of(&chars_of(k.as_str())), string_of(&chars_of(v.as_str())));
            out.push(pair);
            assert(out.deep_view() =~= o0.push(all[i as int]));
        }
        i = i + 1;
    }
    assert(all.subrange(0, i as int) =~= all);
    out
}

/// The host of a URL without a leading "www.", lower-cased.
pub open spec fn host_spec(url: Seq<char>) -> Option<Seq<char>> {
    match url_parts_result(url) {
        None => None,
        Some(p) => match p.0 {
            None => None,
            Some(h) => Some(
                unicode_lowercase(
                    if starts_with(h, "www."@) {
                        h.subrange(4, h.len() as int)
                    } else {
                        h
                    },
                ),
            ),
        },
    }
}

/// The host of `url` without "www.", lower-cased; nothing when `url` does
/// not parse or has no host.
pub fn host_of(url: &str) -> (r: Option<String>)
    ensures
        opt_string_view(r) == host_spec(url@),
{
    let parts = match parse_url(url) {
        Ok(p) => p,
        Err(_) => return None,
    };
    match parts.host {
        None => None,
        Some(h) => {
            let hv = chars_of(h.as_str());
            let www = chars_of("www.");
            proof {
                reveal_strlit("www.");
            }
            let rest = if starts_with_exec(&hv, &www) {
                slice_vec(&hv, 4, hv.len())
            } else {
                slice_vec(&hv, 0, hv.len())
            };
            proof {
                if starts_with(hv@, "www."@) {
                    assert(rest@ =~= hv@.subrange(4, hv@.len() as int));
                } else {
                    assert(rest@ =~= hv@);
                }
            }
            Some(string_of(&to_lowercase_vec(&rest)))
        },
    }
}

} // verus!
