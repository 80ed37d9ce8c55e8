//! Upwork: job ids, job URLs, search-page URLs and budget text.

use crate::budget::{budget_text, opt_string_view};
use crate::extractors::{parse_upwork_budget, upwork_budget_spec};
use crate::text::{
    chars_of, contains_seq, dec, eq_vec, is_ascii_digit, last_index_of, last_index_of_exec,
    push_all, push_decimal, push_str, slice_vec, starts_with, starts_with_exec, string_of, trim,
    trim_vec,
};
use crate::urls::{
    drop_key, form_urlencode, form_urlencoded_result, pairs_without, parse_url, url_parts_result,
    url_with_query, url_with_query_result,
};
use crate::clock::now_unix;
use crate::models::{parse_relative_time_at, relative_time_at, Data, Job, Platform, UpworkJobDetail};
use crate::text::{copy_opt_string, copy_string, copy_strings, strings_view};
use vstd::prelude::*;

verus! {

/// The prefix of a canonical Upwork job id.
pub const UPWORK_ID_PREFIX: &'static str = "~02";

/// `s` with `p` removed from its front as often as it stands there
/// (`str::trim_start_matches`).
pub open spec fn strip_prefix_all(s: Seq<char>, p: Seq<char>) -> Seq<char>
    decreases s.len(),
{
    if p.len() > 0 && starts_with(s, p) {
        strip_prefix_all(s.subrange(p.len() as int, s.len() as int), p)
    } else {
        s
    }
}

pub fn strip_prefix_all_vec(v: &Vec<char>, p: &Vec<char>) -> (r: Vec<char>)
    ensures
        r@ == strip_prefix_all(v@, p@),
{
    let mut i: usize = 0;
    if p.len() == 0 {
        return slice_vec(v, 0, v.len());
    }
    assert(v@.subrange(0, v.len() as int) =~= v@);
    loop
        invariant
            i <= v.len(),
            p.len() > 0,
            strip_prefix_all(v@.subrange(i as int, v.len() as int), p@) == strip_prefix_all(
                v@,
                p@,
            ),
        decreases v.len() - i,
    {
        let rest = slice_vec(v, i, v.len());
        if starts_with_exec(&rest, p) {
            proof {
                assert(rest@.subrange(p.len() as int, rest@.len() as int) =~= v@.subrange(
                    i + p.len(),
                    v.len() as int,
                ));
            }
            i = i + p.len();
        } else {
            return rest;
        }
    }
}

/// The digits of an Upwork id: trimmed, with every leading "~02", then
/// every leading "02", then every leading '~' removed, trimmed again.
pub open spec fn upwork_id_digits(id: Seq<char>) -> Seq<char> {
    trim(
        strip_prefix_all(
            strip_prefix_all(strip_prefix_all(trim(id), seq!['~', '0', '2']), seq!['0', '2']),
            seq!['~'],
        ),
    )
}

/// The canonical form "~02{digits}" of an Upwork id; empty when no digits
/// are left.
pub open spec fn normalized_upwork_id(id: Seq<char>) -> Seq<char> {
    let d = upwork_id_digits(id);
    if d.len() == 0 {
        Seq::empty()
    } else {
        seq!['~', '0', '2'] + d
    }
}

/// Normalizes an Upwork external id to `~02{digits}`.
pub fn normalize_upwork_external_id(id: &str) -> (r: String)
    ensures
        r@ == normalized_upwork_id(id@),
{
    let p1 = vec!['~', '0', '2'];
    let p2 = vec!['0', '2'];
    let p3 = vec!['~'];
    assert(p1@ =~= seq!['~', '0', '2']);
    assert(p2@ =~= seq!['0', '2']);
    assert(p3@ =~= seq!['~']);
    let t = trim_vec(&chars_of(id));
    let a = strip_prefix_all_vec(&t, &p1);
    let b = strip_prefix_all_vec(&a, &p2);
    let c = strip_prefix_all_vec(&b, &p3);
    let d = trim_vec(&c);
    if d.len() == 0 {
        return String::new();
    }
    let mut out: Vec<char> = vec!['~', '0', '2'];
    push_all(&mut out, &d);
    string_of(&out)
}

proof fn lemma_trim_keeps(x: Seq<char>)
    requires
        x.len() > 0,
        !crate::text::is_white_space(x[0]),
        !crate::text::is_white_space(x.last()),
    ensures
        trim(x) == x,
{
    assert(crate::text::trim_start(x) == x);
    assert(crate::text::trim_end(x) == x);
}

/// Canonical ids stay as they are, and bare digits get the prefix: for
/// digits `d` not starting with "02", both "~02{d}" and `d` normalize to
/// "~02{d}".
pub proof fn lemma_canonical_id(d: Seq<char>)
    requires
        d.len() > 0,
        crate::text::all_digits(d),
        !starts_with(d, seq!['0', '2']),
    ensures
        normalized_upwork_id(seq!['~', '0', '2'] + d) == seq!['~', '0', '2'] + d,
        normalized_upwork_id(d) == seq!['~', '0', '2'] + d,
{
    let p = seq!['~', '0', '2'];
    let full = p + d;
    assert(is_ascii_digit(d[0]));
    assert(is_ascii_digit(d.last()));
    assert(full[0] == '~');
    assert(full.last() == d.last());
    lemma_trim_keeps(full);
    lemma_trim_keeps(d);
    assert(full.subrange(0, 3) =~= p);
    assert(full.subrange(3, full.len() as int) =~= d);
    assert(d.subrange(0, 1) != seq!['~']) by {
        assert(d.subrange(0, 1)[0] == d[0]);
    }
    assert(!starts_with(d, p)) by {
        if d.len() >= 3 {
            assert(d.subrange(0, 3)[0] == d[0]);
        }
    }
    assert(strip_prefix_all(d, p) == d);
    assert(strip_prefix_all(full, p) == strip_prefix_all(d, p));
    assert(strip_prefix_all(d, seq!['0', '2']) == d);
    assert(strip_prefix_all(d, seq!['~']) == d);
    assert(upwork_id_digits(full) == d);
    assert(upwork_id_digits(d) == d);
}

/// The text shown for an Upwork budget: the parsed budget when it reads,
/// else the trimmed input.
pub open spec fn upwork_budget_text(s: Seq<char>) -> Seq<char> {
    match upwork_budget_spec(s) {
        Some(b) => budget_text(b),
        None => trim(s),
    }
}

pub fn format_upwork_budget(s: &str) -> (r: String)
    ensures
        r@ == upwork_budget_text(s@),
{
    match parse_upwork_budget(s) {
        Some(b) => b.to_string(),
        None => crate::text::trim_str(s),
    }
}

/// The last non-empty path segment.
pub open spec fn last_nonempty(segs: Seq<Seq<char>>) -> Option<Seq<char>>
    decreases segs.len(),
{
    if segs.len() == 0 {
        None
    } else if segs.last().len() > 0 {
        Some(segs.last())
    } else {
        last_nonempty(segs.drop_last())
    }
}

/// A part that can hold an id: it has a '~' or an ASCII digit.
pub open spec fn id_like(p: Seq<char>) -> bool {
    exists|i: int| 0 <= i < p.len() && (p[i] == '~' || is_ascii_digit(p[i]))
}

/// The last '_'-separated part of `s` that can hold an id.
pub open spec fn last_id_part(s: Seq<char>) -> Option<Seq<char>>
    decreases s.len(),
{
    let i = last_index_of(s, '_');
    let part = s.subrange(i + 1, s.len() as int);
    if id_like(part) {
        Some(part)
    } else if i < 0 {
        None
    } else {
        proof {
            lemma_last_index_range(s, '_');
        }
        last_id_part(s.subrange(0, i))
    }
}

/// The id in a canonical or slugged Upwork job URL.
pub open spec fn upwork_id_in_url(url: Seq<char>) -> Option<Seq<char>> {
    match url_parts_result(url) {
        None => None,
        Some(p) => match p.2 {
            None => None,
            Some(segs) => match last_nonempty(segs) {
                None => None,
                Some(seg) => match last_id_part(seg) {
                    None => None,
                    Some(part) => Some(normalized_upwork_id(part)),
                },
            },
        },
    }
}

fn id_like_exec(v: &Vec<char>) -> (r: bool)
    ensures
        r == id_like(v@),
{
    let mut i: usize = 0;
    while i < v.len()
        invariant
            i <= v.len(),
            forall|j: int| 0 <= j < i ==> !(v@[j] == '~' || is_ascii_digit(v@[j])),
        decreases v.len() - i,
    {
        if v[i] == '~' || (v[i] >= '0' && v[i] <= '9') {
            return true;
        }
        i = i + 1;
    }
    false
}

pub proof fn lemma_last_index_range(s: Seq<char>, c: char)
    ensures
        -1 <= last_index_of(s, c) < s.len(),
    decreases s.len(),
{
    if s.len() > 0 && s.last() != c {
        lemma_last_index_range(s.drop_last(), c);
    }
}

fn last_id_part_exec(s: &Vec<char>) -> (r: Option<Vec<char>>)
    ensures
        crate::pattern::opt_chars(r) == last_id_part(s@),
    decreases s.len(),
{
    proof {
        lemma_last_index_range(s@, '_');
    }
    let (start, cut) = match last_index_of_exec(s, '_') {
        Some(i) => (i + 1, Some(i)),
        None => (0, None),
    };
    let part = slice_vec(s, start, s.len());
    if id_like_exec(&part) {
        return Some(part);
    }
    match cut {
        None => None,
        Some(i) => {
            let head = slice_vec(s, 0, i);
            last_id_part_exec(&head)
        },
    }
}

fn last_nonempty_exec(segs: &Vec<String>) -> (r: Option<Vec<char>>)
    ensures
        crate::pattern::opt_chars(r) == last_nonempty(segs.deep_view()),
{
    let mut j: usize = segs.len();
    assert(segs.deep_view().subrange(0, j as int) =~= segs.deep_view());
    while j > 0
        invariant
            j <= segs.len(),
            last_nonempty(segs.deep_view()) == last_nonempty(segs.deep_view().subrange(0, j as int)),
        decreases j,
    {
        proof {
            assert(segs.deep_view().subrange(0, j as int).drop_last() =~= segs.deep_view().subrange(
                0,
                j - 1,
            ));
        }
        let c = chars_of(segs[j - 1].as_str());
        if c.len() > 0 {
            return Some(c);
        }
        j = j - 1;
    }
    None
}

/// Reads the external id from a canonical or slugged Upwork job URL.
pub fn extract_upwork_external_id_from_url(url: &str) -> (r: Option<String>)
    ensures
        opt_string_view(r) == upwork_id_in_url(url@),
{
    let parts = match parse_url(url) {
        Ok(p) => p,
        Err(_) => return None,
    };
    let segs = match parts.segments {
        Some(s) => s,
        None => return None,
    };
    let seg = match last_nonempty_exec(&segs) {
        Some(s) => s,
        None => return None,
    };
    match last_id_part_exec(&seg) {
        None => None,
        Some(part) => Some(normalize_upwork_external_id(string_of(&part).as_str())),
    }
}

/// A job URL without slug, query and referrer; the input when no id is
/// found in it.
pub open spec fn normalized_upwork_url(url: Seq<char>) -> Seq<char> {
    match upwork_id_in_url(url) {
        Some(id) => "https://www.upwork.com/jobs/"@ + id,
        None => url,
    }
}

pub fn normalize_upwork_url(url: &str) -> (r: String)
    ensures
        r@ == normalized_upwork_url(url@),
{
    match extract_upwork_external_id_from_url(url) {
        Some(id) => {
            let mut out: Vec<char> = Vec::new();
            push_str(&mut out, "https://www.upwork.com/jobs/");
            push_str(&mut out, id.as_str());
            string_of(&out)
        },
        None => string_of(&chars_of(url)),
    }
}

/// A URL that did not parse.
#[derive(Debug, Clone)]
pub struct InvalidUrl {
    pub url: String,
}

/// The search URL for page `page`: the query's "page" pairs removed, and
/// "page={page}" appended from page 2 on; no query at all when nothing is
/// left. Nothing when the URL does not parse.
pub open spec fn paged_url(url: Seq<char>, page: u32) -> Option<Seq<char>> {
    match url_parts_result(url) {
        None => None,
        Some(p) => {
            let q = form_urlencoded_result(paged_pairs(p.3, page));
            url_with_query_result(
                url,
                if q.len() == 0 {
                    None
                } else {
                    Some(q)
                },
            )
        },
    }
}

/// The query pairs a search URL gets for page `page`.
pub open spec fn paged_pairs(q: Seq<(Seq<char>, Seq<char>)>, page: u32) -> Seq<(Seq<char>, Seq<char>)> {
    let kept = pairs_without(q, "page"@);
    if page > 1 {
        kept.push(("page"@, dec(page as nat)))
    } else {
        kept
    }
}

/// Page 1 is the search itself: no "page" pair is left. From page 2 on
/// the query has exactly one "page" pair, the last one, with the number.
pub proof fn lemma_one_page_pair(q: Seq<(Seq<char>, Seq<char>)>, page: u32)
    ensures
        page <= 1 ==> forall|i: int|
            0 <= i < paged_pairs(q, page).len() ==> (#[trigger] paged_pairs(q, page)[i]).0 != "page"@,
        page > 1 ==> {
            let p = paged_pairs(q, page);
            &&& p.last() == ("page"@, dec(page as nat))
            &&& forall|i: int| 0 <= i < p.len() - 1 ==> (#[trigger] p[i]).0 != "page"@
        },
{
    crate::urls::lemma_pairs_without(q, "page"@);
    if page > 1 {
        let kept = pairs_without(q, "page"@);
        assert forall|i: int| 0 <= i < paged_pairs(q, page).len() - 1 implies (
        #[trigger] paged_pairs(q, page)[i]).0 != "page"@ by {
            assert(paged_pairs(q, page)[i] == kept[i]);
        }
    }
}

pub fn set_url_page_param(url: &str, page: u32) -> (r: Result<String, InvalidUrl>)
    ensures
        match r {
            Ok(s) => paged_url(url@, page) == Some(s@),
            Err(e) => paged_url(url@, page) is None && e.url@ == url@,
        },
        r is Err <==> url_parts_result(url@) is None,
{
    let parts = match parse_url(url) {
        Ok(p) => p,
        Err(_) => return Err(InvalidUrl { url: string_of(&chars_of(url)) }),
    };
    let mut pairs = drop_key(&parts.query, "page");
    if page > 1 {
        let ghost p0 = pairs.deep_view();
        let v = string_of(&crate::text::decimal_vec(page as u64));
        pairs.push((string_of(&chars_of("page")), v));
        assert(pairs.deep_view() =~= p0.push(("page"@, dec(page as nat))));
    }
    let q = form_urlencode(&pairs);
    let res = if q.as_str().is_empty() {
        url_with_query(url, None)
    } else {
        url_with_query(url, Some(q.as_str()))
    };
    match res {
        Ok(s) => Ok(s),
        Err(_) => Err(InvalidUrl { url: string_of(&chars_of(url)) }),
    }
}

/// The Upwork scraper; it keeps no state of its own.
#[derive(Debug, Clone, Copy)]
pub struct UpworkScraper;

impl UpworkScraper {
    pub fn new() -> (r: UpworkScraper) {
        UpworkScraper
    }
}

impl Default for UpworkScraper {
    fn default() -> (r: UpworkScraper) {
        UpworkScraper
    }
}

/// A job card of the Upwork search page.
#[derive(Debug, Clone)]
pub struct UpworkJobCard {
    pub external_id: String,
    pub title: String,
    pub description: Option<String>,
    pub url: String,
    pub budget: Option<String>,
    /// When the job was posted (Unix seconds), if the card said.
    pub posted_at_text: Option<i64>,
    pub tags: Vec<String>,
}

/// A job detail as the Upwork job page gives it: all text.
#[derive(Debug, Clone)]
pub struct RawJobDetail {
    pub proposals: String,
    pub last_viewed: String,
    pub interviewing: String,
    pub invites_sent: String,
    pub unanswered_invites: String,
    pub description: String,
    pub exact_budget: String,
    pub experience_level: String,
    pub hires: String,
    pub project_type: String,
    pub duration: String,
    pub hours_per_week: String,
    pub tags: Vec<String>,
    pub posted_at_text: String,
}

/// The job detail of a page, seen from `now`: relative times read, the
/// budget formatted, and `now` as the posting time when it does not read.
pub open spec fn upwork_detail_matches(d: UpworkJobDetail, raw: RawJobDetail, now: int) -> bool {
    &&& d.proposals@ == raw.proposals@
    &&& (match d.last_viewed {
        Some(t) => relative_time_at(raw.last_viewed@, now) == Some(t as int),
        None => relative_time_at(raw.last_viewed@, now) is None,
    })
    &&& d.interviewing@ == raw.interviewing@
    &&& d.invites_sent@ == raw.invites_sent@
    &&& d.unanswered_invites@ == raw.unanswered_invites@
    &&& d.description@ == raw.description@
    &&& d.exact_budget@ == upwork_budget_text(raw.exact_budget@)
    &&& d.experience_level@ == raw.experience_level@
    &&& d.hires@ == raw.hires@
    &&& d.project_type@ == raw.project_type@
    &&& d.duration@ == raw.duration@
    &&& d.hours_per_week@ == raw.hours_per_week@
    &&& strings_view(d.tags@) == strings_view(raw.tags@)
    &&& d.posted_at == Some(
        (match relative_time_at(raw.posted_at_text@, now) {
            Some(t) => t,
            None => now,
        }) as i64,
    )
}



/// The job detail of a page, seen from `now`.
pub fn upwork_detail_at(raw: &RawJobDetail, now: i64) -> (d: UpworkJobDetail)
    ensures
        upwork_detail_matches(d, *raw, now as int),
{
    let posted = match parse_relative_time_at(raw.posted_at_text.as_str(), now) {
        Some(t) => t,
        None => now,
    };
    UpworkJobDetail {
        proposals: copy_string(&raw.proposals),
        last_viewed: parse_relative_time_at(raw.last_viewed.as_str(), now),
        interviewing: copy_string(&raw.interviewing),
        invites_sent: copy_string(&raw.invites_sent),
        unanswered_invites: copy_string(&raw.unanswered_invites),
        description: copy_string(&raw.description),
        exact_budget: format_upwork_budget(raw.exact_budget.as_str()),
        experience_level: copy_string(&raw.experience_level),
        hires: copy_string(&raw.hires),
        project_type: copy_string(&raw.project_type),
        duration: copy_string(&raw.duration),
        hours_per_week: copy_string(&raw.hours_per_week),
        tags: copy_strings(&raw.tags),
        posted_at: Some(posted),
    }
}

impl UpworkJobDetail {
    /// The job detail of a page, seen from the time of the call.
    pub fn from_raw(raw: &RawJobDetail) -> (d: UpworkJobDetail)
        ensures
            exists|now: i64| upwork_detail_matches(d, *raw, now as int),
    {
        upwork_detail_at(raw, now_unix())
    }
}

/// A card is skipped when the job is stored and either was fetched less
/// than `ttl` seconds before this run started, or was posted a week or
/// more before `now`.
pub open spec fn skip_card_spec(
    posted: Option<i64>,
    updated_at: Option<i64>,
    fetch_started: int,
    ttl: int,
    now: int,
) -> bool {
    let stale = match posted {
        Some(p) => now - p >= 604800,
        None => false,
    };
    match updated_at {
        Some(ts) => fetch_started - ts < ttl || stale,
        None => false,
    }
}

pub fn skip_card(
    posted: Option<i64>,
    updated_at: Option<i64>,
    fetch_started: i64,
    ttl: i64,
    now: i64,
) -> (r: bool)
    ensures
        r == skip_card_spec(posted, updated_at, fetch_started as int, ttl as int, now as int),
{
    let stale = match posted {
        Some(p) => now as i128 - p as i128 >= 604800,
        None => false,
    };
    match updated_at {
        Some(ts) => (fetch_started as i128 - ts as i128) < ttl as i128 || stale,
        None => false,
    }
}

/// The job stored for a card and its detail, seen from `now`.
pub open spec fn upwork_job_matches(job: Job, card: UpworkJobCard, detail: UpworkJobDetail, now: int) -> bool {
    &&& job.id == 0
    &&& job.platform == Platform::Upwork
    &&& job.external_id@ == card.external_id@
    &&& job.title@ == card.title@
    &&& opt_string_view(job.description) == opt_string_view(card.description)
    &&& job.url@ == card.url@
    &&& opt_string_view(job.budget) == opt_string_view(card.budget)
    &&& strings_view(job.tags@) == strings_view(card.tags@)
    &&& job.raw == Data::Upwork { detail }
    &&& job.company is None
    &&& job.created_at == (match card.posted_at_text {
        Some(t) => t as int,
        None => now,
    })
    &&& job.updated_at == now
    &&& job.note is None
    &&& job.liked is None
    &&& job.applied_at is None
    &&& job.remote
}


/// The job stored for a card and its detail, seen from `now`: unrated,
/// not applied to, remote.
pub fn upwork_job_at(card: &UpworkJobCard, detail: UpworkJobDetail, now: i64) -> (job: Job)
    ensures
        upwork_job_matches(job, *card, detail, now as int),
{
    Job {
        id: 0,
        platform: Platform::Upwork,
        external_id: copy_string(&card.external_id),
        title: copy_string(&card.title),
        description: copy_opt_string(&card.description),
        url: copy_string(&card.url),
        budget: copy_opt_string(&card.budget),
        tags: copy_strings(&card.tags),
        raw: Data::Upwork { detail },
        company: None,
        created_at: match card.posted_at_text {
            Some(t) => t,
            None => now,
        },
        updated_at: now,
        note: None,
        liked: None,
        remote: true,
        applied_at: None,
    }
}

} // verus!
