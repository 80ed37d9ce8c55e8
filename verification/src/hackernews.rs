//! Hacker News "Who is hiring": the Algolia search URL the scraper
//! accepts, the top-level comments gathered page by page, and the jobs the
//! comments become.

use crate::budget::opt_string_view;
use crate::clock::{from_timestamp_secs, now_unix, secs_representable};
use crate::display::{ellip, ellip_spec};
use crate::fields::ExtractFields;
use crate::html::{html_to_md_or_default, html_to_md_or_empty};
use crate::models::{Data, HackerNewsJobDetail, Job, Platform};
use crate::text::{
    chars_of, contains_exec, contains_seq, copy_opt_string, copy_string, copy_strings, eq_vec,
    lines_of, lines_vec, non_empty_copy, non_empty_view, push_str, string_of, strings_view, trim,
    trim_vec, vecs_view,
};
use crate::urls::{parse_url, url_parts_result};
use vstd::prelude::*;

verus! {

/// The longest title a job gets, in characters.
pub const MAX_TITLE_LEN: usize = 200;

/// A comment found by the Algolia search.
#[derive(Debug, Clone)]
pub struct CommentHit {
    pub object_id: String,
    pub created_at_i: i64,
    pub author: String,
    pub comment_text: String,
    pub parent_id: i64,
    pub story_id: i64,
}

/// The first line with text, trimmed; empty when there is none.
pub open spec fn first_text_line(lines: Seq<Seq<char>>) -> Seq<char>
    decreases lines.len(),
{
    if lines.len() == 0 {
        Seq::empty()
    } else if trim(lines[0]).len() > 0 {
        trim(lines[0])
    } else {
        first_text_line(lines.drop_first())
    }
}

/// A title for a comment: the first line of text of its rendered HTML.
pub open spec fn title_from_html_spec(html: Seq<char>) -> Seq<char> {
    first_text_line(lines_of(html_to_md_or_empty(html)))
}

pub fn title_from_html(html: &str) -> (r: String)
    ensures
        r@ == title_from_html_spec(html@),
{
    let text = html_to_md_or_default(html);
    first_text_line_of(text.as_str())
}

/// The first line of `text` that has text, trimmed; empty when there is
/// none.
pub fn first_text_line_of(text: &str) -> (r: String)
    ensures
        r@ == first_text_line(lines_of(text@)),
{
    let lines = lines_vec(&chars_of(text));
    let ghost lv = vecs_view(lines@);
    let mut i: usize = 0;
    assert(lv.subrange(0, lv.len() as int) =~= lv);
    while i < lines.len()
        invariant
            i <= lines.len(),
            lv == vecs_view(lines@),
            lv == lines_of(text@),
            first_text_line(lv) == first_text_line(lv.subrange(i as int, lv.len() as int)),
        decreases lines.len() - i,
    {
        let t = trim_vec(&lines[i]);
        assert(lv.subrange(i as int, lv.len() as int)[0] == lines@[i as int]@);
        if t.len() > 0 {
            let ghost sub = lv.subrange(i as int, lv.len() as int);
            assert(sub.len() > 0);
            assert(t@ == trim(sub[0]));
            assert(first_text_line(sub) == trim(sub[0]));
            return string_of(&t);
        }
        assert(lv.subrange(i as int, lv.len() as int).drop_first() =~= lv.subrange(
            i + 1,
            lv.len() as int,
        ));
        i = i + 1;
    }
    String::new()
}

/// `text` cut to `max_len` characters, with '…' where it was cut.
pub fn truncate_with_ellipsis(text: &str, max_len: usize) -> (r: String)
    ensures
        r@ == ellip_spec(text@, max_len as nat),
{
    ellip(text, max_len)
}

/// A comment Hacker News flagged or killed.
pub open spec fn is_flagged_spec(hit: CommentHit) -> bool {
    contains_seq(hit.comment_text@, "[flagged]"@) || contains_seq(hit.comment_text@, "[dead]"@)
}

pub fn is_flagged(hit: &CommentHit) -> (r: bool)
    ensures
        r == is_flagged_spec(*hit),
{
    let t = chars_of(hit.comment_text.as_str());
    contains_exec(&t, &chars_of("[flagged]")) || contains_exec(&t, &chars_of("[dead]"))
}

/// The Hacker News page of a comment.
pub fn item_url(object_id: &str) -> (r: String)
    ensures
        r@ == "https://news.ycombinator.com/item?id="@ + object_id@,
{
    let mut out = chars_of("https://news.ycombinator.com/item?id=");
    push_str(&mut out, object_id);
    string_of(&out)
}

/// The characters `urlencoding::encode` leaves as they are.
pub open spec fn unreserved(c: char) -> bool {
    ('a' <= c && c <= 'z') || ('A' <= c && c <= 'Z') || ('0' <= c && c <= '9') || c == '-' || c
        == '_' || c == '.' || c == '~'
}

/// The UTF-8 encoding of a character.
pub open spec fn utf8_bytes(c: char) -> Seq<u8> {
    let n = c as int;
    if n < 0x80 {
        seq![n as u8]
    } else if n < 0x800 {
        seq![(0xC0 + n / 64) as u8, (0x80 + n % 64) as u8]
    } else if n < 0x10000 {
        seq![(0xE0 + n / 4096) as u8, (0x80 + (n / 64) % 64) as u8, (0x80 + n % 64) as u8]
    } else {
        seq![
            (0xF0 + n / 262144) as u8,
            (0x80 + (n / 4096) % 64) as u8,
            (0x80 + (n / 64) % 64) as u8,
            (0x80 + n % 64) as u8,
        ]
    }
}

/// The bytes `urlencoding::encode` leaves as they are: ASCII letters and
/// digits, '-', '.', '_' and '~'.
pub open spec fn unreserved_byte(b: u8) -> bool {
    (48 <= b <= 57) || (65 <= b <= 90) || (97 <= b <= 122) || b == 45 || b == 46 || b == 95 || b
        == 126
}

/// An upper-case hexadecimal digit.
pub open spec fn hex_digit(d: int) -> char {
    if d < 10 {
        (48 + d) as char
    } else {
        (55 + d) as char
    }
}

/// A byte as `urlencoding::encode` writes it: itself when unreserved, else
/// '%' and two upper-case hexadecimal digits.
pub open spec fn encoded_byte(b: u8) -> Seq<char> {
    if unreserved_byte(b) {
        seq![b as char]
    } else {
        seq!['%', hex_digit(b as int / 16), hex_digit(b as int % 16)]
    }
}

/// Bytes percent-encoded, one after another.
pub open spec fn encoded_bytes(bs: Seq<u8>) -> Seq<char>
    decreases bs.len(),
{
    if bs.len() == 0 {
        Seq::empty()
    } else {
        encoded_bytes(bs.drop_last()) + encoded_byte(bs.last())
    }
}

/// `s` percent-encoded as `urlencoding::encode` does it: the UTF-8 bytes of
/// each character, each byte kept or written as "%XX".
pub open spec fn url_encoded(s: Seq<char>) -> Seq<char>
    decreases s.len(),
{
    if s.len() == 0 {
        Seq::empty()
    } else {
        url_encoded(s.drop_last()) + encoded_bytes(utf8_bytes(s.last()))
    }
}

/// Text made only of unreserved characters is left as it is.
pub proof fn lemma_unreserved_unchanged(s: Seq<char>)
    requires
        forall|i: int| 0 <= i < s.len() ==> unreserved(#[trigger] s[i]),
    ensures
        url_encoded(s) == s,
    decreases s.len(),
{
    if s.len() > 0 {
        lemma_unreserved_unchanged(s.drop_last());
        let c = s.last();
        assert(unreserved(s[s.len() - 1]));
        let b = (c as int) as u8;
        assert(b as int == c as int);
        assert(utf8_bytes(c) == seq![b]);
        assert(unreserved_byte(b));
        assert((b as char) == c);
        assert(encoded_bytes(seq![b]) =~= seq![c]) by {
            let one = seq![b];
            assert(one.drop_last() =~= Seq::<u8>::empty());
            assert(one.last() == b);
            assert(encoded_bytes(one.drop_last()) =~= Seq::<char>::empty());
            assert(encoded_byte(b) =~= seq![c]);
            assert(encoded_bytes(one) == encoded_bytes(one.drop_last()) + encoded_byte(one.last()));
        }
        assert(s.drop_last() + seq![c] =~= s);
    }
}

/// `urlencoding::encode`: its source (`encode_into`) walks the UTF-8 bytes
/// of `s`, copies ASCII letters, digits, '-', '.', '_' and '~', and writes
/// every other byte as '%' and two upper-case hexadecimal digits.
#[verifier::external_body]
fn url_encode(s: &str) -> (r: String)
    ensures
        r@ == url_encoded(s@),
{
    urlencoding::encode(s).into_owned()
}

/// `s` percent-encoded for a URL (`urlencoding::encode`).
pub fn encode_component(s: &str) -> (r: String)
    ensures
        r@ == url_encoded(s@),
{
    url_encode(s)
}

/// The Hacker News page of an author's comments.
pub fn author_threads_url(author: &str) -> (r: String)
    ensures
        r@ == "https://news.ycombinator.com/threads?id="@ + url_encoded(author@),
{
    let mut out = chars_of("https://news.ycombinator.com/threads?id=");
    push_str(&mut out, url_encode(author).as_str());
    string_of(&out)
}

/// Why an Algolia URL was refused.
#[derive(Debug, Clone, Copy, PartialEq, Eq, Structural)]
pub enum AlgoliaUrlError {
    InvalidUrl,
    WrongHost,
    WrongPath,
}

/// The scraper searches hn.algolia.com at /api/v1/search_by_date only.
pub open spec fn algolia_url_check(url: Seq<char>) -> Result<(), AlgoliaUrlError> {
    match url_parts_result(url) {
        None => Err(AlgoliaUrlError::InvalidUrl),
        Some(p) => if p.0 != Some("hn.algolia.com"@) {
            Err(AlgoliaUrlError::WrongHost)
        } else if p.1 != "/api/v1/search_by_date"@ {
            Err(AlgoliaUrlError::WrongPath)
        } else {
            Ok(())
        },
    }
}

pub fn check_algolia_url(url: &str) -> (r: Result<(), AlgoliaUrlError>)
    ensures
        r == algolia_url_check(url@),
{
    let parts = match parse_url(url) {
        Ok(p) => p,
        Err(_) => return Err(AlgoliaUrlError::InvalidUrl),
    };
    let host_ok = match &parts.host {
        Some(h) => eq_vec(&chars_of(h.as_str()), &chars_of("hn.algolia.com")),
        None => false,
    };
    if !host_ok {
        return Err(AlgoliaUrlError::WrongHost);
    }
    if !eq_vec(&chars_of(parts.path.as_str()), &chars_of("/api/v1/search_by_date")) {
        return Err(AlgoliaUrlError::WrongPath);
    }
    Ok(())
}

/// What the Hacker News scraper is set up with: the command line of the
/// LLM that reads comments, the context given to it, and the Algolia search
/// URL.
#[derive(Debug, Clone)]
pub struct HackerNewsScraper {
    pub llm_cli: Option<String>,
    pub prompt_context: String,
    pub algolia_url: String,
}

impl HackerNewsScraper {
    /// A scraper for the Algolia URL `url`, telling the LLM where the
    /// candidate lives; refused unless the URL is Algolia's search by date.
    pub fn new(llm_cli: Option<String>, location: &str, url: &str) -> (r: Result<
        HackerNewsScraper,
        AlgoliaUrlError,
    >)
        ensures
            match r {
                Ok(s) => {
                    &&& algolia_url_check(url@) is Ok
                    &&& s.algolia_url@ == url@
                    &&& s.prompt_context@ == "Candidate location: "@ + location@
                    &&& opt_string_view(s.llm_cli) == opt_string_view(llm_cli)
                },
                Err(e) => algolia_url_check(url@) == Err::<(), AlgoliaUrlError>(e),
            },
    {
        match check_algolia_url(url) {
            Err(e) => Err(e),
            Ok(()) => {
                let mut context = chars_of("Candidate location: ");
                push_str(&mut context, location);
                Ok(HackerNewsScraper {
                    llm_cli,
                    prompt_context: string_of(&context),
                    algolia_url: string_of(&chars_of(url)),
                })
            },
        }
    }
}

/// The title of a job ad: the role the ad names, else the comment's first
/// line of text; cut to `MAX_TITLE_LEN` characters.
pub open spec fn hn_title(hit: CommentHit, f: ExtractFields) -> Seq<char> {
    ellip_spec(
        match non_empty_view(f.role) {
            Some(r) => r,
            None => title_from_html_spec(hit.comment_text@),
        },
        MAX_TITLE_LEN as nat,
    )
}

/// When a comment was posted: its Unix time, or `now` where `chrono` cannot
/// represent it.
pub open spec fn posted_or(secs: i64, now: int) -> int {
    if secs_representable(secs as int) {
        secs as int
    } else {
        now
    }
}

/// The job stored for a comment the LLM read as a job ad, seen from `now`.
pub open spec fn hn_job_matches(job: Job, hit: CommentHit, f: ExtractFields, now: int) -> bool {
    &&& job.id == 0
    &&& job.platform == Platform::Hackernews
    &&& job.external_id@ == hit.object_id@
    &&& job.title@ == hn_title(hit, f)
    &&& job.description is None
    &&& job.url@ == "https://news.ycombinator.com/item?id="@ + hit.object_id@
    &&& opt_string_view(job.budget) == opt_string_view(f.budget)
    &&& strings_view(job.tags@) == strings_view(f.tags@)
    &&& (match job.raw {
        Data::Hackernews { detail } => {
            &&& detail.author@ == hit.author@
            &&& detail.author_threads_url@ == "https://news.ycombinator.com/threads?id="@
                + url_encoded(hit.author@)
            &&& opt_string_view(detail.company) == non_empty_view(f.company)
            &&& opt_string_view(detail.role) == non_empty_view(f.role)
            &&& opt_string_view(detail.location) == non_empty_view(f.location)
            &&& detail.description@ == html_to_md_or_empty(hit.comment_text@)
        },
        _ => false,
    })
    &&& job.company is None
    &&& job.created_at == posted_or(hit.created_at_i, now)
    &&& job.updated_at == now
    &&& job.note is None
    &&& job.liked is None
    &&& job.applied_at is None
    &&& job.remote == (f.remote == Some(true))
}

/// The job for a comment, given what the LLM extracted from it and the
/// current time `now`: nothing unless the LLM read it as a job ad.
pub fn hn_job_at(hit: &CommentHit, f: &ExtractFields, now: i64) -> (r: Option<Job>)
    ensures
        r is Some <==> f.is_job_ad,
        r matches Some(job) ==> hn_job_matches(job, *hit, *f, now as int),
{
    if !f.is_job_ad {
        return None;
    }
    let company = non_empty_copy(&f.company);
    let role = non_empty_copy(&f.role);
    let location = non_empty_copy(&f.location);
    let title = match &role {
        Some(r) => truncate_with_ellipsis(r.as_str(), MAX_TITLE_LEN),
        None => truncate_with_ellipsis(title_from_html(hit.comment_text.as_str()).as_str(), MAX_TITLE_LEN),
    };
    let created_at = match from_timestamp_secs(hit.created_at_i) {
        Some(t) => t,
        None => now,
    };
    let remote = match f.remote {
        Some(b) => b,
        None => false,
    };
    Some(Job {
        id: 0,
        platform: Platform::Hackernews,
        external_id: copy_string(&hit.object_id),
        title,
        description: None,
        url: item_url(hit.object_id.as_str()),
        budget: copy_opt_string(&f.budget),
        tags: copy_strings(&f.tags),
        raw: Data::Hackernews {
            detail: HackerNewsJobDetail {
                author: copy_string(&hit.author),
                author_threads_url: author_threads_url(hit.author.as_str()),
                company,
                role,
                location,
                description: html_to_md_or_default(hit.comment_text.as_str()),
            },
        },
        company: None,
        created_at,
        updated_at: now,
        note: None,
        liked: None,
        applied_at: None,
        remote,
    })
}

/// The job for a comment, stamped with the time of the call.
pub fn hn_job(hit: &CommentHit, f: &ExtractFields) -> (r: Option<Job>)
    ensures
        r is Some <==> f.is_job_ad,
        r matches Some(job) ==> hn_job_matches(job, *hit, *f, job.updated_at as int),
{
    hn_job_at(hit, f, now_unix())
}

/// How many comments one search request asks for.
pub const HITS_PER_PAGE: usize = 1000;

/// The comments of `page` that answer the thread `thread_id` directly, in
/// order.
pub open spec fn top_level(page: Seq<CommentHit>, thread_id: i64) -> Seq<CommentHit>
    decreases page.len(),
{
    if page.len() == 0 {
        Seq::empty()
    } else {
        let rest = top_level(page.drop_last(), thread_id);
        if page.last().parent_id == thread_id {
            rest.push(page.last())
        } else {
            rest
        }
    }
}

/// The top-level comments gathered once one more page of search results
/// came back, and whether another page is worth asking for: an empty page
/// ends the search; otherwise its top-level comments join the others, and
/// the search ends, keeping the first `max`, once there are `max` of them or
/// the page was not full.
pub open spec fn gathered(
    top: Seq<CommentHit>,
    page: Seq<CommentHit>,
    thread_id: i64,
    max: nat,
) -> (Seq<CommentHit>, bool) {
    if page.len() == 0 {
        (top, false)
    } else {
        let all = top + top_level(page, thread_id);
        if all.len() >= max || page.len() < HITS_PER_PAGE {
            (
                if all.len() > max {
                    all.subrange(0, max as int)
                } else {
                    all
                },
                false,
            )
        } else {
            (all, true)
        }
    }
}

/// Every comment `top_level` keeps answers the thread.
proof fn lemma_top_level_answers(page: Seq<CommentHit>, thread_id: i64)
    ensures
        forall|k: int|
            0 <= k < top_level(page, thread_id).len() ==> (#[trigger] top_level(
                page,
                thread_id,
            )[k]).parent_id == thread_id,
    decreases page.len(),
{
    if page.len() > 0 {
        let rest = top_level(page.drop_last(), thread_id);
        lemma_top_level_answers(page.drop_last(), thread_id);
        if page.last().parent_id == thread_id {
            assert forall|k: int| 0 <= k < rest.push(page.last()).len() implies (#[trigger] rest.push(
                page.last(),
            )[k]).parent_id == thread_id by {
                if k < rest.len() {
                    assert(rest.push(page.last())[k] == rest[k]);
                }
            }
        }
    }
}

/// Gathering keeps to the thread: when every comment gathered so far
/// answers it directly, so does every comment gathered after another page.
pub proof fn lemma_gathered_answers_thread(
    top: Seq<CommentHit>,
    page: Seq<CommentHit>,
    thread_id: i64,
    max: nat,
)
    requires
        forall|k: int| 0 <= k < top.len() ==> (#[trigger] top[k]).parent_id == thread_id,
    ensures
        forall|k: int|
            0 <= k < gathered(top, page, thread_id, max).0.len() ==> (#[trigger] gathered(
                top,
                page,
                thread_id,
                max,
            ).0[k]).parent_id == thread_id,
{
    lemma_top_level_answers(page, thread_id);
    let all = top + top_level(page, thread_id);
    assert forall|k: int| 0 <= k < all.len() implies (#[trigger] all[k]).parent_id == thread_id by {
        if k >= top.len() {
            assert(all[k] == top_level(page, thread_id)[k - top.len()]);
        }
    }
}

/// Gathering never goes past the limit: once a page came back, at most
/// `max` comments are kept, and what was gathered before stays first.
pub proof fn lemma_gathered_bounded(
    top: Seq<CommentHit>,
    page: Seq<CommentHit>,
    thread_id: i64,
    max: nat,
)
    requires
        top.len() <= max,
    ensures
        gathered(top, page, thread_id, max).0.len() <= max,
        gathered(top, page, thread_id, max).0.subrange(0, top.len() as int) == top,
        gathered(top, page, thread_id, max).1 ==> gathered(top, page, thread_id, max).0.len()
            < max,
{
    let all = top + top_level(page, thread_id);
    assert(all.subrange(0, top.len() as int) =~= top);
    if all.len() > max {
        assert(all.subrange(0, max as int).subrange(0, top.len() as int) =~= top);
    }
}

/// Adds a page of search results to the top-level comments gathered so far;
/// true when the next page should be fetched.
pub fn absorb_page(top: &mut Vec<CommentHit>, page: Vec<CommentHit>, thread_id: i64, max: usize) -> (more: bool)
    ensures
        (final(top)@, more) == gathered(old(top)@, page@, thread_id, max as nat),
{
    let count = page.len();
    if count == 0 {
        return false;
    }
    let ghost t0 = top@;
    let ghost pg = page@;
    for h in it: page.into_iter()
        invariant
            count == pg.len(),
            it.seq() == pg,
            top@ == t0 + top_level(pg.subrange(0, it.index() as int), thread_id),
    {
        proof {
            let i = it.index() as int;
            assert(pg.subrange(0, i + 1).drop_last() =~= pg.subrange(0, i));
            assert(pg.subrange(0, i + 1).last() == pg[i]);
        }
        if h.parent_id == thread_id {
            top.push(h);
        }
    }
    assert(pg.subrange(0, count as int) =~= pg);
    if top.len() >= max || count < HITS_PER_PAGE {
        top.truncate(max);
        false
    } else {
        true
    }
}

/// A new job ad is a repeat when the same company posted the same role
/// within this many days.
pub const SIMILAR_POST_DAYS: i64 = 60;

/// The company and role to look for among recent posts before a Hacker
/// News job is stored: only a job whose detail names both has them.
pub open spec fn similar_key_spec(job: Job) -> Option<(Seq<char>, Seq<char>)> {
    match job.raw {
        Data::Hackernews { detail } => match (detail.company, detail.role) {
            (Some(c), Some(r)) => Some((c@, r@)),
            _ => None,
        },
        _ => None,
    }
}

pub fn similar_post_key(job: &Job) -> (r: Option<(String, String)>)
    ensures
        match r {
            Some(k) => similar_key_spec(*job) == Some((k.0@, k.1@)),
            None => similar_key_spec(*job) is None,
        },
{
    match &job.raw {
        Data::Hackernews { detail } => match (&detail.company, &detail.role) {
            (Some(c), Some(r)) => Some((copy_string(c), copy_string(r))),
            _ => None,
        },
        _ => None,
    }
}

/// The earliest time after which an earlier post makes a new one a repeat:
/// `SIMILAR_POST_DAYS` days before `now`.
pub fn similar_since(now: i64) -> (r: i64)
    requires
        now >= i64::MIN + SIMILAR_POST_DAYS * 86400,
    ensures
        r == now - SIMILAR_POST_DAYS * 86400,
{
    now - SIMILAR_POST_DAYS * 86400
}

} // verus!
