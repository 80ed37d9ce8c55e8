//! Reddit: the "Who's hiring" sources, the URLs of their threads, and the
//! jobs their comments become.

use crate::budget::opt_string_view;
use crate::clock::{from_timestamp_secs, now_unix};
use crate::display::{ellip, ellip_spec};
use crate::fields::RustFields;
use crate::hackernews::{first_text_line, first_text_line_of, posted_or, url_encoded};
use crate::models::{Data, Job, Platform, RedditJobDetail};
use crate::text::{
    chars_of, copy_opt_string, copy_string, copy_strings, eq_vec, lines_of, non_empty_copy,
    non_empty_view, push_str, string_of, strings_view,
};
use vstd::prelude::*;

verus! {

/// A subreddit searched for its latest hiring thread: the search words,
/// and the pattern a thread title must match.
#[derive(Debug, Clone, Copy)]
pub struct Source {
    pub subreddit: &'static str,
    pub query: &'static str,
    pub title_filter: &'static str,
}

/// The sources searched: r/rust's "Who's Hiring" threads.
pub fn sources() -> (r: Vec<Source>)
    ensures
        r@.len() == 1,
        r@[0].subreddit@ == "rust"@,
        r@[0].query@ == "Who's Hiring"@,
        r@[0].title_filter@ == "(?i)who's hiring"@,
{
    vec![Source { subreddit: "rust", query: "Who's Hiring", title_filter: "(?i)who's hiring" }]
}

/// The search for a source's threads: the top 25 of all time in the
/// subreddit.
pub fn search_url(source: &Source) -> (r: String)
    ensures
        r@ == "https://www.reddit.com/r/"@ + source.subreddit@ + "/search.json?q="@ + url_encoded(
            source.query@,
        ) + "&restrict_sr=1&sort=top&t=all&limit=25"@,
{
    let mut out = chars_of("https://www.reddit.com/r/");
    push_str(&mut out, source.subreddit);
    push_str(&mut out, "/search.json?q=");
    push_str(&mut out, crate::hackernews::encode_component(source.query).as_str());
    push_str(&mut out, "&restrict_sr=1&sort=top&t=all&limit=25");
    string_of(&out)
}

/// The top-level comments of a thread, newest first, up to 500.
pub fn comments_url(thread_id: &str) -> (r: String)
    ensures
        r@ == "https://www.reddit.com/comments/"@ + thread_id@ + ".json?limit=500&depth=1&sort=new"@,
{
    let mut out = chars_of("https://www.reddit.com/comments/");
    push_str(&mut out, thread_id);
    push_str(&mut out, ".json?limit=500&depth=1&sort=new");
    string_of(&out)
}

/// The Reddit page of a comment.
pub fn permalink_url(permalink: &str) -> (r: String)
    ensures
        r@ == "https://www.reddit.com"@ + permalink@,
{
    let mut out = chars_of("https://www.reddit.com");
    push_str(&mut out, permalink);
    string_of(&out)
}

/// The longest title a job gets, in characters.
pub const MAX_TITLE_LEN: usize = 200;

/// What the Reddit scraper is set up with: the LLM program that reads
/// comments and the context given to it.
#[derive(Debug, Clone)]
pub struct RedditScraper {
    pub llm_bin: String,
    pub prompt_context: String,
}

impl RedditScraper {
    /// A scraper running the LLM `llm_bin`, telling it where the candidate
    /// lives.
    pub fn new(llm_bin: &str, location: &str) -> (r: RedditScraper)
        ensures
            r.llm_bin@ == llm_bin@,
            r.prompt_context@ == "Candidate location: "@ + location@,
    {
        let mut context = chars_of("Candidate location: ");
        push_str(&mut context, location);
        RedditScraper { llm_bin: string_of(&chars_of(llm_bin)), prompt_context: string_of(&context) }
    }
}

/// A top-level comment of a hiring thread, as a job candidate.
/// `created_utc` is the comment's time in whole seconds.
#[derive(Debug, Clone)]
pub struct Candidate {
    pub external_id: String,
    pub title: String,
    pub body: String,
    pub author: String,
    pub permalink: String,
    pub created_utc: i64,
}

/// The title of a comment: its first line with text, trimmed.
pub open spec fn comment_title_spec(body: Seq<char>) -> Seq<char> {
    first_text_line(lines_of(body))
}

pub fn comment_title(body: &str) -> (r: String)
    ensures
        r@ == comment_title_spec(body@),
{
    first_text_line_of(body)
}

/// A comment that is no job candidate: deleted, removed, or posted by the
/// moderation bot.
pub open spec fn is_dropped_spec(body: Seq<char>, author: Seq<char>) -> bool {
    body == "[deleted]"@ || body == "[removed]"@ || author == "AutoModerator"@
}

pub fn is_dropped(body: &str, author: &str) -> (r: bool)
    ensures
        r == is_dropped_spec(body@, author@),
{
    let b = chars_of(body);
    eq_vec(&b, &chars_of("[deleted]")) || eq_vec(&b, &chars_of("[removed]")) || eq_vec(
        &chars_of(author),
        &chars_of("AutoModerator"),
    )
}

/// The title of a job ad: the role the LLM found, else the comment's
/// title; cut to `MAX_TITLE_LEN` characters.
pub open spec fn reddit_title(c: Candidate, f: RustFields) -> Seq<char> {
    ellip_spec(
        match non_empty_view(f.role) {
            Some(r) => r,
            None => c.title@,
        },
        MAX_TITLE_LEN as nat,
    )
}

/// The job stored for a candidate the LLM read as a job ad, seen from `now`.
pub open spec fn reddit_job_matches(
    job: Job,
    source: Source,
    c: Candidate,
    f: RustFields,
    now: int,
) -> bool {
    let posted = posted_or(c.created_utc, now);
    &&& job.id == 0
    &&& job.platform == Platform::Reddit
    &&& job.external_id@ == c.external_id@
    &&& job.title@ == reddit_title(c, f)
    &&& job.description is None
    &&& job.url@ == "https://www.reddit.com"@ + c.permalink@
    &&& opt_string_view(job.budget) == opt_string_view(f.budget)
    &&& strings_view(job.tags@) == strings_view(f.tags@)
    &&& (match job.raw {
        Data::Reddit { detail } => {
            &&& detail.subreddit@ == source.subreddit@
            &&& detail.author@ == c.author@
            &&& detail.permalink@ == c.permalink@
            &&& opt_string_view(detail.company) == non_empty_view(f.company)
            &&& opt_string_view(detail.role) == non_empty_view(f.role)
            &&& opt_string_view(detail.location) == non_empty_view(f.location)
            &&& detail.description@ == c.body@
            &&& detail.posted_at == posted
        },
        _ => false,
    })
    &&& opt_string_view(job.company) == non_empty_view(f.company)
    &&& job.created_at == posted
    &&& job.updated_at == now
    &&& job.note is None
    &&& job.liked is None
    &&& job.applied_at is None
    &&& job.remote == (f.remote == Some(true))
}

/// The job for a candidate of `source`, given what the LLM extracted from
/// it and the current time `now`: nothing unless it is a job ad.
pub fn reddit_job_at(source: &Source, c: &Candidate, f: &RustFields, now: i64) -> (r: Option<Job>)
    ensures
        r is Some <==> f.is_job_ad,
        r matches Some(job) ==> reddit_job_matches(job, *source, *c, *f, now as int),
{
    if !f.is_job_ad {
        return None;
    }
    let company = non_empty_copy(&f.company);
    let role = non_empty_copy(&f.role);
    let location = non_empty_copy(&f.location);
    let title = match &role {
        Some(r) => ellip(r.as_str(), MAX_TITLE_LEN),
        None => ellip(c.title.as_str(), MAX_TITLE_LEN),
    };
    let posted_at = match from_timestamp_secs(c.created_utc) {
        Some(t) => t,
        None => now,
    };
    let remote = match f.remote {
        Some(b) => b,
        None => false,
    };
    Some(Job {
        id: 0,
        platform: Platform::Reddit,
        external_id: copy_string(&c.external_id),
        title,
        description: None,
        url: permalink_url(c.permalink.as_str()),
        budget: copy_opt_string(&f.budget),
        tags: copy_strings(&f.tags),
        raw: Data::Reddit {
            detail: RedditJobDetail {
                subreddit: string_of(&chars_of(source.subreddit)),
                author: copy_string(&c.author),
                permalink: copy_string(&c.permalink),
                company: copy_opt_string(&company),
                role,
                location,
                description: copy_string(&c.body),
                posted_at,
            },
        },
        company,
        created_at: posted_at,
        updated_at: now,
        note: None,
        liked: None,
        applied_at: None,
        remote,
    })
}

/// The job for a candidate, stamped with the time of the call.
pub fn reddit_job(source: &Source, c: &Candidate, f: &RustFields) -> (r: Option<Job>)
    ensures
        r is Some <==> f.is_job_ad,
        r matches Some(job) ==> reddit_job_matches(job, *source, *c, *f, job.updated_at as int),
{
    reddit_job_at(source, c, f, now_unix())
}

} // verus!
