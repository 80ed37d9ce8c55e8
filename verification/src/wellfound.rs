//! Wellfound: search-page URLs and the jobs its pages embed.

use crate::budget::{budget_parse_spec, budget_text, opt_string_view, Budget};
use crate::clock::{from_timestamp_secs, now_unix};
use crate::hackernews::posted_or;
use crate::models::{Data, Job, Platform, WellfoundJobDetail};
use crate::text::{
    chars_of, copy_opt_string, copy_string, copy_strings, dec, ends_with, ends_with_exec, eq_vec,
    starts_with, starts_with_exec, string_of, strings_view,
};
use crate::urls::{drop_key, pairs_without, parse_url, url_parts_result, url_with_pairs, url_with_pairs_result};
use vstd::prelude::*;

verus! {

/// Why a Wellfound search URL was refused.
#[derive(Debug, Clone, Copy, PartialEq, Eq, Structural)]
pub enum WellfoundUrlError {
    /// The URL does not parse.
    InvalidUrl,
    /// The host is neither wellfound.com nor one of its subdomains.
    ForeignHost,
    /// The path does not start with "/role/".
    NotRolePath,
}

impl WellfoundUrlError {
    /// The error as it is shown to the user.
    pub fn message(&self) -> (r: &'static str)
        ensures
            r@ == (match *self {
                WellfoundUrlError::InvalidUrl => "invalid Wellfound URL"@,
                WellfoundUrlError::ForeignHost => "Wellfound URL must be on wellfound.com"@,
                WellfoundUrlError::NotRolePath => "Wellfound URL path must start with /role/"@,
            }),
    {
        match self {
            WellfoundUrlError::InvalidUrl => "invalid Wellfound URL",
            WellfoundUrlError::ForeignHost => "Wellfound URL must be on wellfound.com",
            WellfoundUrlError::NotRolePath => "Wellfound URL path must start with /role/",
        }
    }
}

/// The host is wellfound.com or a subdomain of it.
pub open spec fn wellfound_host(h: Seq<char>) -> bool {
    h == "wellfound.com"@ || ends_with(h, ".wellfound.com"@)
}

/// The URL of page `page` of a Wellfound search: the URL checked (host on
/// wellfound.com, path under "/role/"), its "page" pairs removed and
/// "page={page}" appended.
pub open spec fn page_url_spec(url: Seq<char>, page: u32) -> Result<Seq<char>, WellfoundUrlError> {
    match url_parts_result(url) {
        None => Err(WellfoundUrlError::InvalidUrl),
        Some(p) => {
            let host = match p.0 {
                Some(h) => h,
                None => Seq::empty(),
            };
            if !wellfound_host(host) {
                Err(WellfoundUrlError::ForeignHost)
            } else if !starts_with(p.1, "/role/"@) {
                Err(WellfoundUrlError::NotRolePath)
            } else {
                let pairs = pairs_without(p.3, "page"@).push(("page"@, dec(page as nat)));
                match url_with_pairs_result(url, pairs) {
                    Some(u) => Ok(u),
                    None => Err(WellfoundUrlError::InvalidUrl),
                }
            }
        },
    }
}

pub fn page_url(url: &str, page: u32) -> (r: Result<String, WellfoundUrlError>)
    ensures
        match r {
            Ok(s) => page_url_spec(url@, page) == Ok::<Seq<char>, WellfoundUrlError>(s@),
            Err(e) => page_url_spec(url@, page) == Err::<Seq<char>, WellfoundUrlError>(e),
        },
        r matches Err(WellfoundUrlError::InvalidUrl) ==> url_parts_result(url@) is None,
{
    let parts = match parse_url(url) {
        Ok(p) => p,
        Err(_) => return Err(WellfoundUrlError::InvalidUrl),
    };
    let host = match &parts.host {
        Some(h) => chars_of(h.as_str()),
        None => Vec::new(),
    };
    if !(eq_vec(&host, &chars_of("wellfound.com")) || ends_with_exec(
        &host,
        &chars_of(".wellfound.com"),
    )) {
        return Err(WellfoundUrlError::ForeignHost);
    }
    if !starts_with_exec(&chars_of(parts.path.as_str()), &chars_of("/role/")) {
        return Err(WellfoundUrlError::NotRolePath);
    }
    let mut pairs = drop_key(&parts.query, "page");
    let ghost p0 = pairs.deep_view();
    let v = string_of(&crate::text::decimal_vec(page as u64));
    pairs.push((string_of(&chars_of("page")), v));
    assert(pairs.deep_view() =~= p0.push(("page"@, dec(page as nat))));
    match url_with_pairs(url, &pairs) {
        Ok(s) => Ok(s),
        Err(_) => Err(WellfoundUrlError::InvalidUrl),
    }
}

/// A job of a Wellfound search page, with its company's fields inlined.
#[derive(Debug, Clone)]
pub struct RawWellfoundJob {
    pub id: String,
    pub title: String,
    pub slug: String,
    pub description: String,
    /// Such as "$135k – $175k • 0.05% – 0.25%".
    pub compensation: Option<String>,
    /// Such as "full-time".
    pub job_type: String,
    /// When the listing went live, in Unix seconds.
    pub live_start_at: i64,
    pub location_names: Vec<String>,
    pub remote: bool,
    pub remote_kind: Option<String>,
    pub accepted_remote_location_names: Vec<String>,
    pub years_experience_min: Option<u32>,
    pub years_experience_max: Option<u32>,
    pub primary_role_title: Option<String>,
    pub company_name: String,
    pub company_slug: Option<String>,
    /// Such as "SIZE_11_50".
    pub company_size: Option<String>,
    pub company_high_concept: Option<String>,
    pub company_logo_url: Option<String>,
}

/// One page of Wellfound jobs.
#[derive(Debug, Clone)]
pub struct WellfoundPage {
    pub jobs: Vec<RawWellfoundJob>,
    /// The server sent an out-of-range page back to page 1: the last page
    /// has been seen.
    pub end: bool,
    pub error: Option<String>,
}

/// The URL of a Wellfound job: "https://wellfound.com/jobs/{id}-{slug}".
pub fn job_url(job: &RawWellfoundJob) -> (r: String)
    ensures
        r@ == "https://wellfound.com/jobs/"@ + job.id@ + "-"@ + job.slug@,
{
    let mut out = chars_of("https://wellfound.com/jobs/");
    crate::text::push_str(&mut out, job.id.as_str());
    crate::text::push_str(&mut out, "-");
    crate::text::push_str(&mut out, job.slug.as_str());
    string_of(&out)
}

/// Listings older than this many days are not worth fetching.
pub const MAX_JOB_AGE_DAYS: i64 = 31;

/// A listing that went live more than `MAX_JOB_AGE_DAYS` days before `now`.
pub open spec fn too_old_spec(now: int, live_start_at: int) -> bool {
    now - live_start_at > MAX_JOB_AGE_DAYS * 24 * 3600
}

pub fn is_too_old(now: i64, live_start_at: i64) -> (r: bool)
    ensures
        r == too_old_spec(now as int, live_start_at as int),
{
    (now as i128) - (live_start_at as i128) > (MAX_JOB_AGE_DAYS as i128) * 24 * 3600
}

/// The budget of a listing: its compensation read as a yearly budget, the
/// compensation text itself when it does not read as one, and nothing when
/// there is no compensation.
pub open spec fn wellfound_budget(comp: Option<String>) -> Option<Seq<char>> {
    match comp {
        Some(c) => match budget_parse_spec(c@, Some("year"@)) {
            Some(b) => Some(budget_text(b)),
            None => Some(c@),
        },
        None => None,
    }
}

/// The detail stored for a listing, seen from `now`.
pub open spec fn wellfound_detail_matches(d: WellfoundJobDetail, hit: RawWellfoundJob, now: int) -> bool {
    &&& d.description@ == hit.description@
    &&& opt_string_view(d.compensation) == opt_string_view(hit.compensation)
    &&& d.job_type@ == hit.job_type@
    &&& strings_view(d.location_names@) == strings_view(hit.location_names@)
    &&& d.remote == hit.remote
    &&& opt_string_view(d.remote_kind) == opt_string_view(hit.remote_kind)
    &&& strings_view(d.accepted_remote_location_names@) == strings_view(
        hit.accepted_remote_location_names@,
    )
    &&& d.years_experience_min == hit.years_experience_min
    &&& d.years_experience_max == hit.years_experience_max
    &&& opt_string_view(d.primary_role_title) == opt_string_view(hit.primary_role_title)
    &&& d.company_name@ == hit.company_name@
    &&& opt_string_view(d.company_slug) == opt_string_view(hit.company_slug)
    &&& opt_string_view(d.company_size) == opt_string_view(hit.company_size)
    &&& opt_string_view(d.company_high_concept) == opt_string_view(hit.company_high_concept)
    &&& opt_string_view(d.company_logo_url) == opt_string_view(hit.company_logo_url)
    &&& d.posted_at == posted_or(hit.live_start_at, now)
}

/// The job stored for a listing, seen from `now`.
pub open spec fn wellfound_job_matches(job: Job, hit: RawWellfoundJob, now: int) -> bool {
    &&& job.id == 0
    &&& job.platform == Platform::Wellfound
    &&& job.external_id@ == hit.id@
    &&& job.title@ == hit.title@
    &&& job.description is None
    &&& job.url@ == "https://wellfound.com/jobs/"@ + hit.id@ + "-"@ + hit.slug@
    &&& opt_string_view(job.budget) == wellfound_budget(hit.compensation)
    &&& job.tags@.len() == 0
    &&& (match job.raw {
        Data::Wellfound { detail } => wellfound_detail_matches(detail, hit, now),
        _ => false,
    })
    &&& opt_string_view(job.company) == (if hit.company_name@.len() > 0 {
        Some(hit.company_name@)
    } else {
        None
    })
    &&& job.created_at == posted_or(hit.live_start_at, now)
    &&& job.updated_at == now
    &&& job.note is None
    &&& job.liked is None
    &&& job.applied_at is None
    &&& job.remote == hit.remote
}

/// The Wellfound scraper. It holds no settings here: telling whether a
/// listing is in English happens outside this crate.
#[derive(Debug, Clone, Copy)]
pub struct WellfoundScraper;

impl WellfoundScraper {
    pub fn new() -> (r: WellfoundScraper) {
        WellfoundScraper
    }

    /// The detail stored for a listing, with `now` as its time where
    /// `chrono` cannot represent the listing's.
    pub fn hit_to_detail_at(hit: &RawWellfoundJob, now: i64) -> (d: WellfoundJobDetail)
        ensures
            wellfound_detail_matches(d, *hit, now as int),
    {
        let posted_at = match from_timestamp_secs(hit.live_start_at) {
            Some(t) => t,
            None => now,
        };
        WellfoundJobDetail {
            description: copy_string(&hit.description),
            compensation: copy_opt_string(&hit.compensation),
            job_type: copy_string(&hit.job_type),
            location_names: copy_strings(&hit.location_names),
            remote: hit.remote,
            remote_kind: copy_opt_string(&hit.remote_kind),
            accepted_remote_location_names: copy_strings(&hit.accepted_remote_location_names),
            years_experience_min: hit.years_experience_min,
            years_experience_max: hit.years_experience_max,
            primary_role_title: copy_opt_string(&hit.primary_role_title),
            company_name: copy_string(&hit.company_name),
            company_slug: copy_opt_string(&hit.company_slug),
            company_size: copy_opt_string(&hit.company_size),
            company_high_concept: copy_opt_string(&hit.company_high_concept),
            company_logo_url: copy_opt_string(&hit.company_logo_url),
            posted_at,
        }
    }

    /// The job stored for a listing, seen from `now`: its compensation read
    /// as a yearly budget (the compensation text where it does not read as
    /// one), its company when named.
    pub fn hit_to_job_at(hit: &RawWellfoundJob, now: i64) -> (job: Job)
        ensures
            wellfound_job_matches(job, *hit, now as int),
    {
        let budget = match &hit.compensation {
            Some(c) => match Budget::parse(c.as_str(), Some("year")) {
                Some(b) => Some(b.to_string()),
                None => Some(copy_string(c)),
            },
            None => None,
        };
        proof {
            reveal_strlit("year");
        }
        let company = if hit.company_name.as_str().is_empty() {
            None
        } else {
            Some(copy_string(&hit.company_name))
        };
        let detail = WellfoundScraper::hit_to_detail_at(hit, now);
        let created_at = detail.posted_at;
        Job {
            id: 0,
            platform: Platform::Wellfound,
            external_id: copy_string(&hit.id),
            title: copy_string(&hit.title),
            description: None,
            url: job_url(hit),
            budget,
            tags: Vec::new(),
            raw: Data::Wellfound { detail },
            company,
            created_at,
            updated_at: now,
            note: None,
            liked: None,
            applied_at: None,
            remote: hit.remote,
        }
    }

    /// The job stored for a listing, stamped with the time of the call.
    pub fn hit_to_job(hit: &RawWellfoundJob) -> (job: Job)
        ensures
            wellfound_job_matches(job, *hit, job.updated_at as int),
    {
        WellfoundScraper::hit_to_job_at(hit, now_unix())
    }
}

} // verus!
