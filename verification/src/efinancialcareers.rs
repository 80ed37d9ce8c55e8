//! eFinancialCareers: search cards, the job detail read from the public
//! job API, and the job stored from them.

use crate::budget::{budget_text, opt_string_view};
use crate::clock::{now_unix, rfc3339_secs_result, rfc3339_to_secs};
use crate::extractors::{efc_budget_spec, parse_efinancialcareers_budget};
use crate::html::{html_to_md_or_default, html_to_md_or_empty};
use crate::models::{Data, EfinancialcareersJobDetail, Job, Platform};
use crate::text::{
    chars_of, contains_exec, contains_seq, copy_string, eq_vec, join, join_strings, string_of,
    strings_view, to_lowercase_vec, unicode_lowercase,
};
use vstd::prelude::*;

verus! {

/// A job card of the eFinancialCareers search page.
#[derive(Debug, Clone)]
pub struct EfinancialcareersJobCard {
    pub external_id: String,
    pub title: String,
    pub url: String,
    pub salary: String,
    pub posted_at_text: String,
}

/// A job as the job API sends it.
#[derive(Debug, Clone)]
pub struct FacadeJob {
    pub description: String,
    pub salary: String,
    pub position_type: String,
    pub employment_type: String,
    pub posted_date: String,
    pub work_arrangement_type: String,
    pub brand: Option<FacadeBrand>,
    pub location: Option<FacadeLocation>,
}

#[derive(Debug, Clone)]
pub struct FacadeBrand {
    pub name: String,
}

#[derive(Debug, Clone)]
pub struct FacadeLocation {
    pub city: String,
    pub state: String,
    pub country: String,
}

/// The URL of a job in the job API.
pub fn detail_url(job_id: &str) -> (r: String)
    ensures
        r@ == "https://job-branding-facade.efinancialcareers.com/job/"@ + job_id@,
{
    let mut out = chars_of("https://job-branding-facade.efinancialcareers.com/job/");
    crate::text::push_str(&mut out, job_id);
    string_of(&out)
}

/// The non-empty entries of `parts`, in order.
pub open spec fn non_empty(parts: Seq<Seq<char>>) -> Seq<Seq<char>>
    decreases parts.len(),
{
    if parts.len() == 0 {
        Seq::empty()
    } else {
        let rest = non_empty(parts.drop_last());
        if parts.last().len() > 0 {
            rest.push(parts.last())
        } else {
            rest
        }
    }
}

fn join_non_empty(parts: &Vec<String>, sep: &str) -> (r: String)
    ensures
        r@ == join(non_empty(strings_view(parts@)), sep@),
{
    let mut kept: Vec<String> = Vec::new();
    let mut i: usize = 0;
    while i < parts.len()
        invariant
            i <= parts.len(),
            strings_view(kept@) == non_empty(strings_view(parts@).subrange(0, i as int)),
        decreases parts.len() - i,
    {
        assert(strings_view(parts@).subrange(0, i + 1).drop_last() =~= strings_view(
            parts@,
        ).subrange(0, i as int));
        if !parts[i].as_str().is_empty() {
            let s = string_of(&chars_of(parts[i].as_str()));
            let ghost k0 = strings_view(kept@);
            kept.push(s);
            assert(strings_view(kept@) =~= k0.push(s@));
        }
        i = i + 1;
    }
    assert(strings_view(parts@).subrange(0, i as int) =~= strings_view(parts@));
    string_of(&join_strings(&kept, sep))
}

/// "city, state, country" without the empty ones; empty without a location.
pub open spec fn location_text(l: Option<FacadeLocation>) -> Seq<char> {
    match l {
        Some(x) => join(non_empty(seq![x.city@, x.state@, x.country@]), ", "@),
        None => Seq::empty(),
    }
}

/// The job detail the API sends, seen from `now` (the posting time when the
/// date does not parse).
pub open spec fn facade_detail_matches(d: EfinancialcareersJobDetail, j: FacadeJob, now: int) -> bool {
    &&& d.company@ == (match j.brand {
        Some(b) => b.name@,
        None => Seq::empty(),
    })
    &&& d.location@ == location_text(j.location)
    &&& d.employment_type@ == join(non_empty(seq![j.position_type@, j.employment_type@]), " / "@)
    &&& d.work_arrangement_type@ == j.work_arrangement_type@
    &&& d.salary@ == j.salary@
    &&& d.description@ == html_to_md_or_empty(j.description@)
    &&& d.posted_at == Some(
        (match rfc3339_secs_result(j.posted_date@) {
            Some(t) => t,
            None => now,
        }) as i64,
    )
}

fn three(a: &String, b: &String, c: &String) -> (r: Vec<String>)
    ensures
        strings_view(r@) == seq![a@, b@, c@],
{
    let mut v: Vec<String> = Vec::new();
    v.push(string_of(&chars_of(a.as_str())));
    v.push(string_of(&chars_of(b.as_str())));
    v.push(string_of(&chars_of(c.as_str())));
    assert(strings_view(v@) =~= seq![a@, b@, c@]);
    v
}

fn two(a: &String, b: &String) -> (r: Vec<String>)
    ensures
        strings_view(r@) == seq![a@, b@],
{
    let mut v: Vec<String> = Vec::new();
    v.push(string_of(&chars_of(a.as_str())));
    v.push(string_of(&chars_of(b.as_str())));
    assert(strings_view(v@) =~= seq![a@, b@]);
    v
}

/// The job detail the API sends, seen from `now`.
pub fn facade_detail_at(j: &FacadeJob, now: i64) -> (d: EfinancialcareersJobDetail)
    ensures
        facade_detail_matches(d, *j, now as int),
{
    let description = html_to_md_or_default(j.description.as_str());
    let posted_at = match rfc3339_to_secs(j.posted_date.as_str()) {
        Ok(t) => t,
        Err(_) => now,
    };
    let company = match &j.brand {
        Some(b) => string_of(&chars_of(b.name.as_str())),
        None => String::new(),
    };
    let location = match &j.location {
        Some(l) => join_non_empty(&three(&l.city, &l.state, &l.country), ", "),
        None => String::new(),
    };
    let employment_type = join_non_empty(&two(&j.position_type, &j.employment_type), " / ");
    EfinancialcareersJobDetail {
        company,
        location,
        employment_type,
        work_arrangement_type: string_of(&chars_of(j.work_arrangement_type.as_str())),
        salary: string_of(&chars_of(j.salary.as_str())),
        description,
        posted_at: Some(posted_at),
    }
}

/// A remote job: remote or temporarily remote work, or "remote" in the
/// location or the employment type (ignoring case).
pub open spec fn is_remote_spec(d: EfinancialcareersJobDetail) -> bool {
    let w = unicode_lowercase(d.work_arrangement_type@);
    ||| w == "remote"@
    ||| w == "temporarily_remote"@
    ||| contains_seq(unicode_lowercase(d.location@), "remote"@)
    ||| contains_seq(unicode_lowercase(d.employment_type@), "remote"@)
}

pub fn is_remote(d: &EfinancialcareersJobDetail) -> (r: bool)
    ensures
        r == is_remote_spec(*d),
{
    let w = to_lowercase_vec(&chars_of(d.work_arrangement_type.as_str()));
    let remote = chars_of("remote");
    eq_vec(&w, &remote) || eq_vec(&w, &chars_of("temporarily_remote")) || contains_exec(
        &to_lowercase_vec(&chars_of(d.location.as_str())),
        &remote,
    ) || contains_exec(&to_lowercase_vec(&chars_of(d.employment_type.as_str())), &remote)
}

/// The salary a job shows: the detail's, else the card's.
pub open spec fn salary_of(card: EfinancialcareersJobCard, d: EfinancialcareersJobDetail) -> Seq<char> {
    if d.salary@.len() == 0 {
        card.salary@
    } else {
        d.salary@
    }
}

/// The budget a job shows: the parsed salary, else the salary text when
/// there is one.
pub open spec fn efc_budget_shown(salary: Seq<char>) -> Option<Seq<char>> {
    match efc_budget_spec(salary) {
        Some(b) => Some(budget_text(b)),
        None => if salary.len() > 0 {
            Some(salary)
        } else {
            None
        },
    }
}

/// The job stored for a card and its detail, seen from `now`.
pub open spec fn efc_job_matches(
    job: Job,
    card: EfinancialcareersJobCard,
    d: EfinancialcareersJobDetail,
    now: int,
) -> bool {
    &&& job.id == 0
    &&& job.platform == Platform::Efinancialcareers
    &&& job.external_id@ == card.external_id@
    &&& job.title@ == card.title@
    &&& job.description is None
    &&& job.url@ == card.url@
    &&& opt_string_view(job.budget) == efc_budget_shown(salary_of(card, d))
    &&& job.tags@.len() == 0
    &&& (match job.raw {
        Data::Efinancialcareers { detail } => {
            &&& detail.salary@ == salary_of(card, d)
            &&& detail.company@ == d.company@
            &&& detail.location@ == d.location@
            &&& detail.employment_type@ == d.employment_type@
            &&& detail.work_arrangement_type@ == d.work_arrangement_type@
            &&& detail.description@ == d.description@
            &&& detail.posted_at == d.posted_at
        },
        _ => false,
    })
    &&& job.company is None
    &&& job.created_at == (match d.posted_at {
        Some(t) => t as int,
        None => now,
    })
    &&& job.updated_at == now
    &&& job.note is None
    &&& job.liked is None
    &&& job.applied_at is None
    &&& job.remote == is_remote_spec(d)
}


/// The job stored for a card and its detail, seen from `now`: unrated, not
/// applied to, with the card's salary where the detail has none.
pub fn efc_job_at(card: &EfinancialcareersJobCard, d: &EfinancialcareersJobDetail, now: i64) -> (job: Job)
    ensures
        efc_job_matches(job, *card, *d, now as int),
{
    let salary = if d.salary.as_str().is_empty() {
        copy_string(&card.salary)
    } else {
        copy_string(&d.salary)
    };
    let budget = match parse_efinancialcareers_budget(salary.as_str()) {
        Some(b) => Some(b.to_string()),
        None => if salary.as_str().is_empty() {
            None
        } else {
            Some(copy_string(&salary))
        },
    };
    let remote = is_remote(d);
    let created_at = match d.posted_at {
        Some(t) => t,
        None => now,
    };
    Job {
        id: 0,
        platform: Platform::Efinancialcareers,
        external_id: copy_string(&card.external_id),
        title: copy_string(&card.title),
        description: None,
        url: copy_string(&card.url),
        budget,
        tags: Vec::new(),
        raw: Data::Efinancialcareers {
            detail: EfinancialcareersJobDetail {
                company: copy_string(&d.company),
                location: copy_string(&d.location),
                employment_type: copy_string(&d.employment_type),
                work_arrangement_type: copy_string(&d.work_arrangement_type),
                salary,
                description: copy_string(&d.description),
                posted_at: d.posted_at,
            },
        },
        company: None,
        created_at,
        updated_at: now,
        note: None,
        liked: None,
        remote,
        applied_at: None,
    }
}

/// The job stored for a card and its detail, stamped with the time of the
/// call.
pub fn efc_job(card: &EfinancialcareersJobCard, d: &EfinancialcareersJobDetail) -> (job: Job)
    ensures
        exists|now: i64| efc_job_matches(job, *card, *d, now as int),
{
    efc_job_at(card, d, now_unix())
}

/// The eFinancialCareers scraper. It holds no settings here: telling
/// whether a job is in English happens outside this crate.
#[derive(Debug, Clone, Copy)]
pub struct EfinancialcareersScraper;

impl EfinancialcareersScraper {
    pub fn new() -> (r: EfinancialcareersScraper) {
        EfinancialcareersScraper
    }
}

} // verus!
