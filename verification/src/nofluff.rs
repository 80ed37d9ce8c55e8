//! NoFluffJobs: search cards, and the job detail read from the posting API.

use crate::clock::{millis_to_secs, millis_to_secs_result, now_unix};
use crate::html::{html_to_md_or_default, html_to_md_or_empty};
use crate::budget::{budget_text, opt_string_view};
use crate::extractors::{nofluff_budget_spec, parse_nofluff_budget};
use crate::models::{Data, Job, NoFluffJobDetail, Platform};
use crate::text::{
    chars_of, copy_string, copy_strings, eq_vec, join, join_strings, string_of, strings_view, trim,
    trim_vec,
};
use vstd::prelude::*;

verus! {

/// A job card of the NoFluffJobs search page.
#[derive(Debug, Clone)]
pub struct NofluffJobCard {
    pub external_id: String,
    pub title: String,
    pub url: String,
    pub budget: Option<String>,
    pub tags: Vec<String>,
}

/// The seniority as the API sends it: one string, or a list whose string
/// entries count (`None` for entries that are no string), or anything else.
#[derive(Debug, Clone)]
pub enum Seniority {
    Text(String),
    List(Vec<Option<String>>),
    Other,
}

#[derive(Debug, Clone)]
pub struct Basics {
    pub seniority: Option<Seniority>,
}

#[derive(Debug, Clone)]
pub struct JobDetails {
    pub description: String,
}

#[derive(Debug, Clone)]
pub struct Company {
    pub name: String,
}

#[derive(Debug, Clone)]
pub struct Location {
    pub places: Vec<Place>,
}

#[derive(Debug, Clone)]
pub struct Place {
    pub city: String,
}

#[derive(Debug, Clone)]
pub struct Reqs {
    pub musts: Vec<ReqItem>,
    pub nices: Vec<ReqItem>,
    pub description: String,
    pub languages: Vec<Language>,
}

#[derive(Debug, Clone)]
pub struct Language {
    pub type_field: String,
    pub code: String,
    pub level: String,
}

#[derive(Debug, Clone)]
pub struct ReqItem {
    pub value: String,
    pub type_field: String,
}

/// The detail fields of a posting.
#[derive(Debug, Clone)]
pub struct RawNoFluffJobDetail {
    pub basics: Basics,
    pub requirements: Reqs,
    pub details: JobDetails,
    pub company: Company,
    /// When the job was posted, in milliseconds since the Unix epoch.
    pub posted: Option<i64>,
    pub expires_at: Option<String>,
    pub location: Location,
}

/// A posting as the API sends it: active postings carry the detail fields
/// at the top level, expired ones under `job_offer`.
#[derive(Debug, Clone)]
pub struct RawPostingEnvelope {
    pub job_offer: Option<RawNoFluffJobDetail>,
    pub basics: Basics,
    pub requirements: Reqs,
    pub details: JobDetails,
    pub company: Company,
    pub posted: Option<i64>,
    pub expires_at: Option<String>,
    pub location: Location,
}

/// The detail fields of a posting, whichever shape it came in.
pub open spec fn posting_fields(e: RawPostingEnvelope) -> RawNoFluffJobDetail {
    match e.job_offer {
        Some(d) => d,
        None => RawNoFluffJobDetail {
            basics: e.basics,
            requirements: e.requirements,
            details: e.details,
            company: e.company,
            posted: e.posted,
            expires_at: e.expires_at,
            location: e.location,
        },
    }
}

/// The string entries of a list, in order.
pub open spec fn string_entries(items: Seq<Option<String>>) -> Seq<Seq<char>>
    decreases items.len(),
{
    if items.len() == 0 {
        Seq::empty()
    } else {
        let rest = string_entries(items.drop_last());
        match items.last() {
            Some(s) => rest.push(s@),
            None => rest,
        }
    }
}

/// The seniority shown: the string, or the list's strings joined by ", ",
/// or nothing.
pub open spec fn seniority_text(s: Option<Seniority>) -> Seq<char> {
    match s {
        Some(Seniority::Text(t)) => t@,
        Some(Seniority::List(items)) => join(string_entries(items@), ", "@),
        _ => Seq::empty(),
    }
}

/// The values of the requirement items of type "main", in order.
pub open spec fn main_values(items: Seq<ReqItem>) -> Seq<Seq<char>>
    decreases items.len(),
{
    if items.len() == 0 {
        Seq::empty()
    } else {
        let rest = main_values(items.drop_last());
        if items.last().type_field@ == "main"@ {
            rest.push(items.last().value@)
        } else {
            rest
        }
    }
}

/// The codes of the languages of type "MUST", in order.
pub open spec fn must_languages(items: Seq<Language>) -> Seq<Seq<char>>
    decreases items.len(),
{
    if items.len() == 0 {
        Seq::empty()
    } else {
        let rest = must_languages(items.drop_last());
        if items.last().type_field@ == "MUST"@ {
            rest.push(items.last().code@)
        } else {
            rest
        }
    }
}

/// The non-empty city names of the places, in order.
pub open spec fn city_names(places: Seq<Place>) -> Seq<Seq<char>>
    decreases places.len(),
{
    if places.len() == 0 {
        Seq::empty()
    } else {
        let rest = city_names(places.drop_last());
        if places.last().city@.len() > 0 {
            rest.push(places.last().city@)
        } else {
            rest
        }
    }
}

/// When the posting was published (Unix seconds): its timestamp when it
/// has one in chrono's range, else `now`.
pub open spec fn posted_secs(posted: Option<i64>, now: int) -> int {
    match posted {
        Some(ms) => match millis_to_secs_result(ms as int) {
            Some(s) => s,
            None => now,
        },
        None => now,
    }
}

/// The job detail a posting describes, seen from `now`.
pub open spec fn detail_matches(d: NoFluffJobDetail, e: RawPostingEnvelope, now: int) -> bool {
    let raw = posting_fields(e);
    &&& d.company@ == raw.company.name@
    &&& d.seniority@ == seniority_text(raw.basics.seniority)
    &&& strings_view(d.locations@) == city_names(raw.location.places@)
    &&& strings_view(d.must_have@) == main_values(raw.requirements.musts@)
    &&& d.description@ == html_to_md_or_empty(raw.details.description@)
    &&& d.requirements@ == html_to_md_or_empty(raw.requirements.description@)
    &&& d.nice_to_have@ == join(main_values(raw.requirements.nices@), ", "@)
    &&& d.offer_valid_until@ == (match raw.expires_at {
        Some(x) => x@,
        None => Seq::empty(),
    })
    &&& strings_view(d.languages@) == must_languages(raw.requirements.languages@)
    &&& d.posted_at == Some(posted_secs(raw.posted, now) as i64)
    &&& d.employment_type is None
}

fn push_string(out: &mut Vec<String>, s: &String)
    ensures
        strings_view(final(out)@) == strings_view(old(out)@).push(s@),
{
    let c = string_of(&chars_of(s.as_str()));
    out.push(c);
    assert(strings_view(out@) =~= strings_view(old(out)@).push(s@));
}

fn string_entries_exec(items: &Vec<Option<String>>) -> (r: Vec<String>)
    ensures
        strings_view(r@) == string_entries(items@),
{
    let mut out: Vec<String> = Vec::new();
    let mut i: usize = 0;
    while i < items.len()
        invariant
            i <= items.len(),
            strings_view(out@) == string_entries(items@.subrange(0, i as int)),
        decreases items.len() - i,
    {
        assert(items@.subrange(0, i + 1).drop_last() =~= items@.subrange(0, i as int));
        match &items[i] {
            Some(s) => push_string(&mut out, s),
            None => {},
        }
        i = i + 1;
    }
    assert(items@.subrange(0, i as int) =~= items@);
    out
}

fn seniority_exec(s: &Option<Seniority>) -> (r: String)
    ensures
        r@ == seniority_text(*s),
{
    match s {
        Some(Seniority::Text(t)) => string_of(&chars_of(t.as_str())),
        Some(Seniority::List(items)) => string_of(&join_strings(&string_entries_exec(items), ", ")),
        _ => String::new(),
    }
}

fn main_values_exec(items: &Vec<ReqItem>) -> (r: Vec<String>)
    ensures
        strings_view(r@) == main_values(items@),
{
    let mut out: Vec<String> = Vec::new();
    let main = chars_of("main");
    let mut i: usize = 0;
    while i < items.len()
        invariant
            i <= items.len(),
            main@ == "main"@,
            strings_view(out@) == main_values(items@.subrange(0, i as int)),
        decreases items.len() - i,
    {
        assert(items@.subrange(0, i + 1).drop_last() =~= items@.subrange(0, i as int));
        if eq_vec(&chars_of(items[i].type_field.as_str()), &main) {
            push_string(&mut out, &items[i].value);
        }
        i = i + 1;
    }
    assert(items@.subrange(0, i as int) =~= items@);
    out
}

fn must_languages_exec(items: &Vec<Language>) -> (r: Vec<String>)
    ensures
        strings_view(r@) == must_languages(items@),
{
    let mut out: Vec<String> = Vec::new();
    let must = chars_of("MUST");
    let mut i: usize = 0;
    while i < items.len()
        invariant
            i <= items.len(),
            must@ == "MUST"@,
            strings_view(out@) == must_languages(items@.subrange(0, i as int)),
        decreases items.len() - i,
    {
        assert(items@.subrange(0, i + 1).drop_last() =~= items@.subrange(0, i as int));
        if eq_vec(&chars_of(items[i].type_field.as_str()), &must) {
            push_string(&mut out, &items[i].code);
        }
        i = i + 1;
    }
    assert(items@.subrange(0, i as int) =~= items@);
    out
}

fn city_names_exec(places: &Vec<Place>) -> (r: Vec<String>)
    ensures
        strings_view(r@) == city_names(places@),
{
    let mut out: Vec<String> = Vec::new();
    let mut i: usize = 0;
    while i < places.len()
        invariant
            i <= places.len(),
            strings_view(out@) == city_names(places@.subrange(0, i as int)),
        decreases places.len() - i,
    {
        assert(places@.subrange(0, i + 1).drop_last() =~= places@.subrange(0, i as int));
        if !places[i].city.as_str().is_empty() {
            push_string(&mut out, &places[i].city);
        }
        i = i + 1;
    }
    assert(places@.subrange(0, i as int) =~= places@);
    out
}


/// The job detail a posting describes, with `now` as the posting time when
/// the posting has none in range.
pub fn nofluff_detail_at(e: &RawPostingEnvelope, now: i64) -> (d: NoFluffJobDetail)
    ensures
        detail_matches(d, *e, now as int),
{
    let (basics, requirements, details, company, posted, expires_at, location) = match &e.job_offer {
        Some(d) => (&d.basics, &d.requirements, &d.details, &d.company, d.posted, &d.expires_at, &d.location),
        None => (&e.basics, &e.requirements, &e.details, &e.company, e.posted, &e.expires_at, &e.location),
    };
    let seniority = seniority_exec(&basics.seniority);
    let must_have = main_values_exec(&requirements.musts);
    let description = html_to_md_or_default(details.description.as_str());
    let reqs = html_to_md_or_default(requirements.description.as_str());
    let nice_to_have = string_of(&join_strings(&main_values_exec(&requirements.nices), ", "));
    let languages = must_languages_exec(&requirements.languages);
    let posted_at: i64 = match posted {
        Some(ms) => match millis_to_secs(ms) {
            Some(s) => s,
            None => now,
        },
        None => now,
    };
    let locations = city_names_exec(&location.places);
    let offer_valid_until = match expires_at {
        Some(x) => copy_string(x),
        None => String::new(),
    };
    NoFluffJobDetail {
        company: copy_string(&company.name),
        seniority,
        locations,
        must_have,
        description,
        requirements: reqs,
        nice_to_have,
        offer_valid_until,
        languages,
        posted_at: Some(posted_at),
        employment_type: None,
    }
}

impl NoFluffJobDetail {
    /// The job detail a posting describes; the time of the call stands for
    /// a posting time that is missing or out of range.
    pub fn from_posting(e: &RawPostingEnvelope) -> (d: NoFluffJobDetail)
        ensures
            exists|now: i64| detail_matches(d, *e, now as int),
    {
        let now = now_unix();
        nofluff_detail_at(e, now)
    }
}

/// The budget a search card shows: nothing for "Salary Match" (spaces
/// normalized, trimmed), else the budget read from the text.
pub open spec fn card_budget_spec(b: Option<String>) -> Option<Seq<char>> {
    match b {
        None => None,
        Some(s) => if trim(crate::budget::normalize_spaces(s@)) == "Salary Match"@ {
            None
        } else {
            match nofluff_budget_spec(s@) {
                Some(v) => Some(budget_text(v)),
                None => None,
            }
        },
    }
}

pub fn card_budget(b: &Option<String>) -> (r: Option<String>)
    ensures
        opt_string_view(r) == card_budget_spec(*b),
{
    match b {
        None => None,
        Some(s) => {
            let n = trim_vec(&crate::budget::normalize_vec(&chars_of(s.as_str())));
            if eq_vec(&n, &chars_of("Salary Match")) {
                None
            } else {
                match parse_nofluff_budget(s.as_str()) {
                    Some(v) => Some(v.to_string()),
                    None => None,
                }
            }
        },
    }
}

/// The job stored for a card and its detail, seen from `now`: posted when
/// the detail says, remote, unrated.
pub open spec fn nofluff_job_matches(job: Job, card: NofluffJobCard, detail: NoFluffJobDetail, now: int) -> bool {
    &&& job.id == 0
    &&& job.platform == Platform::NoFluffJobs
    &&& job.external_id@ == card.external_id@
    &&& job.title@ == card.title@
    &&& job.description is None
    &&& job.url@ == card.url@
    &&& opt_string_view(job.budget) == card_budget_spec(card.budget)
    &&& strings_view(job.tags@) == strings_view(card.tags@)
    &&& job.raw == Data::Nofluffjobs { detail }
    &&& job.company is None
    &&& job.created_at == (match detail.posted_at {
        Some(t) => t as int,
        None => now,
    })
    &&& job.updated_at == now
    &&& job.note is None
    &&& job.liked is None
    &&& job.applied_at is None
    &&& job.remote
}


pub fn nofluff_job_at(card: &NofluffJobCard, detail: NoFluffJobDetail, now: i64) -> (job: Job)
    ensures
        nofluff_job_matches(job, *card, detail, now as int),
{
    let created_at = match detail.posted_at {
        Some(t) => t,
        None => now,
    };
    Job {
        id: 0,
        platform: Platform::NoFluffJobs,
        external_id: copy_string(&card.external_id),
        title: copy_string(&card.title),
        description: None,
        url: copy_string(&card.url),
        budget: card_budget(&card.budget),
        tags: copy_strings(&card.tags),
        raw: Data::Nofluffjobs { detail },
        company: None,
        created_at,
        updated_at: now,
        note: None,
        liked: None,
        remote: true,
        applied_at: None,
    }
}

} // verus!
