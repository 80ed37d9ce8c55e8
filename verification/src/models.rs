//! The job records, their filters and the query types of the job list.
//!
//! Points in time are Unix timestamps in whole seconds (UTC).

use crate::text::{
    all_digits, chars_of, digits_value, eq_vec, parse_digits_u64, parse_digits_u64_exec, push_str,
    slice_vec, string_of, trim, trim_vec,
};
use crate::budget::utf8_len;
use crate::clock::now_unix;
use vstd::prelude::*;

verus! {

/// The job boards the library knows.
#[derive(Debug, Clone, Copy, PartialEq, Eq, Structural)]
pub enum Platform {
    Efinancialcareers,
    NoFluffJobs,
    Upwork,
    Hackernews,
    LinkedIn,
    Reddit,
    Wellfound,
}

/// The lower-case name of a platform, as it is shown and stored.
pub open spec fn platform_name(p: Platform) -> Seq<char> {
    match p {
        Platform::Efinancialcareers => "efinancialcareers"@,
        Platform::NoFluffJobs => "nofluffjobs"@,
        Platform::Upwork => "upwork"@,
        Platform::Hackernews => "hackernews"@,
        Platform::LinkedIn => "linkedin"@,
        Platform::Reddit => "reddit"@,
        Platform::Wellfound => "wellfound"@,
    }
}

impl Platform {
    /// The platform's name ("upwork").
    pub fn to_string(&self) -> (r: String)
        ensures
            r@ == platform_name(*self),
    {
        let s = match self {
            Platform::Efinancialcareers => "efinancialcareers",
            Platform::NoFluffJobs => "nofluffjobs",
            Platform::Upwork => "upwork",
            Platform::Hackernews => "hackernews",
            Platform::LinkedIn => "linkedin",
            Platform::Reddit => "reddit",
            Platform::Wellfound => "wellfound",
        };
        string_of(&chars_of(s))
    }

    /// The platform of a stored name, if it is one.
    pub fn parse(s: &str) -> (r: Option<Platform>)
        ensures
            match r {
                Some(p) => platform_name(p) == s@,
                None => forall|p: Platform| platform_name(p) != s@,
            },
    {
        let v = chars_of(s);
        let names = [
            (Platform::Efinancialcareers, "efinancialcareers"),
            (Platform::NoFluffJobs, "nofluffjobs"),
            (Platform::Upwork, "upwork"),
            (Platform::Hackernews, "hackernews"),
            (Platform::LinkedIn, "linkedin"),
            (Platform::Reddit, "reddit"),
            (Platform::Wellfound, "wellfound"),
        ];
        proof {
            reveal_strlit("efinancialcareers");
            reveal_strlit("nofluffjobs");
            reveal_strlit("upwork");
            reveal_strlit("hackernews");
            reveal_strlit("linkedin");
            reveal_strlit("reddit");
            reveal_strlit("wellfound");
        }
        let mut i: usize = 0;
        while i < 7
            invariant
                i <= 7,
                v@ == s@,
                names@.len() == 7,
                forall|j: int| 0 <= j < 7 ==> platform_name(#[trigger] names@[j].0) == names@[j].1@,
                names@[0].0 == Platform::Efinancialcareers && names@[1].0 == Platform::NoFluffJobs
                    && names@[2].0 == Platform::Upwork && names@[3].0 == Platform::Hackernews
                    && names@[4].0 == Platform::LinkedIn && names@[5].0 == Platform::Reddit
                    && names@[6].0 == Platform::Wellfound,
                forall|j: int| 0 <= j < i ==> (#[trigger] names@[j]).1@ != s@,
            decreases 7 - i,
        {
            let (p, n) = names[i];
            if eq_vec(&chars_of(n), &v) {
                return Some(p);
            }
            i = i + 1;
        }
        proof {
            assert forall|p: Platform| platform_name(p) != s@ by {
                let j: int = match p {
                    Platform::Efinancialcareers => 0,
                    Platform::NoFluffJobs => 1,
                    Platform::Upwork => 2,
                    Platform::Hackernews => 3,
                    Platform::LinkedIn => 4,
                    Platform::Reddit => 5,
                    Platform::Wellfound => 6,
                };
                assert(names@[j].1@ != s@);
                assert(platform_name(names@[j].0) == names@[j].1@);
            }
        }
        None
    }
}

/// Platform names are distinct, so a stored name reads back as the platform
/// that was stored.
pub proof fn lemma_platform_names_distinct(p: Platform, q: Platform)
    ensures
        platform_name(p) == platform_name(q) ==> p == q,
{
    reveal_strlit("efinancialcareers");
    reveal_strlit("nofluffjobs");
    reveal_strlit("upwork");
    reveal_strlit("hackernews");
    reveal_strlit("linkedin");
    reveal_strlit("reddit");
    reveal_strlit("wellfound");
    if platform_name(p) == platform_name(q) {
        assert(platform_name(p).len() == platform_name(q).len());
        assert(platform_name(p)[0] == platform_name(q)[0]);
        assert(platform_name(p)[1] == platform_name(q)[1]);
    }
}

/// How the user rated a job.
#[derive(Debug, Clone, Copy, PartialEq, Eq, Structural)]
pub enum Rating {
    Liked,
    Disliked,
    Neutral,
}

/// One page of a longer list, with the length of the whole list.
#[derive(Debug, Clone)]
pub struct Paginated<T> {
    pub items: Vec<T>,
    pub total: i64,
}

/// The orders a job list can be sorted in.
#[derive(Debug, Clone, Copy, PartialEq, Eq, Structural)]
pub enum Sort {
    Created,
    UpworkViewed,
    Applied,
}

impl Default for Sort {
    fn default() -> (r: Sort)
        ensures
            r == Sort::Created,
    {
        Sort::Created
    }
}

/// The SQL `ORDER BY` clause of each sort.
pub open spec fn sort_sql(s: Sort) -> Seq<char> {
    match s {
        Sort::Created => "j.created_at DESC"@,
        Sort::UpworkViewed => "j.upwork_last_viewed_at DESC NULLS LAST"@,
        Sort::Applied => "r.applied_at DESC NULLS LAST"@,
    }
}

impl Sort {
    /// The SQL `ORDER BY` clause for this sort.
    pub fn order_by_sql(&self) -> (r: &'static str)
        ensures
            r@ == sort_sql(*self),
    {
        match self {
            Sort::Created => "j.created_at DESC",
            Sort::UpworkViewed => "j.upwork_last_viewed_at DESC NULLS LAST",
            Sort::Applied => "r.applied_at DESC NULLS LAST",
        }
    }
}

/// The page a list query asks for when it names none.
pub fn default_page() -> (r: usize)
    ensures
        r == 1,
{
    1
}

/// The page size a list query asks for when it names none.
pub fn default_page_size() -> (r: usize)
    ensures
        r == 20,
{
    20
}

/// The query of the job list endpoint.
#[derive(Debug, Clone)]
pub struct ListQuery {
    pub platform: Option<Platform>,
    pub rating: Option<Rating>,
    pub applied: Option<bool>,
    pub sort_by: Sort,
    pub page: usize,
    pub page_size: usize,
}

/// The body of a rating request.
#[derive(Debug, Clone, Copy)]
pub struct RateBody {
    pub rating: Rating,
}

/// A recency such as "1d" or "4w", held as a number of days.
#[derive(Debug, Clone, Copy)]
pub struct Recency(pub i64);

/// Why a recency did not parse.
#[derive(Debug, Clone)]
pub enum RecencyError {
    /// The trimmed input is shorter than two bytes.
    TooShort { input: String },
    /// What stands before the unit is no `i64`.
    InvalidNumber { number: String },
    /// The unit is neither 'd' nor 'w'.
    InvalidUnit { unit: String },
}

impl RecencyError {
    /// The error as it is shown to the user.
    pub fn message(&self) -> (r: String)
        ensures
            r@ == recency_error_text(*self),
    {
        let mut out: Vec<char> = Vec::new();
        match self {
            RecencyError::TooShort { input } => {
                push_str(&mut out, "recency must be like 1d or 4w, got '");
                push_str(&mut out, input.as_str());
                push_str(&mut out, "'");
            },
            RecencyError::InvalidNumber { number } => {
                push_str(&mut out, "invalid recency number '");
                push_str(&mut out, number.as_str());
                push_str(&mut out, "'");
            },
            RecencyError::InvalidUnit { unit } => {
                push_str(&mut out, "recency unit must be 'd' or 'w', got '");
                push_str(&mut out, unit.as_str());
                push_str(&mut out, "'");
            },
        }
        string_of(&out)
    }
}

pub open spec fn recency_error_text(e: RecencyError) -> Seq<char> {
    match e {
        RecencyError::TooShort { input } => "recency must be like 1d or 4w, got '"@ + input@
            + "'"@,
        RecencyError::InvalidNumber { number } => "invalid recency number '"@ + number@ + "'"@,
        RecencyError::InvalidUnit { unit } => "recency unit must be 'd' or 'w', got '"@ + unit@
            + "'"@,
    }
}

/// What `str::parse::<i64>` gives: an optional sign, then at least one ASCII
/// digit and nothing else, within the range of `i64`.
pub open spec fn parse_i64_spec(s: Seq<char>) -> Option<int> {
    let signed = s.len() > 0 && (s[0] == '+' || s[0] == '-');
    let body = if signed {
        s.drop_first()
    } else {
        s
    };
    if body.len() == 0 || !all_digits(body) {
        None
    } else {
        let v: int = if s.len() > 0 && s[0] == '-' {
            -(digits_value(body) as int)
        } else {
            digits_value(body) as int
        };
        if i64::MIN <= v <= i64::MAX {
            Some(v)
        } else {
            None
        }
    }
}

/// The input is too short to hold a number and a unit (counted in bytes).
pub open spec fn recency_too_short(s: Seq<char>) -> bool {
    utf8_len(trim(s)) < 2
}

/// What stands before the unit.
pub open spec fn recency_number(s: Seq<char>) -> Seq<char> {
    trim(s).drop_last()
}

/// The unit: the last character of the trimmed input.
pub open spec fn recency_unit(s: Seq<char>) -> char {
    trim(s).last()
}

/// The number of days a recency stands for, when it is one.
pub open spec fn recency_days(s: Seq<char>) -> Option<int> {
    if recency_too_short(s) {
        None
    } else {
        match parse_i64_spec(recency_number(s)) {
            None => None,
            Some(n) => if recency_unit(s) == 'd' {
                Some(n)
            } else if recency_unit(s) == 'w' {
                Some(n * 7)
            } else {
                None
            },
        }
    }
}

/// The inputs on which reading a recency is defined: the byte split before
/// the last character falls on a character boundary, and a number of weeks
/// fits in `i64` when counted in days.
pub open spec fn recency_defined(s: Seq<char>) -> bool {
    !recency_too_short(s) ==> {
        &&& (recency_unit(s) as int) < 128
        &&& (recency_unit(s) == 'w' && parse_i64_spec(recency_number(s)) is Some) ==> {
            let n = parse_i64_spec(recency_number(s))->0;
            i64::MIN <= n * 7 <= i64::MAX
        }
    }
}

pub fn all_digits_exec(v: &Vec<char>) -> (r: bool)
    ensures
        r == all_digits(v@),
{
    let mut i: usize = 0;
    while i < v.len()
        invariant
            i <= v.len(),
            forall|j: int| 0 <= j < i ==> crate::text::is_ascii_digit(#[trigger] v@[j]),
        decreases v.len() - i,
    {
        if !(v[i] >= '0' && v[i] <= '9') {
            return false;
        }
        i = i + 1;
    }
    true
}

/// Reads an `i64` as `str::parse::<i64>` does.
pub fn parse_i64_vec(v: &Vec<char>) -> (r: Option<i64>)
    ensures
        match r {
            Some(n) => parse_i64_spec(v@) == Some(n as int),
            None => parse_i64_spec(v@) is None,
        },
{
    let signed = v.len() > 0 && (v[0] == '+' || v[0] == '-');
    let neg = v.len() > 0 && v[0] == '-';
    let body = if signed {
        slice_vec(v, 1, v.len())
    } else {
        slice_vec(v, 0, v.len())
    };
    proof {
        if signed {
            assert(body@ =~= v@.drop_first());
        } else {
            assert(body@ =~= v@);
        }
    }
    if body.len() == 0 || !all_digits_exec(&body) {
        return None;
    }
    match parse_digits_u64_exec(&body) {
        None => None,
        Some(u) => {
            if neg {
                if u <= 9223372036854775808u64 {
                    let m: i128 = -(u as i128);
                    Some(m as i64)
                } else {
                    None
                }
            } else {
                if u <= 9223372036854775807u64 {
                    Some(u as i64)
                } else {
                    None
                }
            }
        },
    }
}

fn utf8_len_at_least_two(v: &Vec<char>) -> (r: bool)
    ensures
        r == (utf8_len(v@) >= 2),
{
    proof {
        crate::budget::lemma_utf8_len_bounds(v@);
    }
    if v.len() >= 2 {
        return true;
    }
    if v.len() == 0 {
        proof {
            assert(utf8_len(v@) == 0);
        }
        return false;
    }
    proof {
        assert(v@.drop_last() =~= Seq::<char>::empty());
        assert(utf8_len(v@.drop_last()) == 0);
        assert(v@.last() == v@[0]);
        assert(utf8_len(v@) == crate::budget::utf8_char_len(v@[0]));
    }
    (v[0] as u32) >= 128
}

impl Recency {
    /// Reads a recency such as "1d" (one day) or "4w" (four weeks): the
    /// trimmed input is a number and the unit 'd' or 'w'.
    pub fn parse(s: &str) -> (r: Result<Recency, RecencyError>)
        requires
            recency_defined(s@),
        ensures
            r is Ok <==> recency_days(s@) is Some,
            match r {
                Ok(rec) => recency_days(s@) == Some(rec.0 as int),
                Err(RecencyError::TooShort { input }) => recency_too_short(s@) && input@ == trim(
                    s@,
                ),
                Err(RecencyError::InvalidNumber { number }) => !recency_too_short(s@)
                    && parse_i64_spec(recency_number(s@)) is None && number@ == recency_number(
                    s@,
                ),
                Err(RecencyError::InvalidUnit { unit }) => !recency_too_short(s@)
                    && parse_i64_spec(recency_number(s@)) is Some && unit@ == seq![
                    recency_unit(s@),
                ],
            },
    {
        let t = trim_vec(&chars_of(s));
        if !utf8_len_at_least_two(&t) {
            return Err(RecencyError::TooShort { input: string_of(&t) });
        }
        let num = slice_vec(&t, 0, t.len() - 1);
        let unit = t[t.len() - 1];
        assert(num@ =~= recency_number(s@));
        match parse_i64_vec(&num) {
            None => Err(RecencyError::InvalidNumber { number: string_of(&num) }),
            Some(n) => {
                if unit == 'd' {
                    Ok(Recency(n))
                } else if unit == 'w' {
                    Ok(Recency(n * 7))
                } else {
                    let mut u: Vec<char> = Vec::new();
                    u.push(unit);
                    assert(u@ =~= seq![recency_unit(s@)]);
                    Err(RecencyError::InvalidUnit { unit: string_of(&u) })
                }
            },
        }
    }
}

/// Whether reading `s` as a recency is defined (see `recency_defined`).
pub fn recency_is_defined(s: &str) -> (r: bool)
    ensures
        r == recency_defined(s@),
{
    let t = trim_vec(&chars_of(s));
    if !utf8_len_at_least_two(&t) {
        return true;
    }
    let unit = t[t.len() - 1];
    if (unit as u32) >= 128 {
        return false;
    }
    let num = slice_vec(&t, 0, t.len() - 1);
    assert(num@ =~= recency_number(s@));
    if unit == 'w' {
        match parse_i64_vec(&num) {
            Some(n) => n >= -1317624576693539401i64 && n <= 1317624576693539401i64,
            None => true,
        }
    } else {
        true
    }
}


/// Detail scraped from an eFinancialCareers job page.
#[derive(Debug, Clone)]
pub struct EfinancialcareersJobDetail {
    pub company: String,
    pub location: String,
    pub employment_type: String,
    pub work_arrangement_type: String,
    pub salary: String,
    pub description: String,
    pub posted_at: Option<i64>,
}

impl Default for EfinancialcareersJobDetail {
    fn default() -> (r: EfinancialcareersJobDetail)
        ensures
            r.company@.len() == 0,
            r.location@.len() == 0,
            r.employment_type@.len() == 0,
            r.work_arrangement_type@.len() == 0,
            r.salary@.len() == 0,
            r.description@.len() == 0,
            r.posted_at is None,
    {
        EfinancialcareersJobDetail {
            company: String::new(),
            location: String::new(),
            employment_type: String::new(),
            work_arrangement_type: String::new(),
            salary: String::new(),
            description: String::new(),
            posted_at: None,
        }
    }
}

/// Detail scraped from an Upwork job page.
#[derive(Debug, Clone)]
pub struct UpworkJobDetail {
    pub proposals: String,
    pub last_viewed: Option<i64>,
    pub interviewing: String,
    pub invites_sent: String,
    pub unanswered_invites: String,
    pub description: String,
    pub exact_budget: String,
    pub experience_level: String,
    pub hires: String,
    pub project_type: String,
    pub duration: String,
    pub hours_per_week: String,
    pub tags: Vec<String>,
    pub posted_at: Option<i64>,
}

impl Default for UpworkJobDetail {
    fn default() -> (r: UpworkJobDetail)
        ensures
            r.proposals@.len() == 0,
            r.last_viewed is None,
            r.interviewing@.len() == 0,
            r.invites_sent@.len() == 0,
            r.unanswered_invites@.len() == 0,
            r.description@.len() == 0,
            r.exact_budget@.len() == 0,
            r.experience_level@.len() == 0,
            r.hires@.len() == 0,
            r.project_type@.len() == 0,
            r.duration@.len() == 0,
            r.hours_per_week@.len() == 0,
            r.tags@.len() == 0,
            r.posted_at is None,
    {
        UpworkJobDetail {
            proposals: String::new(),
            last_viewed: None,
            interviewing: String::new(),
            invites_sent: String::new(),
            unanswered_invites: String::new(),
            description: String::new(),
            exact_budget: String::new(),
            experience_level: String::new(),
            hires: String::new(),
            project_type: String::new(),
            duration: String::new(),
            hours_per_week: String::new(),
            tags: Vec::new(),
            posted_at: None,
        }
    }
}

/// Detail scraped from a NoFluffJobs job page.
#[derive(Debug, Clone)]
pub struct NoFluffJobDetail {
    pub company: String,
    pub seniority: String,
    pub locations: Vec<String>,
    pub must_have: Vec<String>,
    pub description: String,
    pub requirements: String,
    pub nice_to_have: String,
    pub offer_valid_until: String,
    pub languages: Vec<String>,
    pub posted_at: Option<i64>,
    pub employment_type: Option<String>,
}

impl Default for NoFluffJobDetail {
    fn default() -> (r: NoFluffJobDetail)
        ensures
            r.company@.len() == 0,
            r.seniority@.len() == 0,
            r.locations@.len() == 0,
            r.must_have@.len() == 0,
            r.description@.len() == 0,
            r.requirements@.len() == 0,
            r.nice_to_have@.len() == 0,
            r.offer_valid_until@.len() == 0,
            r.languages@.len() == 0,
            r.posted_at is None,
            r.employment_type is None,
    {
        NoFluffJobDetail {
            company: String::new(),
            seniority: String::new(),
            locations: Vec::new(),
            must_have: Vec::new(),
            description: String::new(),
            requirements: String::new(),
            nice_to_have: String::new(),
            offer_valid_until: String::new(),
            languages: Vec::new(),
            posted_at: None,
            employment_type: None,
        }
    }
}

/// What a Hacker News "Who is hiring?" comment tells about its job.
#[derive(Debug, Clone)]
pub struct HackerNewsJobDetail {
    pub author: String,
    pub author_threads_url: String,
    pub company: Option<String>,
    pub role: Option<String>,
    pub location: Option<String>,
    pub description: String,
}

impl Default for HackerNewsJobDetail {
    fn default() -> (r: HackerNewsJobDetail)
        ensures
            r.author@.len() == 0,
            r.author_threads_url@.len() == 0,
            r.company is None,
            r.role is None,
            r.location is None,
            r.description@.len() == 0,
    {
        HackerNewsJobDetail {
            author: String::new(),
            author_threads_url: String::new(),
            company: None,
            role: None,
            location: None,
            description: String::new(),
        }
    }
}

/// Detail read from a LinkedIn job posting; `posted_at` in Unix seconds.
#[derive(Debug, Clone, Default)]
pub struct LinkedInJobDetail {
    pub company: String,
    pub location: String,
    pub employment_type: String,
    pub job_function: String,
    pub industries: String,
    pub description: String,
    pub salary: String,
    pub posted_at: i64,
}

/// What an r/rust "Who's hiring" comment tells about its job; `posted_at`
/// in Unix seconds.
#[derive(Debug, Clone, Default)]
pub struct RedditJobDetail {
    pub subreddit: String,
    pub author: String,
    pub permalink: String,
    pub company: Option<String>,
    pub role: Option<String>,
    pub location: Option<String>,
    pub description: String,
    pub posted_at: i64,
}

/// A Wellfound listing with its startup's fields; `posted_at` in Unix
/// seconds.
#[derive(Debug, Clone, Default)]
pub struct WellfoundJobDetail {
    pub description: String,
    pub compensation: Option<String>,
    pub job_type: String,
    pub location_names: Vec<String>,
    pub remote: bool,
    pub remote_kind: Option<String>,
    pub accepted_remote_location_names: Vec<String>,
    pub years_experience_min: Option<u32>,
    pub years_experience_max: Option<u32>,
    pub primary_role_title: Option<String>,
    pub company_name: String,
    pub company_slug: Option<String>,
    pub company_size: Option<String>,
    pub company_high_concept: Option<String>,
    pub company_logo_url: Option<String>,
    pub posted_at: i64,
}

/// The platform-specific part of a job.
#[allow(inconsistent_fields)]
#[derive(Debug, Clone)]
pub enum Data {
    Upwork { detail: UpworkJobDetail },
    Nofluffjobs { detail: NoFluffJobDetail },
    Efinancialcareers { detail: EfinancialcareersJobDetail },
    Hackernews { detail: HackerNewsJobDetail },
    LinkedIn { detail: LinkedInJobDetail },
    Reddit { detail: RedditJobDetail },
    Wellfound { detail: WellfoundJobDetail },
}

/// A stored job.
#[derive(Debug, Clone)]
pub struct Job {
    pub id: i64,
    pub platform: Platform,
    pub external_id: String,
    pub title: String,
    pub description: Option<String>,
    pub url: String,
    pub budget: Option<String>,
    pub tags: Vec<String>,
    pub raw: Data,
    pub company: Option<String>,
    pub created_at: i64,
    pub updated_at: i64,
    pub note: Option<String>,
    pub liked: Option<bool>,
    pub remote: bool,
    pub applied_at: Option<i64>,
}

/// A page of jobs with the number of all matching jobs.
#[derive(Debug, Clone)]
pub struct JobListResponse {
    pub jobs: Vec<Job>,
    pub total: usize,
}

/// What a job list is narrowed to; `None` keeps every job.
#[derive(Debug, Clone, Copy)]
pub struct JobFilter {
    pub platform: Option<Platform>,
    pub rating: Option<Rating>,
    pub applied: Option<bool>,
    pub remote: Option<bool>,
    /// Only jobs created within this many days of the time of filtering.
    pub recency: Option<Recency>,
}

impl Default for JobFilter {
    fn default() -> (r: JobFilter)
        ensures
            r.platform is None,
            r.rating is None,
            r.applied is None,
            r.remote is None,
            r.recency is None,
    {
        JobFilter { platform: None, rating: None, applied: None, remote: None, recency: None }
    }
}

/// Whether a job's rating is the one asked for: liked, disliked, or not
/// rated at all for neutral.
pub open spec fn rating_matches(r: Rating, liked: Option<bool>) -> bool {
    match r {
        Rating::Liked => liked == Some(true),
        Rating::Disliked => liked == Some(false),
        Rating::Neutral => liked is None,
    }
}

/// The earliest creation time a job may have to pass a recency of `days`
/// days, filtering at `now`.
pub open spec fn recency_cutoff(days: i64, now: int) -> int {
    now - days * 86400
}

/// Whether `j` passes every criterion of `f`, filtering at `now`.
pub open spec fn job_matches(f: JobFilter, j: Job, now: int) -> bool {
    &&& (f.recency matches Some(r) ==> j.created_at >= recency_cutoff(r.0, now))
    &&& (f.platform matches Some(p) ==> j.platform == p)
    &&& (f.rating matches Some(r) ==> rating_matches(r, j.liked))
    &&& (f.applied matches Some(a) ==> (j.applied_at is Some) == a)
    &&& (f.remote matches Some(m) ==> j.remote == m)
}

impl JobFilter {
    /// Whether `job` passes the filter, filtering at `now`.
    pub fn matches(&self, job: &Job, now: i64) -> (r: bool)
        ensures
            r == job_matches(*self, *job, now as int),
    {
        let recent = match self.recency {
            Some(Recency(days)) => (job.created_at as i128) >= (now as i128) - (days as i128)
                * 86400,
            None => true,
        };
        let platform_ok = match self.platform {
            Some(p) => p == job.platform,
            None => true,
        };
        let rating_ok = match self.rating {
            Some(Rating::Liked) => job.liked == Some(true),
            Some(Rating::Disliked) => job.liked == Some(false),
            Some(Rating::Neutral) => job.liked.is_none(),
            None => true,
        };
        let applied_ok = match self.applied {
            Some(a) => job.applied_at.is_some() == a,
            None => true,
        };
        let remote_ok = match self.remote {
            Some(m) => job.remote == m,
            None => true,
        };
        recent && platform_ok && rating_ok && applied_ok && remote_ok
    }

    /// The jobs that pass the filter at `now`, in their order.
    pub fn apply_at(&self, jobs: Vec<Job>, now: i64) -> (r: Vec<Job>)
        ensures
            r@ == kept(*self, jobs@, now as int),
    {
        let ghost all = jobs@;
        let ghost pred = |j: Job| job_matches(*self, j, now as int);
        let mut rest = jobs;
        let mut out: Vec<Job> = Vec::new();
        let ghost mut k: int = 0;
        while rest.len() > 0
            invariant
                0 <= k <= all.len(),
                rest@ == all.subrange(k, all.len() as int),
                out@ == all.subrange(0, k).filter(pred),
                pred == (|j: Job| job_matches(*self, j, now as int)),
            decreases rest.len(),
        {
            let j = rest.remove(0);
            proof {
                assert(j == all[k]);
                assert(all.subrange(0, k + 1).drop_last() =~= all.subrange(0, k));
                assert(all.subrange(0, k + 1).last() == j);
                reveal_with_fuel(Seq::filter, 1);
            }
            let keep = self.matches(&j, now);
            if keep {
                out.push(j);
            }
            proof {
                k = k + 1;
                assert(rest@ =~= all.subrange(k, all.len() as int));
            }
        }
        proof {
            assert(all.subrange(0, k) =~= all);
        }
        out
    }

    /// The jobs that pass the filter at the time of the call, in their
    /// order; without a recency the time plays no part.
    pub fn apply(&self, jobs: Vec<Job>) -> (r: Vec<Job>)
        ensures
            exists|now: int| r@ == kept(*self, jobs@, now),
            self.recency is None ==> forall|t: int| r@ == #[trigger] kept(*self, jobs@, t),
    {
        let now = now_unix();
        let ghost all = jobs@;
        let r = self.apply_at(jobs, now);
        proof {
            if self.recency is None {
                assert forall|t: int| r@ == #[trigger] kept(*self, all, t) by {
                    lemma_kept_timeless(*self, all, now as int, t);
                }
            }
        }
        r
    }
}

/// Without a recency, what a filter keeps does not depend on the time.
proof fn lemma_kept_timeless(f: JobFilter, jobs: Seq<Job>, t1: int, t2: int)
    requires
        f.recency is None,
    ensures
        kept(f, jobs, t1) == kept(f, jobs, t2),
{
    let p1 = |j: Job| job_matches(f, j, t1);
    let p2 = |j: Job| job_matches(f, j, t2);
    assert(p1 =~= p2);
}


/// The jobs of `jobs` that pass `f` at `now`, in order.
pub open spec fn kept(f: JobFilter, jobs: Seq<Job>, now: int) -> Seq<Job> {
    jobs.filter(|j: Job| job_matches(f, j, now))
}

/// Filtering keeps exactly the matching jobs: every job it keeps passes
/// the filter, and every job of the list that passes is kept.
pub proof fn lemma_apply_keeps_matching(f: JobFilter, jobs: Seq<Job>, now: int)
    ensures
        forall|i: int| 0 <= i < kept(f, jobs, now).len() ==> job_matches(
            f,
            #[trigger] kept(f, jobs, now)[i],
            now,
        ),
        forall|i: int|
            0 <= i < jobs.len() && job_matches(f, #[trigger] jobs[i], now) ==> kept(f, jobs, now).contains(
                jobs[i],
            ),
{
    let p = |j: Job| job_matches(f, j, now);
    assert forall|i: int| 0 <= i < kept(f, jobs, now).len() implies job_matches(
        f,
        #[trigger] kept(f, jobs, now)[i],
        now,
    ) by {
        jobs.lemma_filter_pred(p, i);
    }
    assert forall|i: int| 0 <= i < jobs.len() && job_matches(f, #[trigger] jobs[i], now) implies kept(
        f,
        jobs,
        now,
    ).contains(jobs[i]) by {
        jobs.lemma_filter_contains(p, i);
    }
}

/// Filtering twice with the same filter keeps what filtering once keeps.
pub proof fn lemma_apply_twice(f: JobFilter, jobs: Seq<Job>, now: int)
    ensures
        kept(f, kept(f, jobs, now), now) == kept(f, jobs, now),
    decreases jobs.len(),
{
    reveal(Seq::filter);
    if jobs.len() > 0 {
        lemma_apply_twice(f, jobs.drop_last(), now);
        let a = kept(f, jobs, now);
        let b = kept(f, jobs.drop_last(), now);
        if job_matches(f, jobs.last(), now) {
            assert(a == b.push(jobs.last()));
            assert(a.drop_last() =~= b);
            assert(a.last() == jobs.last());
        } else {
            assert(a == b);
        }
    }
}

/// A filter narrowed to unrated jobs keeps only jobs nobody rated.
pub proof fn lemma_neutral_keeps_unrated(f: JobFilter, jobs: Seq<Job>, now: int)
    requires
        f.rating == Some(Rating::Neutral),
    ensures
        forall|i: int| 0 <= i < kept(f, jobs, now).len() ==> (#[trigger] kept(f, jobs, now)[i]).liked is None,
{
    lemma_apply_keeps_matching(f, jobs, now);
    assert forall|i: int| 0 <= i < kept(f, jobs, now).len() implies (#[trigger] kept(f, jobs, now)[i]).liked is None by {
        assert(job_matches(f, kept(f, jobs, now)[i], now));
    }
}

/// "yesterday", "last week/month/quarter", or an amount and a unit with an
/// optional "ago".
pub const RELATIVE_RE: &'static str =
    r"(?i)(yesterday|last\s+(?:week|month|quarter))|(\d+)\s*([a-z]+)(?:\s+ago)?";

/// The days a special phrase stands for (already lower-cased).
pub open spec fn special_days(s: Seq<char>) -> Option<int> {
    if s == "yesterday"@ {
        Some(1)
    } else if s == "last week"@ {
        Some(7)
    } else if s == "last month"@ {
        Some(30)
    } else if s == "last quarter"@ {
        Some(90)
    } else {
        None
    }
}

/// The seconds a time unit stands for (already lower-cased): minutes,
/// hours, days, weeks, months of 30 days and quarters of 90 days.
pub open spec fn unit_secs(u: Seq<char>) -> Option<int> {
    if u == "m"@ || u == "min"@ || u == "mins"@ || u == "minute"@ || u == "minutes"@ {
        Some(60)
    } else if u == "h"@ || u == "hr"@ || u == "hrs"@ || u == "hour"@ || u == "hours"@ {
        Some(3600)
    } else if u == "d"@ || u == "day"@ || u == "days"@ {
        Some(86400)
    } else if u == "w"@ || u == "week"@ || u == "weeks"@ {
        Some(604800)
    } else if u == "mo"@ || u == "month"@ || u == "months"@ {
        Some(2592000)
    } else if u == "quarter"@ || u == "quarters"@ {
        Some(7776000)
    } else {
        None
    }
}

/// `now` moved back by `secs`, when the result is an `i64`.
pub open spec fn back_from(now: int, secs: int) -> Option<int> {
    if i64::MIN <= now - secs <= i64::MAX {
        Some(now - secs)
    } else {
        None
    }
}

/// The moment a relative time such as "3 hours ago" or "last week" names,
/// seen from `now`.
pub open spec fn relative_time_at(text: Seq<char>, now: int) -> Option<int> {
    match crate::pattern::regex_captures_result(RELATIVE_RE@, text) {
        None => None,
        Some(g) => {
            let special = match crate::pattern::group(g, 1) {
                Some(sp) => special_days(crate::text::unicode_lowercase(sp)),
                None => None,
            };
            match special {
                Some(days) => back_from(now, days * 86400),
                None => match crate::pattern::group(g, 2) {
                    None => None,
                    Some(nd) => match parse_i64_spec(nd) {
                        None => None,
                        Some(n) => match crate::pattern::group(g, 3) {
                            None => None,
                            Some(u) => match unit_secs(crate::text::unicode_lowercase(u)) {
                                None => None,
                                Some(k) => back_from(now, n * k),
                            },
                        },
                    },
                },
            }
        },
    }
}

fn is_word(v: &Vec<char>, w: &str) -> (r: bool)
    ensures
        r == (v@ == w@),
{
    crate::text::eq_vec(v, &chars_of(w))
}

fn special_days_exec(s: &Vec<char>) -> (r: Option<i128>)
    ensures
        match r {
            Some(d) => special_days(s@) == Some(d as int),
            None => special_days(s@) is None,
        },
{
    if is_word(s, "yesterday") {
        Some(1)
    } else if is_word(s, "last week") {
        Some(7)
    } else if is_word(s, "last month") {
        Some(30)
    } else if is_word(s, "last quarter") {
        Some(90)
    } else {
        None
    }
}

fn unit_secs_exec(u: &Vec<char>) -> (r: Option<i128>)
    ensures
        match r {
            Some(k) => unit_secs(u@) == Some(k as int),
            None => unit_secs(u@) is None,
        },
{
    if is_word(u, "m") || is_word(u, "min") || is_word(u, "mins") || is_word(u, "minute")
        || is_word(u, "minutes") {
        Some(60)
    } else if is_word(u, "h") || is_word(u, "hr") || is_word(u, "hrs") || is_word(u, "hour")
        || is_word(u, "hours") {
        Some(3600)
    } else if is_word(u, "d") || is_word(u, "day") || is_word(u, "days") {
        Some(86400)
    } else if is_word(u, "w") || is_word(u, "week") || is_word(u, "weeks") {
        Some(604800)
    } else if is_word(u, "mo") || is_word(u, "month") || is_word(u, "months") {
        Some(2592000)
    } else if is_word(u, "quarter") || is_word(u, "quarters") {
        Some(7776000)
    } else {
        None
    }
}

fn back_from_exec(now: i64, secs: i128) -> (r: Option<i64>)
    requires
        -0x1_0000_0000_0000_0000_0000_0000i128 < secs < 0x1_0000_0000_0000_0000_0000_0000i128,
    ensures
        match r {
            Some(t) => back_from(now as int, secs as int) == Some(t as int),
            None => back_from(now as int, secs as int) is None,
        },
{
    let t: i128 = now as i128 - secs;
    if t >= i64::MIN as i128 && t <= i64::MAX as i128 {
        Some(t as i64)
    } else {
        None
    }
}

/// The moment a relative time names, seen from `now` (Unix seconds).
pub fn parse_relative_time_at(text: &str, now: i64) -> (r: Option<i64>)
    ensures
        match r {
            Some(t) => relative_time_at(text@, now as int) == Some(t as int),
            None => relative_time_at(text@, now as int) is None,
        },
{
    let caps = match crate::pattern::regex_captures(RELATIVE_RE, text) {
        Some(c) => c,
        None => return None,
    };
    let special = match crate::pattern::group_at(&caps, 1) {
        Some(sp) => special_days_exec(&crate::text::to_lowercase_vec(&sp)),
        None => None,
    };
    match special {
        Some(days) => back_from_exec(now, days * 86400),
        None => {
            let nd = match crate::pattern::group_at(&caps, 2) {
                Some(x) => x,
                None => return None,
            };
            let n = match parse_i64_vec(&nd) {
                Some(n) => n,
                None => return None,
            };
            let u = match crate::pattern::group_at(&caps, 3) {
                Some(x) => x,
                None => return None,
            };
            match unit_secs_exec(&crate::text::to_lowercase_vec(&u)) {
                None => None,
                Some(k) => {
                    assert(-0x1_0000_0000_0000_0000_0000_0000i128 < (n as i128) * k
                        < 0x1_0000_0000_0000_0000_0000_0000i128) by (nonlinear_arith)
                        requires
                            i64::MIN <= n <= i64::MAX,
                            1 <= k <= 7776000,
                    ;
                    back_from_exec(now, (n as i128) * k)
                },
            }
        },
    }
}

/// The moment a relative time names, seen from the time of the call.
pub fn parse_relative_time(text: &str) -> (r: Option<i64>)
    ensures
        exists|now: i64|
            match r {
                Some(t) => relative_time_at(text@, now as int) == Some(t as int),
                None => relative_time_at(text@, now as int) is None,
            },
{
    let now = crate::clock::now_unix();
    parse_relative_time_at(text, now)
}


/// The minute words of the unit table.
proof fn lemma_minute_words(w: Seq<char>)
    ensures
        (w == "m"@ || w == "min"@ || w == "mins"@ || w == "minute"@ || w == "minutes"@) ==> unit_secs(w) == Some(60int),
{
    reveal_strlit("m");
    reveal_strlit("min");
    reveal_strlit("mins");
    reveal_strlit("minute");
    reveal_strlit("minutes");
    if w == "m"@ {
        assert(unit_secs(w) == Some(60int));
    }
    if w == "min"@ {
        assert(unit_secs(w) == Some(60int));
    }
    if w == "mins"@ {
        assert(unit_secs(w) == Some(60int));
    }
    if w == "minute"@ {
        assert(unit_secs(w) == Some(60int));
    }
    if w == "minutes"@ {
        assert(unit_secs(w) == Some(60int));
    }

}

/// The hour words of the unit table.
proof fn lemma_hour_words(w: Seq<char>)
    ensures
        (w == "h"@ || w == "hr"@ || w == "hrs"@ || w == "hour"@ || w == "hours"@) ==> unit_secs(w) == Some(3600int),
{
    reveal_strlit("h");
    reveal_strlit("hr");
    reveal_strlit("hrs");
    reveal_strlit("hour");
    reveal_strlit("hours");
    reveal_strlit("m");
    reveal_strlit("min");
    reveal_strlit("mins");
    reveal_strlit("minute");
    reveal_strlit("minutes");
    if w == "h"@ {
        assert("h"@[0] != "m"@[0]);
        assert(w != "m"@);
        assert("h"@.len() != "min"@.len());
        assert(w != "min"@);
        assert("h"@.len() != "mins"@.len());
        assert(w != "mins"@);
        assert("h"@.len() != "minute"@.len());
        assert(w != "minute"@);
        assert("h"@.len() != "minutes"@.len());
        assert(w != "minutes"@);
        assert(unit_secs(w) == Some(3600int));
    }
    if w == "hr"@ {
        assert("hr"@.len() != "m"@.len());
        assert(w != "m"@);
        assert("hr"@.len() != "min"@.len());
        assert(w != "min"@);
        assert("hr"@.len() != "mins"@.len());
        assert(w != "mins"@);
        assert("hr"@.len() != "minute"@.len());
        assert(w != "minute"@);
        assert("hr"@.len() != "minutes"@.len());
        assert(w != "minutes"@);
        assert(unit_secs(w) == Some(3600int));
    }
    if w == "hrs"@ {
        assert("hrs"@.len() != "m"@.len());
        assert(w != "m"@);
        assert("hrs"@[0] != "min"@[0]);
        assert(w != "min"@);
        assert("hrs"@.len() != "mins"@.len());
        assert(w != "mins"@);
        assert("hrs"@.len() != "minute"@.len());
        assert(w != "minute"@);
        assert("hrs"@.len() != "minutes"@.len());
        assert(w != "minutes"@);
        assert(unit_secs(w) == Some(3600int));
    }
    if w == "hour"@ {
        assert("hour"@.len() != "m"@.len());
        assert(w != "m"@);
        assert("hour"@.len() != "min"@.len());
        assert(w != "min"@);
        assert("hour"@[0] != "mins"@[0]);
        assert(w != "mins"@);
        assert("hour"@.len() != "minute"@.len());
        assert(w != "minute"@);
        assert("hour"@.len() != "minutes"@.len());
        assert(w != "minutes"@);
        assert(unit_secs(w) == Some(3600int));
    }
    if w == "hours"@ {
        assert("hours"@.len() != "m"@.len());
        assert(w != "m"@);
        assert("hours"@.len() != "min"@.len());
        assert(w != "min"@);
        assert("hours"@.len() != "mins"@.len());
        assert(w != "mins"@);
        assert("hours"@.len() != "minute"@.len());
        assert(w != "minute"@);
        assert("hours"@.len() != "minutes"@.len());
        assert(w != "minutes"@);
        assert(unit_secs(w) == Some(3600int));
    }

}

/// The day words of the unit table.
proof fn lemma_day_words(w: Seq<char>)
    ensures
        (w == "d"@ || w == "day"@ || w == "days"@) ==> unit_secs(w) == Some(86400int),
{
    reveal_strlit("d");
    reveal_strlit("day");
    reveal_strlit("days");
    reveal_strlit("m");
    reveal_strlit("min");
    reveal_strlit("mins");
    reveal_strlit("minute");
    reveal_strlit("minutes");
    reveal_strlit("h");
    reveal_strlit("hr");
    reveal_strlit("hrs");
    reveal_strlit("hour");
    reveal_strlit("hours");
    if w == "d"@ {
        assert("d"@[0] != "m"@[0]);
        assert(w != "m"@);
        assert("d"@.len() != "min"@.len());
        assert(w != "min"@);
        assert("d"@.len() != "mins"@.len());
        assert(w != "mins"@);
        assert("d"@.len() != "minute"@.len());
        assert(w != "minute"@);
        assert("d"@.len() != "minutes"@.len());
        assert(w != "minutes"@);
        assert("d"@[0] != "h"@[0]);
        assert(w != "h"@);
        assert("d"@.len() != "hr"@.len());
        assert(w != "hr"@);
        assert("d"@.len() != "hrs"@.len());
        assert(w != "hrs"@);
        assert("d"@.len() != "hour"@.len());
        assert(w != "hour"@);
        assert("d"@.len() != "hours"@.len());
        assert(w != "hours"@);
        assert(unit_secs(w) == Some(86400int));
    }
    if w == "day"@ {
        assert("day"@.len() != "m"@.len());
        assert(w != "m"@);
        assert("day"@[0] != "min"@[0]);
        assert(w != "min"@);
        assert("day"@.len() != "mins"@.len());
        assert(w != "mins"@);
        assert("day"@.len() != "minute"@.len());
        assert(w != "minute"@);
        assert("day"@.len() != "minutes"@.len());
        assert(w != "minutes"@);
        assert("day"@.len() != "h"@.len());
        assert(w != "h"@);
        assert("day"@.len() != "hr"@.len());
        assert(w != "hr"@);
        assert("day"@[0] != "hrs"@[0]);
        assert(w != "hrs"@);
        assert("day"@.len() != "hour"@.len());
        assert(w != "hour"@);
        assert("day"@.len() != "hours"@.len());
        assert(w != "hours"@);
        assert(unit_secs(w) == Some(86400int));
    }
    if w == "days"@ {
        assert("days"@.len() != "m"@.len());
        assert(w != "m"@);
        assert("days"@.len() != "min"@.len());
        assert(w != "min"@);
        assert("days"@[0] != "mins"@[0]);
        assert(w != "mins"@);
        assert("days"@.len() != "minute"@.len());
        assert(w != "minute"@);
        assert("days"@.len() != "minutes"@.len());
        assert(w != "minutes"@);
        assert("days"@.len() != "h"@.len());
        assert(w != "h"@);
        assert("days"@.len() != "hr"@.len());
        assert(w != "hr"@);
        assert("days"@.len() != "hrs"@.len());
        assert(w != "hrs"@);
        assert("days"@[0] != "hour"@[0]);
        assert(w != "hour"@);
        assert("days"@.len() != "hours"@.len());
        assert(w != "hours"@);
        assert(unit_secs(w) == Some(86400int));
    }

}

/// The week words of the unit table.
proof fn lemma_week_words(w: Seq<char>)
    ensures
        (w == "w"@ || w == "week"@ || w == "weeks"@) ==> unit_secs(w) == Some(604800int),
{
    reveal_strlit("w");
    reveal_strlit("week");
    reveal_strlit("weeks");
    reveal_strlit("m");
    reveal_strlit("min");
    reveal_strlit("mins");
    reveal_strlit("minute");
    reveal_strlit("minutes");
    reveal_strlit("h");
    reveal_strlit("hr");
    reveal_strlit("hrs");
    reveal_strlit("hour");
    reveal_strlit("hours");
    reveal_strlit("d");
    reveal_strlit("day");
    reveal_strlit("days");
    if w == "w"@ {
        assert("w"@[0] != "m"@[0]);
        assert(w != "m"@);
        assert("w"@.len() != "min"@.len());
        assert(w != "min"@);
        assert("w"@.len() != "mins"@.len());
        assert(w != "mins"@);
        assert("w"@.len() != "minute"@.len());
        assert(w != "minute"@);
        assert("w"@.len() != "minutes"@.len());
        assert(w != "minutes"@);
        assert("w"@[0] != "h"@[0]);
        assert(w != "h"@);
        assert("w"@.len() != "hr"@.len());
        assert(w != "hr"@);
        assert("w"@.len() != "hrs"@.len());
        assert(w != "hrs"@);
        assert("w"@.len() != "hour"@.len());
        assert(w != "hour"@);
        assert("w"@.len() != "hours"@.len());
        assert(w != "hours"@);
        assert("w"@[0] != "d"@[0]);
        assert(w != "d"@);
        assert("w"@.len() != "day"@.len());
        assert(w != "day"@);
        assert("w"@.len() != "days"@.len());
        assert(w != "days"@);
        assert(unit_secs(w) == Some(604800int));
    }
    if w == "week"@ {
        assert("week"@.len() != "m"@.len());
        assert(w != "m"@);
        assert("week"@.len() != "min"@.len());
        assert(w != "min"@);
        assert("week"@[0] != "mins"@[0]);
        assert(w != "mins"@);
        assert("week"@.len() != "minute"@.len());
        assert(w != "minute"@);
        assert("week"@.len() != "minutes"@.len());
        assert(w != "minutes"@);
        assert("week"@.len() != "h"@.len());
        assert(w != "h"@);
        assert("week"@.len() != "hr"@.len());
        assert(w != "hr"@);
        assert("week"@.len() != "hrs"@.len());
        assert(w != "hrs"@);
        assert("week"@[0] != "hour"@[0]);
        assert(w != "hour"@);
        assert("week"@.len() != "hours"@.len());
        assert(w != "hours"@);
        assert("week"@.len() != "d"@.len());
        assert(w != "d"@);
        assert("week"@.len() != "day"@.len());
        assert(w != "day"@);
        assert("week"@[0] != "days"@[0]);
        assert(w != "days"@);
        assert(unit_secs(w) == Some(604800int));
    }
    if w == "weeks"@ {
        assert("weeks"@.len() != "m"@.len());
        assert(w != "m"@);
        assert("weeks"@.len() != "min"@.len());
        assert(w != "min"@);
        assert("weeks"@.len() != "mins"@.len());
        assert(w != "mins"@);
        assert("weeks"@.len() != "minute"@.len());
        assert(w != "minute"@);
        assert("weeks"@.len() != "minutes"@.len());
        assert(w != "minutes"@);
        assert("weeks"@.len() != "h"@.len());
        assert(w != "h"@);
        assert("weeks"@.len() != "hr"@.len());
        assert(w != "hr"@);
        assert("weeks"@.len() != "hrs"@.len());
        assert(w != "hrs"@);
        assert("weeks"@.len() != "hour"@.len());
        assert(w != "hour"@);
        assert("weeks"@[0] != "hours"@[0]);
        assert(w != "hours"@);
        assert("weeks"@.len() != "d"@.len());
        assert(w != "d"@);
        assert("weeks"@.len() != "day"@.len());
        assert(w != "day"@);
        assert("weeks"@.len() != "days"@.len());
        assert(w != "days"@);
        assert(unit_secs(w) == Some(604800int));
    }

}

/// The month words of the unit table.
proof fn lemma_month_words(w: Seq<char>)
    ensures
        (w == "mo"@ || w == "month"@ || w == "months"@) ==> unit_secs(w) == Some(2592000int),
{
    reveal_strlit("mo");
    reveal_strlit("month");
    reveal_strlit("months");
    reveal_strlit("m");
    reveal_strlit("min");
    reveal_strlit("mins");
    reveal_strlit("minute");
    reveal_strlit("minutes");
    reveal_strlit("h");
    reveal_strlit("hr");
    reveal_strlit("hrs");
    reveal_strlit("hour");
    reveal_strlit("hours");
    reveal_strlit("d");
    reveal_strlit("day");
    reveal_strlit("days");
    reveal_strlit("w");
    reveal_strlit("week");
    reveal_strlit("weeks");
    if w == "mo"@ {
        assert("mo"@.len() != "m"@.len());
        assert(w != "m"@);
        assert("mo"@.len() != "min"@.len());
        assert(w != "min"@);
        assert("mo"@.len() != "mins"@.len());
        assert(w != "mins"@);
        assert("mo"@.len() != "minute"@.len());
        assert(w != "minute"@);
        assert("mo"@.len() != "minutes"@.len());
        assert(w != "minutes"@);
        assert("mo"@.len() != "h"@.len());
        assert(w != "h"@);
        assert("mo"@[0] != "hr"@[0]);
        assert(w != "hr"@);
        assert("mo"@.len() != "hrs"@.len());
        assert(w != "hrs"@);
        assert("mo"@.len() != "hour"@.len());
        assert(w != "hour"@);
        assert("mo"@.len() != "hours"@.len());
        assert(w != "hours"@);
        assert("mo"@.len() != "d"@.len());
        assert(w != "d"@);
        assert("mo"@.len() != "day"@.len());
        assert(w != "day"@);
        assert("mo"@.len() != "days"@.len());
        assert(w != "days"@);
        assert("mo"@.len() != "w"@.len());
        assert(w != "w"@);
        assert("mo"@.len() != "week"@.len());
        assert(w != "week"@);
        assert("mo"@.len() != "weeks"@.len());
        assert(w != "weeks"@);
        assert(unit_secs(w) == Some(2592000int));
    }
    if w == "month"@ {
        assert("month"@.len() != "m"@.len());
        assert(w != "m"@);
        assert("month"@.len() != "min"@.len());
        assert(w != "min"@);
        assert("month"@.len() != "mins"@.len());
        assert(w != "mins"@);
        assert("month"@.len() != "minute"@.len());
        assert(w != "minute"@);
        assert("month"@.len() != "minutes"@.len());
        assert(w != "minutes"@);
        assert("month"@.len() != "h"@.len());
        assert(w != "h"@);
        assert("month"@.len() != "hr"@.len());
        assert(w != "hr"@);
        assert("month"@.len() != "hrs"@.len());
        assert(w != "hrs"@);
        assert("month"@.len() != "hour"@.len());
        assert(w != "hour"@);
        assert("month"@[0] != "hours"@[0]);
        assert(w != "hours"@);
        assert("month"@.len() != "d"@.len());
        assert(w != "d"@);
        assert("month"@.len() != "day"@.len());
        assert(w != "day"@);
        assert("month"@.len() != "days"@.len());
        assert(w != "days"@);
        assert("month"@.len() != "w"@.len());
        assert(w != "w"@);
        assert("month"@.len() != "week"@.len());
        assert(w != "week"@);
        assert("month"@[0] != "weeks"@[0]);
        assert(w != "weeks"@);
        assert(unit_secs(w) == Some(2592000int));
    }
    if w == "months"@ {
        assert("months"@.len() != "m"@.len());
        assert(w != "m"@);
        assert("months"@.len() != "min"@.len());
        assert(w != "min"@);
        assert("months"@.len() != "mins"@.len());
        assert(w != "mins"@);
        assert("months"@[1] != "minute"@[1]);
        assert(w != "minute"@);
        assert("months"@.len() != "minutes"@.len());
        assert(w != "minutes"@);
        assert("months"@.len() != "h"@.len());
        assert(w != "h"@);
        assert("months"@.len() != "hr"@.len());
        assert(w != "hr"@);
        assert("months"@.len() != "hrs"@.len());
        assert(w != "hrs"@);
        assert("months"@.len() != "hour"@.len());
        assert(w != "hour"@);
        assert("months"@.len() != "hours"@.len());
        assert(w != "hours"@);
        assert("months"@.len() != "d"@.len());
        assert(w != "d"@);
        assert("months"@.len() != "day"@.len());
        assert(w != "day"@);
        assert("months"@.len() != "days"@.len());
        assert(w != "days"@);
        assert("months"@.len() != "w"@.len());
        assert(w != "w"@);
        assert("months"@.len() != "week"@.len());
        assert(w != "week"@);
        assert("months"@.len() != "weeks"@.len());
        assert(w != "weeks"@);
        assert(unit_secs(w) == Some(2592000int));
    }

}

/// The quarter words of the unit table.
proof fn lemma_quarter_words(w: Seq<char>)
    ensures
        (w == "quarter"@ || w == "quarters"@) ==> unit_secs(w) == Some(7776000int),
{
    reveal_strlit("quarter");
    reveal_strlit("quarters");
    reveal_strlit("m");
    reveal_strlit("min");
    reveal_strlit("mins");
    reveal_strlit("minute");
    reveal_strlit("minutes");
    reveal_strlit("h");
    reveal_strlit("hr");
    reveal_strlit("hrs");
    reveal_strlit("hour");
    reveal_strlit("hours");
    reveal_strlit("d");
    reveal_strlit("day");
    reveal_strlit("days");
    reveal_strlit("w");
    reveal_strlit("week");
    reveal_strlit("weeks");
    reveal_strlit("mo");
    reveal_strlit("month");
    reveal_strlit("months");
    if w == "quarter"@ {
        assert("quarter"@.len() != "m"@.len());
        assert(w != "m"@);
        assert("quarter"@.len() != "min"@.len());
        assert(w != "min"@);
        assert("quarter"@.len() != "mins"@.len());
        assert(w != "mins"@);
        assert("quarter"@.len() != "minute"@.len());
        assert(w != "minute"@);
        assert("quarter"@[0] != "minutes"@[0]);
        assert(w != "minutes"@);
        assert("quarter"@.len() != "h"@.len());
        assert(w != "h"@);
        assert("quarter"@.len() != "hr"@.len());
        assert(w != "hr"@);
        assert("quarter"@.len() != "hrs"@.len());
        assert(w != "hrs"@);
        assert("quarter"@.len() != "hour"@.len());
        assert(w != "hour"@);
        assert("quarter"@.len() != "hours"@.len());
        assert(w != "hours"@);
        assert("quarter"@.len() != "d"@.len());
        assert(w != "d"@);
        assert("quarter"@.len() != "day"@.len());
        assert(w != "day"@);
        assert("quarter"@.len() != "days"@.len());
        assert(w != "days"@);
        assert("quarter"@.len() != "w"@.len());
        assert(w != "w"@);
        assert("quarter"@.len() != "week"@.len());
        assert(w != "week"@);
        assert("quarter"@.len() != "weeks"@.len());
        assert(w != "weeks"@);
        assert("quarter"@.len() != "mo"@.len());
        assert(w != "mo"@);
        assert("quarter"@.len() != "month"@.len());
        assert(w != "month"@);
        assert("quarter"@.len() != "months"@.len());
        assert(w != "months"@);
        assert(unit_secs(w) == Some(7776000int));
    }
    if w == "quarters"@ {
        assert("quarters"@.len() != "m"@.len());
        assert(w != "m"@);
        assert("quarters"@.len() != "min"@.len());
        assert(w != "min"@);
        assert("quarters"@.len() != "mins"@.len());
        assert(w != "mins"@);
        assert("quarters"@.len() != "minute"@.len());
        assert(w != "minute"@);
        assert("quarters"@.len() != "minutes"@.len());
        assert(w != "minutes"@);
        assert("quarters"@.len() != "h"@.len());
        assert(w != "h"@);
        assert("quarters"@.len() != "hr"@.len());
        assert(w != "hr"@);
        assert("quarters"@.len() != "hrs"@.len());
        assert(w != "hrs"@);
        assert("quarters"@.len() != "hour"@.len());
        assert(w != "hour"@);
        assert("quarters"@.len() != "hours"@.len());
        assert(w != "hours"@);
        assert("quarters"@.len() != "d"@.len());
        assert(w != "d"@);
        assert("quarters"@.len() != "day"@.len());
        assert(w != "day"@);
        assert("quarters"@.len() != "days"@.len());
        assert(w != "days"@);
        assert("quarters"@.len() != "w"@.len());
        assert(w != "w"@);
        assert("quarters"@.len() != "week"@.len());
        assert(w != "week"@);
        assert("quarters"@.len() != "weeks"@.len());
        assert(w != "weeks"@);
        assert("quarters"@.len() != "mo"@.len());
        assert(w != "mo"@);
        assert("quarters"@.len() != "month"@.len());
        assert(w != "month"@);
        assert("quarters"@.len() != "months"@.len());
        assert(w != "months"@);
        assert(unit_secs(w) == Some(7776000int));
    }

}

/// Words outside the unit table name no unit.
proof fn lemma_other_words(w: Seq<char>)
    ensures
        !(w == "m"@ || w == "min"@ || w == "mins"@ || w == "minute"@ || w == "minutes"@ || w == "h"@ || w == "hr"@ || w == "hrs"@ || w == "hour"@ || w == "hours"@ || w == "d"@ || w == "day"@ || w == "days"@ || w == "w"@ || w == "week"@ || w == "weeks"@ || w == "mo"@ || w == "month"@ || w == "months"@ || w == "quarter"@ || w == "quarters"@) ==> unit_secs(w) is None,
{
}

/// Every unit word of the table counts its own length of time: an amount
/// `n` followed by a minute, hour, day, week, month (30 days) or quarter
/// (90 days) word, in any case, names the moment `n` such units before
/// `now`, when that moment is an `i64`; any other word names nothing.
pub proof fn lemma_unit_words(
    text: Seq<char>,
    now: int,
    g: Seq<Option<Seq<char>>>,
    nd: Seq<char>,
    n: int,
    u: Seq<char>,
)
    requires
        crate::pattern::regex_captures_result(RELATIVE_RE@, text) == Some(g),
        crate::pattern::group(g, 1) is None,
        crate::pattern::group(g, 2) == Some(nd),
        parse_i64_spec(nd) == Some(n),
        crate::pattern::group(g, 3) == Some(u),
    ensures
        ({
            let w = crate::text::unicode_lowercase(u);
            let at = |secs: int|
                if i64::MIN <= now - n * secs <= i64::MAX {
                    Some(now - n * secs)
                } else {
                    None
                };
            &&& (w == "m"@ || w == "min"@ || w == "mins"@ || w == "minute"@ || w == "minutes"@)
                ==> relative_time_at(text, now) == at(60int)
            &&& (w == "h"@ || w == "hr"@ || w == "hrs"@ || w == "hour"@ || w == "hours"@)
                ==> relative_time_at(text, now) == at(3600int)
            &&& (w == "d"@ || w == "day"@ || w == "days"@) ==> relative_time_at(text, now) == at(86400int)
            &&& (w == "w"@ || w == "week"@ || w == "weeks"@) ==> relative_time_at(text, now) == at(7 * 86400int)
            &&& (w == "mo"@ || w == "month"@ || w == "months"@) ==> relative_time_at(text, now)
                == at(30 * 86400int)
            &&& (w == "quarter"@ || w == "quarters"@) ==> relative_time_at(text, now) == at(90 * 86400int)
            &&& !(w == "m"@ || w == "min"@ || w == "mins"@ || w == "minute"@ || w == "minutes"@
                || w == "h"@ || w == "hr"@ || w == "hrs"@ || w == "hour"@ || w == "hours"@ || w
                == "d"@ || w == "day"@ || w == "days"@ || w == "w"@ || w == "week"@ || w
                == "weeks"@ || w == "mo"@ || w == "month"@ || w == "months"@ || w == "quarter"@
                || w == "quarters"@) ==> relative_time_at(text, now) is None
        }),
{
    let w = crate::text::unicode_lowercase(u);
    assert(relative_time_at(text, now) == match unit_secs(w) {
        Some(k) => back_from(now, n * k),
        None => None,
    });
    lemma_minute_words(w);
    lemma_hour_words(w);
    lemma_day_words(w);
    lemma_week_words(w);
    lemma_month_words(w);
    lemma_quarter_words(w);
    lemma_other_words(w);
}


/// The special phrases count back whole days: "yesterday" one day, "last
/// week" seven, "last month" thirty and "last quarter" ninety, in any case,
/// when the moment is an `i64`.
pub proof fn lemma_special_phrases(text: Seq<char>, now: int, g: Seq<Option<Seq<char>>>, sp: Seq<char>)
    requires
        crate::pattern::regex_captures_result(RELATIVE_RE@, text) == Some(g),
        crate::pattern::group(g, 1) == Some(sp),
    ensures
        ({
            let w = crate::text::unicode_lowercase(sp);
            let at = |days: int|
                if i64::MIN <= now - days * 86400 <= i64::MAX {
                    Some(now - days * 86400)
                } else {
                    None
                };
            &&& w == "yesterday"@ ==> relative_time_at(text, now) == at(1)
            &&& w == "last week"@ ==> relative_time_at(text, now) == at(7)
            &&& w == "last month"@ ==> relative_time_at(text, now) == at(30)
            &&& w == "last quarter"@ ==> relative_time_at(text, now) == at(90)
        }),
{
    let w = crate::text::unicode_lowercase(sp);
    reveal_strlit("yesterday");
    reveal_strlit("last week");
    reveal_strlit("last month");
    reveal_strlit("last quarter");
    if w == "yesterday"@ {
        assert(special_days(w) == Some(1int));
    }
    if w == "last week"@ {
        assert("last week"@[0] != "yesterday"@[0]);
        assert(w != "yesterday"@);
        assert(special_days(w) == Some(7int));
    }
    if w == "last month"@ {
        assert("last month"@.len() != "yesterday"@.len());
        assert(w != "yesterday"@);
        assert("last month"@.len() != "last week"@.len());
        assert(w != "last week"@);
        assert(special_days(w) == Some(30int));
    }
    if w == "last quarter"@ {
        assert("last quarter"@.len() != "yesterday"@.len());
        assert(w != "yesterday"@);
        assert("last quarter"@.len() != "last week"@.len());
        assert(w != "last week"@);
        assert("last quarter"@.len() != "last month"@.len());
        assert(w != "last month"@);
        assert(special_days(w) == Some(90int));
    }
}

} // verus!
