//! The commands of the `jobsearch` program, and the job list each list
//! command asks for.

use crate::config::Providers;
use crate::models::{JobFilter, Platform, Rating, Sort};
use crate::text::{chars_of, push_str, string_of, strings_view};
use vstd::prelude::*;

verus! {

/// The program's command line.
#[derive(Debug, Clone)]
pub struct Cli {
    pub command: Commands,
}

#[derive(Debug, Clone)]
pub enum Commands {
    Init,
    Update(UpdateCmd),
    List(ListCmd),
    Show(ShowCmd),
    Delete { ids: Vec<i64> },
    React(ReactCmd),
    Serve { port: u16 },
    Diagnose,
    Embed(EmbedCmd),
}

#[derive(Debug, Clone, Copy)]
pub struct EmbedCmd {
    /// Jobs embedded in one batch.
    pub batch_size: usize,
    /// Forget which jobs are embedded and embed every job again.
    pub force: bool,
}

#[derive(Debug, Clone)]
pub struct ListCmd {
    pub target: ListTarget,
}

#[derive(Debug, Clone)]
pub enum ListTarget {
    All(AllListArgs),
    Upwork(UpworkListArgs),
    Nofluff(PlatformListArgs),
    Efinancialcareers(PlatformListArgs),
    Hackernews(PlatformListArgs),
    LinkedIn(PlatformListArgs),
}

#[derive(Debug, Clone)]
pub struct AllListArgs {
    pub common: CommonListArgs,
    pub sort: CommonSortBy,
}

#[derive(Debug, Clone)]
pub struct PlatformListArgs {
    pub common: CommonListArgs,
    pub sort: CommonSortBy,
}

#[derive(Debug, Clone)]
pub struct ShowCmd {
    pub ids: Vec<i64>,
}

#[derive(Debug, Clone)]
pub struct CommonListArgs {
    /// Applied or not; all jobs when absent.
    pub applied: Option<bool>,
    /// Liked, disliked or neutral; all jobs when absent.
    pub rating: Option<Rating>,
    /// Remote or not; all jobs when absent.
    pub remote: Option<bool>,
    /// Semantic search text.
    pub search: Option<String>,
}

#[derive(Debug, Clone, Copy, PartialEq, Eq, Structural)]
pub enum CommonSortBy {
    Created,
    Applied,
}

#[derive(Debug, Clone)]
pub struct UpworkListArgs {
    pub common: CommonListArgs,
    pub sort: UpworkSortBy,
}

#[derive(Debug, Clone, Copy, PartialEq, Eq, Structural)]
pub enum UpworkSortBy {
    Created,
    UpworkViewed,
    Applied,
}

#[derive(Debug, Clone, Copy)]
pub struct UpdateCmd {
    pub platform: UpdatePlatform,
}

#[derive(Debug, Clone)]
pub struct ReactCmd {
    pub action: ReactAction,
}

#[derive(Debug, Clone)]
pub enum ReactAction {
    /// Apply to a job, with an optional note or a file holding one.
    Apply { id: i64, note: Option<String>, note_file: Option<String> },
    Like { ids: Vec<i64> },
    Dislike { ids: Vec<i64> },
    Neutral { ids: Vec<i64> },
}

#[derive(Debug, Clone, Copy, PartialEq, Eq, Structural)]
pub enum UpdatePlatform {
    Upwork,
    Nofluff,
    Efinancialcareers,
    Hackernews,
    LinkedIn,
}

/// The platform a list target is narrowed to; none for all platforms.
pub open spec fn target_platform(t: ListTarget) -> Option<Platform> {
    match t {
        ListTarget::All(_) => None,
        ListTarget::Upwork(_) => Some(Platform::Upwork),
        ListTarget::Nofluff(_) => Some(Platform::NoFluffJobs),
        ListTarget::Efinancialcareers(_) => Some(Platform::Efinancialcareers),
        ListTarget::Hackernews(_) => Some(Platform::Hackernews),
        ListTarget::LinkedIn(_) => Some(Platform::LinkedIn),
    }
}

pub open spec fn target_common(t: ListTarget) -> CommonListArgs {
    match t {
        ListTarget::All(a) => a.common,
        ListTarget::Upwork(a) => a.common,
        ListTarget::Nofluff(a) => a.common,
        ListTarget::Efinancialcareers(a) => a.common,
        ListTarget::Hackernews(a) => a.common,
        ListTarget::LinkedIn(a) => a.common,
    }
}

pub open spec fn common_sort(s: CommonSortBy) -> Sort {
    match s {
        CommonSortBy::Created => Sort::Created,
        CommonSortBy::Applied => Sort::Applied,
    }
}

/// The sort a list target asks for.
pub open spec fn target_sort(t: ListTarget) -> Sort {
    match t {
        ListTarget::All(a) => common_sort(a.sort),
        ListTarget::Upwork(a) => match a.sort {
            UpworkSortBy::Created => Sort::Created,
            UpworkSortBy::UpworkViewed => Sort::UpworkViewed,
            UpworkSortBy::Applied => Sort::Applied,
        },
        ListTarget::Nofluff(a) => common_sort(a.sort),
        ListTarget::Efinancialcareers(a) => common_sort(a.sort),
        ListTarget::Hackernews(a) => common_sort(a.sort),
        ListTarget::LinkedIn(a) => common_sort(a.sort),
    }
}

fn common_sort_exec(s: CommonSortBy) -> (r: Sort)
    ensures
        r == common_sort(s),
{
    match s {
        CommonSortBy::Created => Sort::Created,
        CommonSortBy::Applied => Sort::Applied,
    }
}

/// What a list command asks for: the filter (the target's platform and the
/// common options), the sort, and the search text.
pub fn list_request(target: ListTarget) -> (r: (JobFilter, Sort, Option<String>))
    ensures
        r.0.platform == target_platform(target),
        r.0.rating == target_common(target).rating,
        r.0.applied == target_common(target).applied,
        r.0.remote == target_common(target).remote,
        r.0.recency is None,
        r.1 == target_sort(target),
        r.2 == target_common(target).search,
{
    let (platform, common, sort) = match target {
        ListTarget::All(a) => (None, a.common, common_sort_exec(a.sort)),
        ListTarget::Upwork(a) => {
            let s = match a.sort {
                UpworkSortBy::Created => Sort::Created,
                UpworkSortBy::UpworkViewed => Sort::UpworkViewed,
                UpworkSortBy::Applied => Sort::Applied,
            };
            (Some(Platform::Upwork), a.common, s)
        },
        ListTarget::Nofluff(a) => (Some(Platform::NoFluffJobs), a.common, common_sort_exec(a.sort)),
        ListTarget::Efinancialcareers(a) => (
            Some(Platform::Efinancialcareers),
            a.common,
            common_sort_exec(a.sort),
        ),
        ListTarget::Hackernews(a) => (Some(Platform::Hackernews), a.common, common_sort_exec(a.sort)),
        ListTarget::LinkedIn(a) => (Some(Platform::LinkedIn), a.common, common_sort_exec(a.sort)),
    };
    let filter = JobFilter {
        platform,
        rating: common.rating,
        applied: common.applied,
        remote: common.remote,
        recency: None,
    };
    (filter, sort, common.search)
}

/// The name of a platform's provider in the settings.
pub open spec fn provider_name(p: UpdatePlatform) -> Seq<char> {
    match p {
        UpdatePlatform::Upwork => "upwork"@,
        UpdatePlatform::Nofluff => "nofluffjobs"@,
        UpdatePlatform::Efinancialcareers => "efinancialcareers"@,
        UpdatePlatform::Hackernews => "hackernews"@,
        UpdatePlatform::LinkedIn => "linkedin"@,
    }
}

/// The search URLs the settings hold for a platform; the settings hold
/// none for Hacker News.
pub open spec fn provider_urls(providers: Providers, p: UpdatePlatform) -> Seq<Seq<char>> {
    match p {
        UpdatePlatform::Upwork => strings_view(providers.upwork.urls@),
        UpdatePlatform::Nofluff => strings_view(providers.nofluffjobs.urls@),
        UpdatePlatform::Efinancialcareers => strings_view(providers.efinancialcareers.urls@),
        UpdatePlatform::Hackernews => Seq::empty(),
        UpdatePlatform::LinkedIn => strings_view(providers.linkedin.urls@),
    }
}

/// An update asked for a platform without search URLs.
#[derive(Debug, Clone)]
pub struct NoUrlsConfigured {
    pub provider: String,
}

impl NoUrlsConfigured {
    pub fn message(&self) -> (r: String)
        ensures
            r@ == "no URLs configured for "@ + self.provider@ + " in jobsearch.toml"@,
    {
        let mut out = chars_of("no URLs configured for ");
        push_str(&mut out, self.provider.as_str());
        push_str(&mut out, " in jobsearch.toml");
        string_of(&out)
    }
}

fn copy_urls(v: &Vec<String>) -> (r: Vec<String>)
    ensures
        strings_view(r@) == strings_view(v@),
{
    let mut out: Vec<String> = Vec::new();
    let mut i: usize = 0;
    while i < v.len()
        invariant
            i <= v.len(),
            strings_view(out@) == strings_view(v@).subrange(0, i as int),
        decreases v.len() - i,
    {
        let c = string_of(&chars_of(v[i].as_str()));
        let ghost o0 = strings_view(out@);
        out.push(c);
        assert(strings_view(out@) =~= o0.push(c@));
        assert(strings_view(v@).subrange(0, i + 1) =~= strings_view(v@).subrange(0, i as int).push(
            v@[i as int]@,
        ));
        i = i + 1;
    }
    assert(strings_view(v@).subrange(0, i as int) =~= strings_view(v@));
    out
}

/// The search URLs an update walks, or the error when there are none.
pub fn update_urls(providers: &Providers, p: UpdatePlatform) -> (r: Result<
    Vec<String>,
    NoUrlsConfigured,
>)
    ensures
        match r {
            Ok(urls) => strings_view(urls@) == provider_urls(*providers, p) && urls@.len() > 0,
            Err(e) => provider_urls(*providers, p).len() == 0 && e.provider@ == provider_name(p),
        },
{
    let (urls, name): (Vec<String>, &str) = match p {
        UpdatePlatform::Upwork => (copy_urls(&providers.upwork.urls), "upwork"),
        UpdatePlatform::Nofluff => (copy_urls(&providers.nofluffjobs.urls), "nofluffjobs"),
        UpdatePlatform::Efinancialcareers => (
            copy_urls(&providers.efinancialcareers.urls),
            "efinancialcareers",
        ),
        UpdatePlatform::Hackernews => {
            let none: Vec<String> = Vec::new();
            assert(strings_view(none@) =~= Seq::<Seq<char>>::empty());
            (none, "hackernews")
        },
        UpdatePlatform::LinkedIn => (copy_urls(&providers.linkedin.urls), "linkedin"),
    };
    if urls.len() == 0 {
        Err(NoUrlsConfigured { provider: string_of(&chars_of(name)) })
    } else {
        Ok(urls)
    }
}

} // verus!
