use jobsearch::models::{
    default_page, default_page_size, parse_relative_time, parse_relative_time_at,
    recency_is_defined, Data, Job, JobFilter, Platform, Rating, Recency, RecencyError, Sort,
    UpworkJobDetail,
};

fn job(id: i64, liked: Option<bool>, applied_at: Option<i64>, platform: Platform, remote: bool) -> Job {
    Job {
        id,
        platform,
        external_id: format!("j{id}"),
        title: format!("Job {id}"),
        description: None,
        url: "https://e.com".into(),
        budget: None,
        tags: vec![],
        raw: Data::Upwork { detail: UpworkJobDetail::default() },
        company: None,
        created_at: 0,
        updated_at: 0,
        note: None,
        liked,
        remote,
        applied_at,
    }
}

fn ids(f: JobFilter, jobs: &[Job]) -> Vec<i64> {
    f.apply(jobs.to_vec()).into_iter().map(|j| j.id).collect()
}

#[test]
fn test_job_filter_rating() {
    let jobs = vec![
        job(1, Some(true), None, Platform::Upwork, false),
        job(2, Some(false), None, Platform::Upwork, false),
        job(3, None, None, Platform::Upwork, false),
    ];
    let with = |r: Option<Rating>| JobFilter { rating: r, ..Default::default() };
    assert_eq!(ids(with(Some(Rating::Liked)), &jobs), vec![1]);
    assert_eq!(ids(with(Some(Rating::Disliked)), &jobs), vec![2]);
    assert_eq!(ids(with(Some(Rating::Neutral)), &jobs), vec![3]);
    assert_eq!(ids(with(None), &jobs), vec![1, 2, 3]);
}

#[test]
fn test_job_filter_applied() {
    let jobs = vec![
        job(1, None, Some(10), Platform::Upwork, false),
        job(2, None, None, Platform::Upwork, false),
        job(3, None, Some(20), Platform::Upwork, false),
    ];
    let with = |a: Option<bool>| JobFilter { applied: a, ..Default::default() };
    assert_eq!(ids(with(Some(true)), &jobs), vec![1, 3]);
    assert_eq!(ids(with(Some(false)), &jobs), vec![2]);
    assert_eq!(ids(with(None), &jobs), vec![1, 2, 3]);
}

#[test]
fn job_filter_platform_and_remote() {
    let jobs = vec![
        job(1, None, None, Platform::Upwork, true),
        job(2, None, None, Platform::NoFluffJobs, true),
        job(3, None, None, Platform::NoFluffJobs, false),
    ];
    let f = JobFilter { platform: Some(Platform::NoFluffJobs), ..Default::default() };
    assert_eq!(ids(f, &jobs), vec![2, 3]);
    let f = JobFilter { platform: Some(Platform::NoFluffJobs), remote: Some(true), ..Default::default() };
    assert_eq!(ids(f, &jobs), vec![2]);
    // Filtering twice keeps the same jobs.
    let once = f.apply(jobs.clone());
    let twice = f.apply(once.clone());
    assert_eq!(
        once.iter().map(|j| j.id).collect::<Vec<_>>(),
        twice.iter().map(|j| j.id).collect::<Vec<_>>()
    );
}

#[test]
fn platform_names_and_sorts() {
    assert_eq!(Platform::Efinancialcareers.to_string(), "efinancialcareers");
    assert_eq!(Platform::NoFluffJobs.to_string(), "nofluffjobs");
    assert_eq!(Platform::Upwork.to_string(), "upwork");
    assert_eq!(Sort::Created.order_by_sql(), "j.created_at DESC");
    assert_eq!(Sort::UpworkViewed.order_by_sql(), "j.upwork_last_viewed_at DESC NULLS LAST");
    assert_eq!(Sort::Applied.order_by_sql(), "r.applied_at DESC NULLS LAST");
    assert_eq!(Sort::default(), Sort::Created);
    assert_eq!(default_page(), 1);
    assert_eq!(default_page_size(), 20);
}

#[test]
fn recency_days_and_weeks() {
    assert_eq!(Recency::parse("1d").unwrap().0, 1);
    assert_eq!(Recency::parse("4w").unwrap().0, 28);
    assert_eq!(Recency::parse("  12d ").unwrap().0, 12);
    assert_eq!(Recency::parse("-2d").unwrap().0, -2);
}

#[test]
fn recency_errors() {
    match Recency::parse("d") {
        Err(e @ RecencyError::TooShort { .. }) => {
            assert_eq!(e.message(), "recency must be like 1d or 4w, got 'd'")
        }
        other => panic!("unexpected {other:?}"),
    }
    match Recency::parse("xd") {
        Err(e @ RecencyError::InvalidNumber { .. }) => {
            assert_eq!(e.message(), "invalid recency number 'x'")
        }
        other => panic!("unexpected {other:?}"),
    }
    match Recency::parse("5y") {
        Err(e @ RecencyError::InvalidUnit { .. }) => {
            assert_eq!(e.message(), "recency unit must be 'd' or 'w', got 'y'")
        }
        other => panic!("unexpected {other:?}"),
    }
    assert!(recency_is_defined("5y"));
    assert!(!recency_is_defined("5é"));
    assert!(!recency_is_defined("1317624576693539402w"));
    assert!(recency_is_defined("1317624576693539401w"));
}

#[test]
fn test_parse_relative_time() {
    let now = 1_700_000_000;
    let cases = [
        ("20m ago", 20 * 60),
        ("20 minutes ago", 20 * 60),
        ("1h ago", 3_600),
        ("3 hours ago", 3 * 3_600),
        ("2d ago", 2 * 86_400),
        ("1 day ago", 86_400),
        ("3w ago", 21 * 86_400),
        ("1 week ago", 7 * 86_400),
        ("yesterday", 86_400),
        ("last quarter", 90 * 86_400),
        ("1 quarter ago", 90 * 86_400),
    ];
    for (input, expected) in cases {
        assert_eq!(parse_relative_time_at(input, now), Some(now - expected), "{input}");
    }
    assert!(parse_relative_time_at("", now).is_none());
    assert!(parse_relative_time_at("unknown", now).is_none());
}

#[test]
fn test_parse_relative_time_special_and_long() {
    let now = 1_700_000_000;
    let cases = [
        ("5 minutes ago", 5 * 60),
        ("1 hour ago", 3_600),
        ("yesterday", 86_400),
        ("2 days ago", 2 * 86_400),
        ("last week", 7 * 86_400),
        ("3 weeks ago", 21 * 86_400),
        ("last month", 30 * 86_400),
        ("2 months ago", 60 * 86_400),
        ("last quarter", 90 * 86_400),
    ];
    for (input, expected) in cases {
        assert_eq!(parse_relative_time_at(input, now), Some(now - expected), "{input}");
    }
}

#[test]
fn test_parse_relative_time_with_prefixes() {
    let now = 1_700_000_000;
    let cases = [
        ("Posted 5m ago", 5 * 60),
        ("Posted 1 hour ago", 3_600),
        ("viewed 2h ago", 2 * 3_600),
        ("last viewed by client: 3d ago", 3 * 86_400),
        ("Last Viewed By Client 1w ago", 7 * 86_400),
    ];
    for (input, expected) in cases {
        assert_eq!(parse_relative_time_at(input, now), Some(now - expected), "{input}");
    }
}

#[test]
fn relative_time_from_the_clock() {
    assert!(parse_relative_time("3 hours ago").is_some());
    assert!(parse_relative_time("no time here").is_none());
}

#[test]
fn platform_names_read_back() {
    for p in [
        Platform::Efinancialcareers,
        Platform::NoFluffJobs,
        Platform::Upwork,
        Platform::Hackernews,
        Platform::LinkedIn,
        Platform::Reddit,
        Platform::Wellfound,
    ] {
        assert_eq!(Platform::parse(&p.to_string()), Some(p));
    }
    assert_eq!(Platform::parse("Upwork"), None);
    assert_eq!(Platform::parse("workatastartup"), None);
    assert_eq!(Platform::parse(""), None);
}

#[test]
fn test_job_filter_recency() {
    let now = chrono::Utc::now().timestamp();
    let at = |id: i64, created_at: i64| {
        let mut j = job(id, None, None, Platform::Upwork, false);
        j.created_at = created_at;
        j
    };
    let jobs = vec![at(1, now - 3_600), at(2, now - 2 * 86_400), at(3, now - 10 * 86_400)];
    assert_eq!(ids(JobFilter { recency: Some(Recency(1)), ..Default::default() }, &jobs), vec![1]);
    assert_eq!(ids(JobFilter { recency: Some(Recency(5)), ..Default::default() }, &jobs), vec![1, 2]);
    assert_eq!(ids(JobFilter { recency: None, ..Default::default() }, &jobs), vec![1, 2, 3]);
}

#[test]
fn recency_cutoff_at_a_given_time() {
    let now = 1_000_000;
    let at = |id: i64, created_at: i64| {
        let mut j = job(id, None, None, Platform::Upwork, false);
        j.created_at = created_at;
        j
    };
    let jobs = vec![at(1, now - 86_400), at(2, now - 86_401), at(3, now + 5)];
    let f = JobFilter { recency: Some(Recency(1)), ..Default::default() };
    let kept: Vec<i64> = f.apply_at(jobs.clone(), now).into_iter().map(|j| j.id).collect();
    assert_eq!(kept, vec![1, 3]);
    assert!(f.matches(&jobs[0], now));
    assert!(!f.matches(&jobs[1], now));
    let huge = JobFilter { recency: Some(Recency(i64::MAX)), ..Default::default() };
    assert_eq!(huge.apply_at(jobs, now).len(), 3);
}
