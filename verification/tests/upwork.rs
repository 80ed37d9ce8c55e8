use jobsearch::upwork::normalize_upwork_external_id;
use jobsearch::models::{Data, Platform, UpworkJobDetail};
use jobsearch::upwork::{
    extract_upwork_external_id_from_url, format_upwork_budget, normalize_upwork_url,
    set_url_page_param, skip_card, upwork_detail_at, upwork_job_at, RawJobDetail, UpworkJobCard,
};

#[test]
fn test_normalize_upwork_external_id_variants() {
    assert_eq!(
        normalize_upwork_external_id("2062803789757972368"),
        "~022062803789757972368"
    );
    assert_eq!(
        normalize_upwork_external_id("~022062803789757972368"),
        "~022062803789757972368"
    );
    assert_eq!(
        normalize_upwork_external_id("022062803789757972368"),
        "~022062803789757972368"
    );
    assert_eq!(
        normalize_upwork_external_id("  ~022062803789757972368  "),
        "~022062803789757972368"
    );
    assert_eq!(normalize_upwork_external_id(""), "");
}

#[test]
fn test_extract_upwork_external_id_from_slug_url() {
    let url = "https://www.upwork.com/jobs/Kalshi-span-class-highlight-Trading-span-Bot-Developer-Python-Prediction-Markets_~022062803789757972368/?referrer_url_path=/nx/search/jobs/";
    assert_eq!(
        extract_upwork_external_id_from_url(url),
        Some("~022062803789757972368".to_string())
    );
}

#[test]
fn test_normalize_upwork_url_strips_slug_and_query() {
    let slug = "https://www.upwork.com/jobs/Kalshi-span-class-highlight-Trading-span-Bot-Developer-Python-Prediction-Markets_~022062803789757972368/?referrer_url_path=/nx/search/jobs/";
    assert_eq!(
        normalize_upwork_url(slug),
        "https://www.upwork.com/jobs/~022062803789757972368"
    );
    assert_eq!(
        normalize_upwork_url("https://www.upwork.com/jobs/~022062803789757972368"),
        "https://www.upwork.com/jobs/~022062803789757972368"
    );
}

#[test]
fn test_set_url_page_param() {
    let base = "https://www.upwork.com/nx/search/jobs/?q=rust&sort=recency&per_page=50&t=0";
    let url = set_url_page_param(base, 2).unwrap();
    assert!(url.contains("page=2"));
    assert!(url.contains("q=rust"));
    let url = set_url_page_param(base, 1).unwrap();
    assert!(!url.contains("page=1"));
    assert!(url.contains("q=rust"));
}

#[test]
fn page_param_replaced_and_removed() {
    let url = set_url_page_param("https://www.upwork.com/nx/search/jobs/?page=3&q=go", 5).unwrap();
    assert_eq!(url, "https://www.upwork.com/nx/search/jobs/?q=go&page=5");
    let url = set_url_page_param("https://www.upwork.com/nx/search/jobs/?page=3", 1).unwrap();
    assert_eq!(url, "https://www.upwork.com/nx/search/jobs/");
    let err = set_url_page_param("not a url", 2).unwrap_err();
    assert_eq!(err.url, "not a url");
}

#[test]
fn url_without_id_is_kept() {
    assert_eq!(normalize_upwork_url("https://www.upwork.com/jobs/"), "https://www.upwork.com/jobs/");
    assert_eq!(normalize_upwork_url("not a url"), "not a url");
    assert_eq!(extract_upwork_external_id_from_url("not a url"), None);
}

#[test]
fn id_prefixes_are_stripped_in_order() {
    assert_eq!(normalize_upwork_external_id("~02~02123"), "~02123");
    assert_eq!(normalize_upwork_external_id("0202123"), "~02123");
    assert_eq!(normalize_upwork_external_id("  ~  "), "");
}

#[test]
fn budget_text_parsed_or_trimmed() {
    assert_eq!(format_upwork_budget("Hourly: $30-$45"), "30 - 45 USD/hr");
    assert_eq!(format_upwork_budget("  Not sure  "), "Not sure");
}

#[test]
fn stale_or_fresh_cards_are_skipped() {
    let day = 86_400;
    let now = 100 * day;
    // Not stored yet: never skipped.
    assert!(!skip_card(Some(now - 30 * day), None, now, day, now));
    // Stored and fetched within the TTL.
    assert!(skip_card(None, Some(now - 10), now, day, now));
    // Stored long ago, but posted a week ago or more.
    assert!(skip_card(Some(now - 7 * day), Some(now - 5 * day), now, day, now));
    // Stored long ago and posted recently: fetched again.
    assert!(!skip_card(Some(now - 6 * day), Some(now - 5 * day), now, day, now));
}

fn raw_detail() -> RawJobDetail {
    RawJobDetail {
        proposals: "5 to 10".to_string(),
        last_viewed: "last viewed by client: 3d ago".to_string(),
        interviewing: "1".to_string(),
        invites_sent: "2".to_string(),
        unanswered_invites: "0".to_string(),
        description: "Build a Rust API".to_string(),
        exact_budget: "$50-$100/hr".to_string(),
        experience_level: "Expert".to_string(),
        hires: "1".to_string(),
        project_type: "Ongoing project".to_string(),
        duration: "1 to 3 months".to_string(),
        hours_per_week: "Less than 30 hrs/week".to_string(),
        tags: vec!["rust".to_string(), "api".to_string()],
        posted_at_text: "Posted 2 hours ago".to_string(),
    }
}

#[test]
fn detail_reads_relative_times_and_budget() {
    let now = 1_700_000_000;
    let d = upwork_detail_at(&raw_detail(), now);
    assert_eq!(d.last_viewed, Some(now - 3 * 86_400));
    assert_eq!(d.posted_at, Some(now - 2 * 3_600));
    assert_eq!(d.exact_budget, "50 - 100 USD/hr");
    assert_eq!(d.tags, vec!["rust".to_string(), "api".to_string()]);

    let mut raw = raw_detail();
    raw.posted_at_text = "sometime".to_string();
    raw.last_viewed = String::new();
    let d = upwork_detail_at(&raw, now);
    assert_eq!(d.posted_at, Some(now));
    assert_eq!(d.last_viewed, None);
}

#[test]
fn job_from_card() {
    let card = UpworkJobCard {
        external_id: "~02123".to_string(),
        title: "Rust Backend".to_string(),
        description: Some("desc".to_string()),
        url: "https://www.upwork.com/jobs/~02123".to_string(),
        budget: Some("$5000".to_string()),
        posted_at_text: None,
        tags: vec!["rust".to_string()],
    };
    let job = upwork_job_at(&card, UpworkJobDetail::default(), 77);
    assert_eq!(job.platform, Platform::Upwork);
    assert_eq!(job.created_at, 77);
    assert_eq!(job.updated_at, 77);
    assert!(job.remote);
    assert_eq!(job.liked, None);
    assert!(matches!(job.raw, Data::Upwork { .. }));
}

#[test]
fn upwork_detail_stamped_with_the_clock() {
    let d = UpworkJobDetail::from_raw(&raw_detail());
    let posted = d.posted_at.expect("a relative time");
    assert!(posted > 1_700_000_000);
    assert_eq!(d.exact_budget, "50 - 100 USD/hr");
}
