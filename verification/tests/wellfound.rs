use jobsearch::wellfound::{job_url, page_url, RawWellfoundJob, WellfoundUrlError};
use jobsearch::models::{Data, Platform};
use jobsearch::wellfound::{is_too_old, WellfoundScraper};

#[test]
fn test_page_url_appends_page() {
    let u = page_url("https://wellfound.com/role/r/software-engineer", 3).expect("valid url");
    assert_eq!(u, "https://wellfound.com/role/r/software-engineer?page=3");
}

#[test]
fn test_page_url_allows_subdomain() {
    let u = page_url("https://www.wellfound.com/role/r/software-engineer", 1)
        .expect("www subdomain valid");
    assert!(u.starts_with("https://www.wellfound.com/"));
}

#[test]
fn test_page_url_replaces_existing_page() {
    let u = page_url("https://wellfound.com/role/r/software-engineer?page=1", 2)
        .expect("valid url");
    assert_eq!(u, "https://wellfound.com/role/r/software-engineer?page=2");
}

#[test]
fn test_page_url_rejects_foreign_host() {
    assert!(page_url("https://example.com/role/r/software-engineer", 1).is_err());
    assert!(page_url("https://evilwellfound.com/role/r/x", 1).is_err());
}

#[test]
fn test_page_url_rejects_non_role_path() {
    assert!(page_url("https://wellfound.com/jobs", 1).is_err());
}

#[test]
fn page_url_errors_and_messages() {
    assert_eq!(page_url("nope", 1), Err(WellfoundUrlError::InvalidUrl));
    assert_eq!(
        page_url("https://example.com/role/x", 1),
        Err(WellfoundUrlError::ForeignHost)
    );
    assert_eq!(page_url("https://wellfound.com/jobs", 1), Err(WellfoundUrlError::NotRolePath));
    assert_eq!(
        WellfoundUrlError::ForeignHost.message(),
        "Wellfound URL must be on wellfound.com"
    );
}

#[test]
fn job_url_joins_id_and_slug() {
    let job = RawWellfoundJob {
        id: "3317746".to_string(),
        title: "Software Engineer".to_string(),
        slug: "software-engineer".to_string(),
        description: String::new(),
        compensation: None,
        job_type: "full-time".to_string(),
        live_start_at: 1785272337,
        location_names: vec![],
        remote: true,
        remote_kind: None,
        accepted_remote_location_names: vec![],
        years_experience_min: None,
        years_experience_max: None,
        primary_role_title: None,
        company_name: "Keeper".to_string(),
        company_slug: None,
        company_size: None,
        company_high_concept: None,
        company_logo_url: None,
    };
    assert_eq!(job_url(&job), "https://wellfound.com/jobs/3317746-software-engineer");
}

fn sample_hit() -> RawWellfoundJob {
    RawWellfoundJob {
        id: "3317746".into(),
        title: "Software Engineer".into(),
        slug: "software-engineer".into(),
        description: "Mission: Keeper is an AI-powered human-in-the-loop service.".into(),
        compensation: Some("$135k – $175k • 0.05% – 0.25%".into()),
        job_type: "full-time".into(),
        live_start_at: 1785272337,
        location_names: vec!["San Francisco".into()],
        remote: true,
        remote_kind: Some("ONSITE_OR_REMOTE".into()),
        accepted_remote_location_names: vec!["United States".into()],
        years_experience_min: Some(0),
        years_experience_max: None,
        primary_role_title: Some("Software Engineer".into()),
        company_name: "Keeper".into(),
        company_slug: Some("keeper-tax".into()),
        company_size: Some("SIZE_11_50".into()),
        company_high_concept: Some("File your complex taxes confidently".into()),
        company_logo_url: Some("https://photos.wellfound.com/startups/i/6809417-40854095dfa36880444ad789aa5d00c1-medium_jpg.jpg?buster=1666129847".into()),
    }
}

#[test]
fn test_hit_to_job_maps_fields() {
    let hit = sample_hit();
    let job = WellfoundScraper::hit_to_job(&hit);
    assert_eq!(job.external_id, "3317746");
    assert_eq!(job.platform, Platform::Wellfound);
    assert_eq!(job.url, "https://wellfound.com/jobs/3317746-software-engineer");
    assert_eq!(job.company.as_deref(), Some("Keeper"));
    assert!(job.remote);
    assert_eq!(job.created_at, 1_785_272_337);
    assert_eq!(job.budget.as_deref(), Some("135000 - 175000 USD/year"));
    let Data::Wellfound { detail } = &job.raw else {
        panic!("expected wellfound data");
    };
    assert_eq!(detail.company_name, "Keeper");
    assert_eq!(detail.job_type, "full-time");
    assert_eq!(detail.remote_kind.as_deref(), Some("ONSITE_OR_REMOTE"));
    assert_eq!(detail.years_experience_min, Some(0));
    assert_eq!(detail.years_experience_max, None);
    assert_eq!(detail.company_size.as_deref(), Some("SIZE_11_50"));
    assert!(detail.company_logo_url.is_some());
}

#[test]
fn test_hit_nullable_fields_deserialize() {
    let hit = RawWellfoundJob {
        id: "1".into(),
        title: "t".into(),
        slug: "s".into(),
        description: "d".into(),
        compensation: None,
        job_type: "contract".into(),
        live_start_at: 1700000000,
        location_names: vec![],
        remote: false,
        remote_kind: None,
        accepted_remote_location_names: vec![],
        years_experience_min: None,
        years_experience_max: None,
        primary_role_title: None,
        company_name: "c".into(),
        company_slug: None,
        company_size: None,
        company_high_concept: None,
        company_logo_url: None,
    };
    let job = WellfoundScraper::hit_to_job(&hit);
    assert_eq!(job.budget, None);
    assert!(!job.remote);
}

#[test]
fn listing_fields_at_a_given_time() {
    let mut hit = sample_hit();
    hit.company_name = String::new();
    hit.compensation = Some("equity only".into());
    hit.live_start_at = i64::MIN;
    let job = WellfoundScraper::hit_to_job_at(&hit, 1_800_000_000);
    assert_eq!(job.company, None);
    assert_eq!(job.budget.as_deref(), Some("equity only"));
    assert_eq!(job.created_at, 1_800_000_000);
    assert_eq!(job.updated_at, 1_800_000_000);
    assert_eq!(job.title, "Software Engineer");
    let Data::Wellfound { detail } = &job.raw else {
        panic!("expected wellfound data");
    };
    assert_eq!(detail.posted_at, 1_800_000_000);
    assert_eq!(detail.location_names, vec!["San Francisco".to_string()]);
    assert_eq!(detail.compensation.as_deref(), Some("equity only"));
}

#[test]
fn listings_older_than_a_month_are_skipped() {
    let now = 1_800_000_000;
    assert!(!is_too_old(now, now - 31 * 86_400));
    assert!(is_too_old(now, now - 31 * 86_400 - 1));
    assert!(!is_too_old(now, now + 100));
    assert!(is_too_old(i64::MAX, i64::MIN));
}

#[test]
fn unreadable_compensation_is_kept_as_budget() {
    let mut hit = sample_hit();
    hit.compensation = Some("Competitive".into());
    let job = WellfoundScraper::hit_to_job(&hit);
    assert_eq!(job.budget.as_deref(), Some("Competitive"));
    assert_eq!(job.external_id, hit.id);
    assert_eq!(job.url, format!("https://wellfound.com/jobs/{}-{}", hit.id, hit.slug));
    assert_eq!(job.created_at, hit.live_start_at);
    assert_eq!(job.remote, hit.remote);
    assert_eq!(job.company.as_deref(), Some("Keeper"));
}
