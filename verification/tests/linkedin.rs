use jobsearch::linkedin::{LinkedInParams, DEFAULT_GEO_ID};
use jobsearch::linkedin::{
    check_linkedin_host, job_view_url, next_start, LinkedInScraper, LinkedInUrlError,
    DEFAULT_INDUSTRY_ID, DEFAULT_TIME_POSTED_RANGE, DEFAULT_WORKPLACE_TYPE,
    VOYAGER_BASE_URL, VOYAGER_DECORATION_ID,
};
use jobsearch::linkedin::{
    card_job_id, linkedin_detail, linkedin_detail_at, linkedin_job, linkedin_job_at, LinkedInJobCard,
    LinkedInJobDetailJs,
};
use jobsearch::models::{Data, LinkedInJobDetail, Platform};

#[test]
fn test_build_voyager_query() {
    let params = LinkedInParams::default();
    let query = params.build_voyager_query();
    assert!(query.contains(&format!("geoId:{DEFAULT_GEO_ID}")));
    assert!(query.contains("timePostedRange:List(r2592000)"));
    assert!(query.contains("workplaceType:List(2)"));
    assert!(query.contains("title:List(9,25201,30128)"));
}

#[test]
fn test_parse_url_defaults() {
    let params = LinkedInParams::parse_url("https://www.linkedin.com/jobs/search/").unwrap();
    assert_eq!(params.geo_id, DEFAULT_GEO_ID);
    assert_eq!(params.title_ids, vec!["9", "25201", "30128"]);
    assert_eq!(params.industry_ids, vec![DEFAULT_INDUSTRY_ID]);
    assert_eq!(params.workplace_types, vec![DEFAULT_WORKPLACE_TYPE]);
    assert_eq!(params.time_posted_range, DEFAULT_TIME_POSTED_RANGE);
}

#[test]
fn test_parse_url_custom_params() {
    let url = "https://www.linkedin.com/jobs/search/?f_TPR=r604800&f_WT=2&geoId=12345&f_T=9,25201&f_I=4";
    let params = LinkedInParams::parse_url(url).unwrap();
    assert_eq!(params.geo_id, "12345");
    assert_eq!(params.title_ids, vec!["9", "25201"]);
    assert_eq!(params.industry_ids, vec!["4"]);
    assert_eq!(params.workplace_types, vec!["2"]);
    assert_eq!(params.time_posted_range, "r604800");
}

#[test]
fn test_parse_url_rejects_unknown_param() {
    let url = "https://www.linkedin.com/jobs/search/?f_T=9&foo=bar";
    assert!(LinkedInParams::parse_url(url).is_err());
}

#[test]
fn parse_url_errors() {
    match LinkedInParams::parse_url("https://www.linkedin.com/jobs/search/?f_T=9&foo=bar") {
        Err(LinkedInUrlError::UnsupportedParam { key }) => assert_eq!(key, "foo"),
        other => panic!("unexpected {other:?}"),
    }
    assert!(matches!(
        LinkedInParams::parse_url("https://www.linkedin.com/jobs/search/?f_TPR=604800"),
        Err(LinkedInUrlError::BadTimeRange)
    ));
    assert!(matches!(LinkedInParams::parse_url("nope"), Err(LinkedInUrlError::InvalidUrl)));
}

#[test]
fn test_build_voyager_search_url() {
    let params = LinkedInParams::default();
    let url = params.build_voyager_search_url(0);
    assert!(url.starts_with(VOYAGER_BASE_URL));
    assert!(url.contains(&format!("decorationId={VOYAGER_DECORATION_ID}")));
    assert!(url.contains("count="));
}

#[test]
fn voyager_query_exact() {
    let params = LinkedInParams::default();
    assert_eq!(
        params.build_voyager_query(),
        "(origin:JOB_SEARCH_PAGE_JOB_FILTER,locationUnion:(geoId:92000000),selectedFilters:(sortBy:List(DD),industry:List(4),title:List(9,25201,30128),timePostedRange:List(r2592000),workplaceType:List(2)))"
    );
    assert!(params.build_voyager_search_url(200).ends_with("&start=200"));
    assert!(params.build_voyager_search_url(0).contains("&count=100&"));
}

#[test]
fn scraper_falls_back_to_defaults() {
    let s = LinkedInScraper::new("https://www.linkedin.com/jobs/search/?foo=1");
    assert_eq!(s.params.geo_id, DEFAULT_GEO_ID);
    let s = LinkedInScraper::new("https://www.linkedin.com/jobs/search/?geoId=7");
    assert_eq!(s.params.geo_id, "7");
}

#[test]
fn paging_and_urls() {
    assert_eq!(next_start(0, 100, 250), Some(100));
    assert_eq!(next_start(200, 50, 250), None);
    assert_eq!(next_start(0, 0, 250), None);
    assert_eq!(job_view_url(123), "https://www.linkedin.com/jobs/view/123/");
    assert!(check_linkedin_host("https://www.linkedin.com/jobs/search/"));
    assert!(!check_linkedin_host("https://example.com/jobs"));
    assert!(!check_linkedin_host("not a url"));
}

fn card(id: &str, listed_at: Option<i64>) -> LinkedInJobCard {
    LinkedInJobCard { id: id.into(), title: "Rust Engineer".into(), listed_at }
}

#[test]
fn card_ids_read_as_numbers() {
    assert_eq!(card_job_id(&card("4012345678", None)), Some(4012345678));
    assert_eq!(card_job_id(&card("+7", None)), Some(7));
    assert_eq!(card_job_id(&card("", None)), None);
    assert_eq!(card_job_id(&card("+", None)), None);
    assert_eq!(card_job_id(&card("-7", None)), None);
    assert_eq!(card_job_id(&card("12a", None)), None);
    assert_eq!(card_job_id(&card("18446744073709551615", None)), Some(u64::MAX));
    assert_eq!(card_job_id(&card("18446744073709551616", None)), None);
}

fn js(posted_at: i64) -> LinkedInJobDetailJs {
    LinkedInJobDetailJs {
        company: "Acme".into(),
        location: "Berlin".into(),
        employment_type: "Full-time".into(),
        job_function: "Engineering".into(),
        industries: "Software".into(),
        description: "Build things".into(),
        salary: "$100,000 - $150,000/yr".into(),
        posted_at,
    }
}

#[test]
fn detail_times_are_whole_seconds() {
    let d = linkedin_detail_at(js(1_700_000_000_999), 5);
    assert_eq!(d.posted_at, 1_700_000_000);
    assert_eq!(d.company, "Acme");
    assert_eq!(d.salary, "$100,000 - $150,000/yr");
    assert_eq!(linkedin_detail_at(js(-1), 5).posted_at, -1);
    assert_eq!(linkedin_detail_at(js(i64::MAX), 5).posted_at, 5);
    assert_eq!(linkedin_detail(js(2_000)).posted_at, 2);
}

#[test]
fn card_and_detail_become_job() {
    let d = linkedin_detail_at(js(0), 0);
    let job = linkedin_job_at(&card("4012345678", Some(1_700_000_000_500)), 4012345678, d, 1_800_000_000);
    assert_eq!(job.platform, Platform::LinkedIn);
    assert_eq!(job.external_id, "4012345678");
    assert_eq!(job.title, "Rust Engineer");
    assert_eq!(job.url, "https://www.linkedin.com/jobs/view/4012345678/");
    assert_eq!(job.budget.as_deref(), Some("100000 - 150000 USD/yr"));
    assert_eq!(job.company.as_deref(), Some("Acme"));
    assert_eq!(job.description.as_deref(), Some("Build things"));
    assert_eq!(job.created_at, 1_700_000_000);
    assert_eq!(job.updated_at, 1_800_000_000);
    assert!(job.remote);
    assert!(matches!(job.raw, Data::LinkedIn { .. }));

    let empty = LinkedInJobDetail::default();
    let job = linkedin_job_at(&card("5", None), 5, empty, 9);
    assert_eq!(job.company, None);
    assert_eq!(job.description, None);
    assert_eq!(job.budget, None);
    assert_eq!(job.created_at, 9);
}

#[test]
fn linkedin_job_stamped_with_the_clock() {
    let job = linkedin_job(&card("5", None), 5, LinkedInJobDetail::default());
    assert!(job.updated_at > 1_700_000_000);
    assert_eq!(job.created_at, job.updated_at);
}

#[test]
fn millisecond_times_at_the_ends_of_the_calendar() {
    assert_eq!(linkedin_detail_at(js(-8_334_601_228_800_000), 5).posted_at, -8_334_601_228_800);
    assert_eq!(linkedin_detail_at(js(-8_334_601_228_800_001), 5).posted_at, 5);
    assert_eq!(linkedin_detail_at(js(8_210_266_876_799_999), 5).posted_at, 8_210_266_876_799);
    assert_eq!(linkedin_detail_at(js(8_210_266_876_800_000), 5).posted_at, 5);
}
