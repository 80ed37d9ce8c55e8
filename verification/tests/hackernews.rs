use jobsearch::fields::ExtractFields;
use jobsearch::hackernews::{
    absorb_page, author_threads_url, encode_component, check_algolia_url, hn_job, hn_job_at, is_flagged, item_url,
    similar_post_key, similar_since, title_from_html, truncate_with_ellipsis, AlgoliaUrlError,
    CommentHit, HackerNewsScraper, HITS_PER_PAGE, MAX_TITLE_LEN,
};
use jobsearch::html::html_to_md_or_default;
use jobsearch::models::{Data, Platform};

#[test]
fn test_title_decodes_entities() {
    let html = "SafetyWing (YC W18) | Partnerships Manager | 100% Remote | Hiring Globally&#x27;s team";
    assert_eq!(
        title_from_html(html),
        "SafetyWing (YC W18) | Partnerships Manager | 100% Remote | Hiring Globally's team"
    );
}

#[test]
fn test_title_strips_tags() {
    let html = "<p>Acme Inc | Rust Engineer | Remote</p><p>Full description here.</p>";
    assert_eq!(title_from_html(html), "Acme Inc | Rust Engineer | Remote");
}

#[test]
fn title_of_blank_html_is_empty() {
    assert_eq!(title_from_html("   "), "");
}

#[test]
fn algolia_url_accepted() {
    assert_eq!(check_algolia_url("https://hn.algolia.com/api/v1/search_by_date"), Ok(()));
}

#[test]
fn algolia_url_wrong_host() {
    assert_eq!(
        check_algolia_url("https://example.com/api/v1/search_by_date"),
        Err(AlgoliaUrlError::WrongHost)
    );
}

#[test]
fn algolia_url_wrong_path() {
    assert_eq!(
        check_algolia_url("https://hn.algolia.com/api/v1/other"),
        Err(AlgoliaUrlError::WrongPath)
    );
}

#[test]
fn algolia_url_invalid() {
    assert_eq!(check_algolia_url("not-a-url"), Err(AlgoliaUrlError::InvalidUrl));
}

#[test]
fn test_title_truncation() {
    let long = "x".repeat(300);
    let truncated = truncate_with_ellipsis(&long, MAX_TITLE_LEN);
    assert_eq!(truncated.chars().count(), MAX_TITLE_LEN + 1);
    assert!(truncated.ends_with('…'));

    let short = "short title";
    assert_eq!(truncate_with_ellipsis(short, MAX_TITLE_LEN), short);
}

#[test]
fn flagged_and_dead_comments() {
    let hit = |text: &str| CommentHit {
        object_id: "1".to_string(),
        created_at_i: 0,
        author: "a".to_string(),
        comment_text: text.to_string(),
        parent_id: 0,
        story_id: 0,
    };
    assert!(is_flagged(&hit("[flagged] spam")));
    assert!(is_flagged(&hit("gone [dead]")));
    assert!(!is_flagged(&hit("Acme | Rust | Remote")));
}

#[test]
fn item_and_author_urls() {
    assert_eq!(item_url("42"), "https://news.ycombinator.com/item?id=42");
    assert_eq!(
        author_threads_url("whoishiring"),
        "https://news.ycombinator.com/threads?id=whoishiring"
    );
    assert_eq!(
        author_threads_url("a b"),
        "https://news.ycombinator.com/threads?id=a%20b"
    );
}

#[test]
fn test_new_accepts_valid_algolia_url() {
    let scraper =
        HackerNewsScraper::new(None, "Europe", "https://hn.algolia.com/api/v1/search_by_date");
    assert!(scraper.is_ok());
}

#[test]
fn test_new_rejects_wrong_host() {
    let scraper =
        HackerNewsScraper::new(None, "Europe", "https://example.com/api/v1/search_by_date");
    assert!(scraper.is_err());
}

#[test]
fn test_new_rejects_wrong_path() {
    let scraper = HackerNewsScraper::new(None, "Europe", "https://hn.algolia.com/api/v1/other");
    assert!(scraper.is_err());
}

#[test]
fn test_new_rejects_invalid_url() {
    let scraper = HackerNewsScraper::new(None, "Europe", "not-a-url");
    assert!(scraper.is_err());
}

#[test]
fn scraper_keeps_its_settings() {
    let s = HackerNewsScraper::new(
        Some("llm -m local".to_string()),
        "Europe",
        "https://hn.algolia.com/api/v1/search_by_date",
    )
    .expect("valid url");
    assert_eq!(s.prompt_context, "Candidate location: Europe");
    assert_eq!(s.algolia_url, "https://hn.algolia.com/api/v1/search_by_date");
    assert_eq!(s.llm_cli.as_deref(), Some("llm -m local"));
}

fn hit(id: &str, parent: i64) -> CommentHit {
    CommentHit {
        object_id: id.into(),
        created_at_i: 1_700_000_000,
        author: "jane doe".into(),
        comment_text: "<p>Acme | Rust Engineer | Remote</p><p>We build things.</p>".into(),
        parent_id: parent,
        story_id: 42,
    }
}

fn fields(is_job_ad: bool) -> ExtractFields {
    ExtractFields {
        is_job_ad,
        company: Some("Acme".into()),
        role: Some(String::new()),
        location: Some(String::new()),
        remote: None,
        budget: Some("EUR 90k".into()),
        tags: vec!["rust".into(), "tokio".into()],
    }
}

#[test]
fn comment_becomes_job() {
    let h = hit("123", 42);
    let job = hn_job_at(&h, &fields(true), 1_800_000_000).expect("a job ad");
    assert_eq!(job.id, 0);
    assert_eq!(job.platform, Platform::Hackernews);
    assert_eq!(job.external_id, "123");
    assert_eq!(job.title, "Acme | Rust Engineer | Remote");
    assert_eq!(job.url, "https://news.ycombinator.com/item?id=123");
    assert_eq!(job.budget.as_deref(), Some("EUR 90k"));
    assert_eq!(job.tags, vec!["rust".to_string(), "tokio".to_string()]);
    assert_eq!(job.company, None);
    assert_eq!(job.created_at, 1_700_000_000);
    assert_eq!(job.updated_at, 1_800_000_000);
    assert!(!job.remote);
    assert_eq!(job.liked, None);
    let Data::Hackernews { detail } = &job.raw else {
        panic!("expected Hacker News data");
    };
    assert_eq!(detail.author, "jane doe");
    assert_eq!(detail.author_threads_url, "https://news.ycombinator.com/threads?id=jane%20doe");
    assert_eq!(detail.company.as_deref(), Some("Acme"));
    assert_eq!(detail.role, None);
    assert_eq!(detail.location, None);
    assert_eq!(detail.description, html_to_md_or_default(&h.comment_text));
}

#[test]
fn role_names_the_job_and_remote_is_kept() {
    let mut f = fields(true);
    f.role = Some("Senior Rust Engineer".into());
    f.remote = Some(true);
    let job = hn_job_at(&hit("7", 42), &f, 1_800_000_000).expect("a job ad");
    assert_eq!(job.title, "Senior Rust Engineer");
    assert!(job.remote);
    let long = "r".repeat(250);
    f.role = Some(long);
    let job = hn_job_at(&hit("7", 42), &f, 1_800_000_000).expect("a job ad");
    assert_eq!(job.title.chars().count(), MAX_TITLE_LEN + 1);
}

#[test]
fn out_of_range_time_falls_back_to_now() {
    let mut h = hit("9", 42);
    h.created_at_i = i64::MAX;
    let job = hn_job_at(&h, &fields(true), 1_800_000_000).expect("a job ad");
    assert_eq!(job.created_at, 1_800_000_000);
}

#[test]
fn non_ads_give_no_job() {
    assert!(hn_job_at(&hit("1", 42), &fields(false), 0).is_none());
    assert!(hn_job(&hit("1", 42), &fields(false)).is_none());
    let job = hn_job(&hit("1", 42), &fields(true)).expect("a job ad");
    assert!(job.updated_at > 1_700_000_000);
}

#[test]
fn pages_of_comments_are_gathered() {
    let mut top = Vec::new();
    let more = absorb_page(&mut top, vec![hit("a", 42), hit("b", 7), hit("c", 42)], 42, 10);
    assert!(!more, "a short page is the last one");
    let ids: Vec<_> = top.iter().map(|h| h.object_id.as_str()).collect();
    assert_eq!(ids, vec!["a", "c"]);

    let mut top = Vec::new();
    assert!(!absorb_page(&mut top, vec![hit("a", 42), hit("c", 42)], 42, 1));
    assert_eq!(top.len(), 1);
    assert_eq!(top[0].object_id, "a");

    let mut top = vec![hit("x", 42)];
    assert!(!absorb_page(&mut top, Vec::new(), 42, 10));
    assert_eq!(top.len(), 1);

    let full: Vec<CommentHit> = (0..HITS_PER_PAGE).map(|i| hit(&i.to_string(), 42)).collect();
    let mut top = Vec::new();
    assert!(absorb_page(&mut top, full, 42, 5000), "a full page asks for the next");
    assert_eq!(top.len(), HITS_PER_PAGE);
}

#[test]
fn repeats_are_looked_up_by_company_and_role() {
    let mut f = fields(true);
    let job = hn_job_at(&hit("1", 42), &f, 0).expect("a job ad");
    assert_eq!(similar_post_key(&job), None, "no role named");
    f.role = Some("Rust Engineer".into());
    let job = hn_job_at(&hit("1", 42), &f, 0).expect("a job ad");
    assert_eq!(
        similar_post_key(&job),
        Some(("Acme".to_string(), "Rust Engineer".to_string()))
    );
    assert_eq!(similar_since(1_800_000_000), 1_800_000_000 - 60 * 86_400);
}

#[test]
fn times_at_the_ends_of_the_calendar() {
    let now = 1_800_000_000;
    let created = |secs: i64| {
        let mut h = hit("9", 42);
        h.created_at_i = secs;
        hn_job_at(&h, &fields(true), now).expect("a job ad").created_at
    };
    assert_eq!(created(-8_334_601_228_800), -8_334_601_228_800);
    assert_eq!(created(-8_334_601_228_801), now);
    assert_eq!(created(8_210_266_876_799), 8_210_266_876_799);
    assert_eq!(created(8_210_266_876_800), now);
}

#[test]
fn encode_component_keeps_unreserved_and_encodes_utf8_bytes() {
    assert_eq!(encode_component("\u{e9}~ a-_.Z9"), "%C3%A9~%20a-_.Z9");
    assert_eq!(encode_component("a/b?c=d&e"), "a%2Fb%3Fc%3Dd%26e");
    assert_eq!(author_threads_url("a b"), "https://news.ycombinator.com/threads?id=a%20b");
}
