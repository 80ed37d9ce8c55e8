use jobsearch::reddit::{comments_url, permalink_url, search_url, sources};
use jobsearch::fields::RustFields;
use jobsearch::models::{Data, Platform};
use jobsearch::reddit::{
    comment_title, is_dropped, reddit_job, reddit_job_at, Candidate, RedditScraper, MAX_TITLE_LEN,
};

#[test]
fn reddit_urls() {
    let s = sources();
    assert_eq!(s.len(), 1);
    assert_eq!(s[0].subreddit, "rust");
    assert_eq!(
        search_url(&s[0]),
        "https://www.reddit.com/r/rust/search.json?q=Who%27s%20Hiring&restrict_sr=1&sort=top&t=all&limit=25"
    );
    assert_eq!(
        comments_url("1ttbtf5"),
        "https://www.reddit.com/comments/1ttbtf5.json?limit=500&depth=1&sort=new"
    );
    assert_eq!(permalink_url("/r/rust/comments/x/"), "https://www.reddit.com/r/rust/comments/x/");
}

#[test]
fn scraper_settings() {
    let s = RedditScraper::new("llm", "Berlin");
    assert_eq!(s.llm_bin, "llm");
    assert_eq!(s.prompt_context, "Candidate location: Berlin");
}

#[test]
fn comment_titles_and_dropped_comments() {
    assert_eq!(comment_title("\n   \n  **Acme** | Rust dev  \r\nmore text"), "**Acme** | Rust dev");
    assert_eq!(comment_title("  \n\t\n"), "");
    assert!(is_dropped("[deleted]", "someone"));
    assert!(is_dropped("[removed]", "someone"));
    assert!(is_dropped("We are hiring", "AutoModerator"));
    assert!(!is_dropped("We are hiring", "acme_hr"));
}

fn candidate() -> Candidate {
    Candidate {
        external_id: "t1_abc".into(),
        title: "**Acme** | Rust dev".into(),
        body: "**Acme** | Rust dev\nRemote in EU".into(),
        author: "acme_hr".into(),
        permalink: "/r/rust/comments/x/whos_hiring/abc/".into(),
        created_utc: 1_700_000_000,
    }
}

fn rust_fields(is_job_ad: bool) -> RustFields {
    RustFields {
        is_job_ad,
        company: Some("Acme".into()),
        role: None,
        location: Some("EU".into()),
        remote: Some(true),
        budget: None,
        tags: vec!["rust".into()],
    }
}

#[test]
fn candidate_becomes_job() {
    let s = sources()[0];
    let job = reddit_job_at(&s, &candidate(), &rust_fields(true), 1_800_000_000).expect("a job ad");
    assert_eq!(job.platform, Platform::Reddit);
    assert_eq!(job.external_id, "t1_abc");
    assert_eq!(job.title, "**Acme** | Rust dev");
    assert_eq!(job.url, "https://www.reddit.com/r/rust/comments/x/whos_hiring/abc/");
    assert_eq!(job.company.as_deref(), Some("Acme"));
    assert_eq!(job.tags, vec!["rust".to_string()]);
    assert_eq!(job.budget, None);
    assert!(job.remote);
    assert_eq!(job.created_at, 1_700_000_000);
    assert_eq!(job.updated_at, 1_800_000_000);
    let Data::Reddit { detail } = &job.raw else {
        panic!("expected Reddit data");
    };
    assert_eq!(detail.subreddit, "rust");
    assert_eq!(detail.author, "acme_hr");
    assert_eq!(detail.role, None);
    assert_eq!(detail.location.as_deref(), Some("EU"));
    assert_eq!(detail.description, "**Acme** | Rust dev\nRemote in EU");
    assert_eq!(detail.posted_at, 1_700_000_000);
}

#[test]
fn reddit_role_is_the_title() {
    let s = sources()[0];
    let mut f = rust_fields(true);
    f.role = Some("x".repeat(300));
    f.company = Some(String::new());
    let job = reddit_job_at(&s, &candidate(), &f, 0).expect("a job ad");
    assert_eq!(job.title.chars().count(), MAX_TITLE_LEN + 1);
    assert!(job.title.ends_with('…'));
    assert_eq!(job.company, None);
}

#[test]
fn reddit_non_ads_give_no_job() {
    let s = sources()[0];
    assert!(reddit_job_at(&s, &candidate(), &rust_fields(false), 0).is_none());
    assert!(reddit_job(&s, &candidate(), &rust_fields(false)).is_none());
}
