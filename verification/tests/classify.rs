use jobsearch::classify::{liked_line, split_ratings, with_default_neutral};
use jobsearch::models::{Data, HackerNewsJobDetail, Job, JobFilter, Platform, Rating};

#[test]
fn default_neutral_overrides_unless_force() {
    let filter = JobFilter {
        platform: Some(Platform::Upwork),
        rating: Some(Rating::Liked),
        ..JobFilter::default()
    };
    assert_eq!(
        with_default_neutral(filter.clone(), false).rating,
        Some(Rating::Neutral)
    );
    assert_eq!(
        with_default_neutral(filter, true).rating,
        Some(Rating::Liked)
    );
}

#[test]
fn default_neutral_from_none() {
    assert_eq!(
        with_default_neutral(JobFilter::default(), false).rating,
        Some(Rating::Neutral)
    );
}

fn job(id: i64, title: &str, platform: Platform) -> Job {
    Job {
        id,
        platform,
        external_id: format!("e{id}"),
        title: title.into(),
        description: None,
        url: "https://e.com".into(),
        budget: None,
        tags: vec![],
        raw: Data::Hackernews { detail: HackerNewsJobDetail::default() },
        company: None,
        created_at: 0,
        updated_at: 0,
        note: None,
        liked: None,
        remote: false,
        applied_at: None,
    }
}

#[test]
fn ratings_are_split_in_order() {
    let jobs = vec![
        job(3, "a", Platform::Hackernews),
        job(1, "b", Platform::Hackernews),
        job(7, "c", Platform::Upwork),
        job(2, "d", Platform::Reddit),
    ];
    let ratings = vec![Rating::Liked, Rating::Disliked, Rating::Liked, Rating::Disliked];
    let (liked, disliked) = split_ratings(&jobs, &ratings);
    assert_eq!(liked, vec![3, 7]);
    assert_eq!(disliked, vec![1, 2]);
    assert_eq!(split_ratings(&vec![], &vec![]), (vec![], vec![]));
}

#[test]
fn liked_jobs_are_listed() {
    assert_eq!(
        liked_line(&job(12, "Senior Rust Engineer", Platform::Wellfound)),
        "  [12] Senior Rust Engineer | wellfound"
    );
    assert_eq!(liked_line(&job(-4, "x", Platform::LinkedIn)), "  [-4] x | linkedin");
}
