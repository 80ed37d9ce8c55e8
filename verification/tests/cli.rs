use jobsearch::cli::{
    list_request, AllListArgs, CommonListArgs, CommonSortBy, ListTarget, PlatformListArgs,
    UpworkListArgs, UpworkSortBy,
};
use jobsearch::models::{Platform, Rating, Sort};
use jobsearch::cli::{update_urls, UpdatePlatform};
use jobsearch::config::Settings;

fn common() -> CommonListArgs {
    CommonListArgs { applied: Some(true), rating: Some(Rating::Liked), remote: None, search: Some("rust".into()) }
}

#[test]
fn list_targets() {
    let (f, s, q) = list_request(ListTarget::All(AllListArgs { common: common(), sort: CommonSortBy::Applied }));
    assert_eq!(f.platform, None);
    assert_eq!(f.applied, Some(true));
    assert_eq!(f.rating, Some(Rating::Liked));
    assert_eq!(s, Sort::Applied);
    assert_eq!(q.as_deref(), Some("rust"));

    let (f, s, _) = list_request(ListTarget::Upwork(UpworkListArgs { common: common(), sort: UpworkSortBy::UpworkViewed }));
    assert_eq!(f.platform, Some(Platform::Upwork));
    assert_eq!(s, Sort::UpworkViewed);

    let (f, s, _) = list_request(ListTarget::LinkedIn(PlatformListArgs { common: common(), sort: CommonSortBy::Created }));
    assert_eq!(f.platform, Some(Platform::LinkedIn));
    assert_eq!(s, Sort::Created);

    let (f, _, _) = list_request(ListTarget::Nofluff(PlatformListArgs { common: common(), sort: CommonSortBy::Created }));
    assert_eq!(f.platform, Some(Platform::NoFluffJobs));
}

#[test]
fn update_needs_urls() {
    let s = Settings::sample();
    assert_eq!(update_urls(&s.providers, UpdatePlatform::Upwork).unwrap().len(), 1);
    let e = update_urls(&s.providers, UpdatePlatform::Hackernews).unwrap_err();
    assert_eq!(e.message(), "no URLs configured for hackernews in jobsearch.toml");
    let mut s = Settings::sample();
    s.providers.nofluffjobs.urls.clear();
    assert_eq!(
        update_urls(&s.providers, UpdatePlatform::Nofluff).unwrap_err().provider,
        "nofluffjobs"
    );
}
