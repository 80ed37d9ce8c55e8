use jobsearch::nofluff::{
    nofluff_detail_at, Basics, Company, JobDetails, Language, Location, Place,
    RawNoFluffJobDetail, RawPostingEnvelope, ReqItem, Reqs, Seniority,
};
use jobsearch::models::{Data, NoFluffJobDetail, Platform};
use jobsearch::nofluff::{card_budget, nofluff_job_at, NofluffJobCard};

fn reqs() -> Reqs {
    Reqs {
        musts: vec![
            ReqItem { value: "rust".into(), type_field: "main".into() },
            ReqItem { value: "git".into(), type_field: "other".into() },
            ReqItem { value: "docker".into(), type_field: "main".into() },
        ],
        nices: vec![
            ReqItem { value: "k8s".into(), type_field: "main".into() },
            ReqItem { value: "aws".into(), type_field: "main".into() },
        ],
        description: "<p>5+ years Rust</p>".into(),
        languages: vec![
            Language { type_field: "MUST".into(), code: "en".into(), level: "C1".into() },
            Language { type_field: "NICE".into(), code: "pl".into(), level: "B2".into() },
        ],
    }
}

fn detail(seniority: Option<Seniority>, posted: Option<i64>) -> RawNoFluffJobDetail {
    RawNoFluffJobDetail {
        basics: Basics { seniority },
        requirements: reqs(),
        details: JobDetails { description: "<p>Build backend</p>".into() },
        company: Company { name: "Acme Corp".into() },
        posted,
        expires_at: Some("2026-12-31".into()),
        location: Location {
            places: vec![
                Place { city: "Warsaw".into() },
                Place { city: String::new() },
                Place { city: "Berlin".into() },
            ],
        },
    }
}

fn empty_envelope() -> RawPostingEnvelope {
    RawPostingEnvelope {
        job_offer: None,
        basics: Basics { seniority: None },
        requirements: Reqs { musts: vec![], nices: vec![], description: String::new(), languages: vec![] },
        details: JobDetails { description: String::new() },
        company: Company { name: String::new() },
        posted: None,
        expires_at: None,
        location: Location { places: vec![] },
    }
}

#[test]
fn expired_posting_uses_job_offer() {
    let mut e = empty_envelope();
    e.job_offer = Some(detail(Some(Seniority::List(vec![Some("Senior".into()), None, Some("Expert".into())])), Some(1_700_000_000_123)));
    let d = nofluff_detail_at(&e, 5);
    assert_eq!(d.company, "Acme Corp");
    assert_eq!(d.seniority, "Senior, Expert");
    assert_eq!(d.locations, vec!["Warsaw", "Berlin"]);
    assert_eq!(d.must_have, vec!["rust", "docker"]);
    assert_eq!(d.nice_to_have, "k8s, aws");
    assert_eq!(d.languages, vec!["en"]);
    assert_eq!(d.offer_valid_until, "2026-12-31");
    assert_eq!(d.posted_at, Some(1_700_000_000));
    assert_eq!(d.description, "Build backend");
    assert_eq!(d.requirements, "5+ years Rust");
    assert_eq!(d.employment_type, None);
}

#[test]
fn active_posting_reads_top_level_fields() {
    let raw = detail(Some(Seniority::Text("Mid".into())), None);
    let e = RawPostingEnvelope {
        job_offer: None,
        basics: raw.basics,
        requirements: raw.requirements,
        details: raw.details,
        company: raw.company,
        posted: raw.posted,
        expires_at: None,
        location: raw.location,
    };
    let d = nofluff_detail_at(&e, 42);
    assert_eq!(d.seniority, "Mid");
    assert_eq!(d.posted_at, Some(42));
    assert_eq!(d.offer_valid_until, "");
}

#[test]
fn other_seniority_and_blank_html() {
    let mut raw = detail(Some(Seniority::Other), Some(-1));
    raw.details.description = "   ".into();
    let mut e = empty_envelope();
    e.job_offer = Some(raw);
    let d = nofluff_detail_at(&e, 9);
    assert_eq!(d.seniority, "");
    assert_eq!(d.description, "");
    assert_eq!(d.posted_at, Some(-1));
}

#[test]
fn card_budgets() {
    assert_eq!(card_budget(&None), None);
    assert_eq!(card_budget(&Some(" Salary\u{a0}Match ".into())), None);
    assert_eq!(card_budget(&Some("7 069 – 9 426 EUR".into())).as_deref(), Some("7069 - 9426 EUR/mo"));
    assert_eq!(card_budget(&Some("ask us".into())), None);
}

#[test]
fn nofluff_job_from_card() {
    let card = NofluffJobCard {
        external_id: "nf-88".into(),
        title: "Senior Rust".into(),
        url: "https://nofluffjobs.com/job/nf-88".into(),
        budget: Some("15 000 – 20 000 PLN".into()),
        tags: vec!["rust".into()],
    };
    let detail = NoFluffJobDetail { posted_at: Some(1234), ..Default::default() };
    let job = nofluff_job_at(&card, detail, 99);
    assert_eq!(job.platform, Platform::NoFluffJobs);
    assert_eq!(job.budget.as_deref(), Some("15000 - 20000 PLN/mo"));
    assert_eq!(job.created_at, 1234);
    assert_eq!(job.updated_at, 99);
    assert!(job.remote);
    assert!(matches!(job.raw, Data::Nofluffjobs { .. }));
}

#[test]
fn nofluff_detail_stamped_with_the_clock() {
    let mut e = empty_envelope();
    e.job_offer = Some(detail(None, Some(1_700_000_000_123)));
    let d = NoFluffJobDetail::from_posting(&e);
    assert_eq!(d.posted_at, Some(1_700_000_000));
    assert_eq!(d.company, "Acme Corp");
}
