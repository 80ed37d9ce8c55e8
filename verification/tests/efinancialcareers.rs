use jobsearch::efinancialcareers::{
    detail_url, efc_job, efc_job_at, facade_detail_at, is_remote, EfinancialcareersJobCard, FacadeBrand,
    FacadeJob, FacadeLocation,
};
use jobsearch::models::{Data, EfinancialcareersJobDetail, Platform};

fn facade() -> FacadeJob {
    FacadeJob {
        description: "<p>Trade things</p>".into(),
        salary: String::new(),
        position_type: "Permanent".into(),
        employment_type: String::new(),
        posted_date: "2024-05-01T12:00:00Z".into(),
        work_arrangement_type: "HYBRID".into(),
        brand: Some(FacadeBrand { name: "Bank".into() }),
        location: Some(FacadeLocation { city: "London".into(), state: String::new(), country: "UK".into() }),
    }
}

#[test]
fn facade_to_detail() {
    let d = facade_detail_at(&facade(), 7);
    assert_eq!(d.company, "Bank");
    assert_eq!(d.location, "London, UK");
    assert_eq!(d.employment_type, "Permanent");
    assert_eq!(d.description, "Trade things");
    assert_eq!(d.posted_at, Some(1_714_564_800));
    let mut f = facade();
    f.posted_date = "yesterday".into();
    f.brand = None;
    f.location = None;
    f.employment_type = "Contract".into();
    let d = facade_detail_at(&f, 7);
    assert_eq!(d.posted_at, Some(7));
    assert_eq!(d.company, "");
    assert_eq!(d.location, "");
    assert_eq!(d.employment_type, "Permanent / Contract");
    assert_eq!(detail_url("123"), "https://job-branding-facade.efinancialcareers.com/job/123");
}

fn detail(work: &str, location: &str, employment: &str, salary: &str) -> EfinancialcareersJobDetail {
    EfinancialcareersJobDetail {
        company: "Bank".into(),
        location: location.into(),
        employment_type: employment.into(),
        work_arrangement_type: work.into(),
        salary: salary.into(),
        description: String::new(),
        posted_at: Some(100),
    }
}

#[test]
fn remote_detection() {
    assert!(is_remote(&detail("REMOTE", "", "", "")));
    assert!(is_remote(&detail("temporarily_remote", "", "", "")));
    assert!(is_remote(&detail("", "Remote, UK", "", "")));
    assert!(is_remote(&detail("", "", "Permanent / Remote", "")));
    assert!(!is_remote(&detail("HYBRID", "London", "Permanent", "")));
}

#[test]
fn job_from_card_and_detail() {
    let card = EfinancialcareersJobCard {
        external_id: "e1".into(),
        title: "Quant".into(),
        url: "https://www.efinancialcareers.com/jobs-e1".into(),
        salary: "GBP90000 per annum".into(),
        posted_at_text: String::new(),
    };
    let job = efc_job_at(&card, &detail("REMOTE", "London", "", ""), 500);
    assert_eq!(job.platform, Platform::Efinancialcareers);
    assert_eq!(job.budget.as_deref(), Some("90000 GBP/year"));
    assert_eq!(job.created_at, 100);
    assert_eq!(job.updated_at, 500);
    assert!(job.remote);
    match &job.raw {
        Data::Efinancialcareers { detail } => assert_eq!(detail.salary, "GBP90000 per annum"),
        _ => panic!("expected eFinancialCareers data"),
    }
    let job = efc_job_at(&card, &detail("", "", "", "Competitive"), 500);
    assert_eq!(job.budget.as_deref(), Some("Competitive"));
    let mut bare = card.clone();
    bare.salary = String::new();
    let job = efc_job_at(&bare, &detail("", "", "", ""), 500);
    assert_eq!(job.budget, None);
}

#[test]
fn efc_job_stamped_with_the_clock() {
    let card = EfinancialcareersJobCard {
        external_id: "e2".into(),
        title: "Quant".into(),
        url: "https://www.efinancialcareers.com/jobs-e2".into(),
        salary: String::new(),
        posted_at_text: String::new(),
    };
    let job = efc_job(&card, &detail("REMOTE", "London", "", ""));
    assert!(job.updated_at > 1_700_000_000);
    assert_eq!(job.created_at, 100);
    assert_eq!(job.budget, None);
}
