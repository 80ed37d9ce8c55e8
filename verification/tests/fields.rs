use jobsearch::fields::{ExtractFields, HealthcheckError, RustFields};

fn fields(is_job_ad: bool, company: Option<&str>, role: Option<&str>, remote: Option<bool>) -> ExtractFields {
    ExtractFields {
        is_job_ad,
        company: company.map(String::from),
        role: role.map(String::from),
        location: None,
        remote,
        budget: None,
        tags: vec![],
    }
}

#[test]
fn healthcheck_passes() {
    assert!(fields(true, Some("ACME Corp"), Some("Senior Rust Engineer"), Some(true)).verify().is_ok());
}

#[test]
fn healthcheck_failures_in_order() {
    let e = fields(false, None, None, None).verify().unwrap_err();
    assert_eq!(e.message(), "healthcheck text must be classified as a job ad");
    let e = fields(true, Some("Initech"), Some("Rust"), Some(true)).verify().unwrap_err();
    assert_eq!(e.message(), "healthcheck company extraction failed: \"Initech\"");
    let e = fields(true, Some("Acme"), None, Some(true)).verify().unwrap_err();
    assert_eq!(e.message(), "healthcheck role extraction failed: \"\"");
    let e = fields(true, Some("Acme"), Some("rust dev"), None).verify().unwrap_err();
    assert!(matches!(e, HealthcheckError::Remote { remote: None }));
    assert_eq!(e.message(), "healthcheck remote extraction failed: None");
}

#[test]
fn rust_fields_check_the_same() {
    let f = RustFields {
        is_job_ad: true,
        company: Some("acme".into()),
        role: Some("RUST".into()),
        location: None,
        remote: Some(false),
        budget: None,
        tags: vec![],
    };
    assert_eq!(f.verify().unwrap_err().message(), "healthcheck remote extraction failed: Some(false)");
}
