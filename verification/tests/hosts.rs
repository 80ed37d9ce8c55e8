use jobsearch::urls::host_of;

#[test]
fn test_host_of_basic() {
    assert_eq!(host_of("https://upwork.com"), Some("upwork.com".to_string()));
    assert_eq!(host_of("https://www.upwork.com/jobs"), Some("upwork.com".to_string()));
    assert_eq!(host_of("https://NOFLUFFJOBS.COM/pl"), Some("nofluffjobs.com".to_string()));
}

#[test]
fn test_host_of_malformed() {
    assert_eq!(host_of("not-a-url"), None);
    assert_eq!(host_of(""), None);
    assert_eq!(host_of("ftp://"), None);
}

#[test]
fn test_host_of_with_port() {
    assert_eq!(host_of("http://localhost:9222"), Some("localhost".to_string()));
}
