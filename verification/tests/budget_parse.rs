use jobsearch::budget::{code_prefix_from_caps, number_from_caps, Budget};

#[test]
fn test_budget_parse_nofluff() {
    let b = Budget::parse("7 069 – 9 426 EUR", Some("mo")).unwrap();
    assert_eq!(b.to_string(), "7069 - 9426 EUR/mo");
}

#[test]
fn test_budget_parse_nofluff_nbsp() {
    let b = Budget::parse("7\u{00a0}069 – 9\u{00a0}426 EUR", Some("mo")).unwrap();
    assert_eq!(b.to_string(), "7069 - 9426 EUR/mo");
}

#[test]
fn test_budget_parse_upwork_hourly() {
    let b = Budget::parse("$50-$100/hr", Some("hr")).unwrap();
    assert_eq!(b.to_string(), "50 - 100 USD/hr");
}

#[test]
fn test_budget_parse_upwork_fixed() {
    let b = Budget::parse("$5,000", None).unwrap();
    assert_eq!(b.to_string(), "5000 USD");
}

#[test]
fn test_budget_parse_pln() {
    let b = Budget::parse("15 000 – 20 000 PLN", Some("mo")).unwrap();
    assert_eq!(b.to_string(), "15000 - 20000 PLN/mo");
}

#[test]
fn test_budget_parse_euro_prefix() {
    let b = Budget::parse("€50-€100", Some("mo")).unwrap();
    assert_eq!(b.to_string(), "50 - 100 EUR/mo");
}

#[test]
fn test_budget_parse_to_range() {
    let b = Budget::parse("$130,530 to 221,920 USD", Some("hr")).unwrap();
    assert_eq!(b.to_string(), "130530 - 221920 USD/hr");
}

#[test]
fn test_budget_parse_nofluff_space_separated_numbers() {
    let b = Budget::parse("15 000 – 18 000 PLN", Some("mo")).unwrap();
    assert_eq!(b.to_string(), "15000 - 18000 PLN/mo");
}

#[test]
fn test_budget_parse_upwork_hourly_with_period() {
    let b = Budget::parse("$125 - $200/hr", Some("hr")).unwrap();
    assert_eq!(b.to_string(), "125 - 200 USD/hr");
}

#[test]
fn test_budget_parse_unknown_returns_none() {
    assert!(Budget::parse("Negotiable", None).is_none());
    assert!(Budget::parse("", None).is_none());
}

#[test]
fn test_budget_parse_k_suffix() {
    let b = Budget::parse("$100k", Some("year")).unwrap();
    assert_eq!(b.to_string(), "100000 USD/year");
}

#[test]
fn test_budget_parse_k_range() {
    let b = Budget::parse("$120k - $150k", Some("year")).unwrap();
    assert_eq!(b.to_string(), "120000 - 150000 USD/year");
}

#[test]
fn test_budget_parse_k_uppercase() {
    let b = Budget::parse("€80K", Some("year")).unwrap();
    assert_eq!(b.to_string(), "80000 EUR/year");
}

#[test]
fn test_budget_parse_efinancialcareers_usd_per_annum() {
    let b = Budget::parse("USD120000 - USD140000 per annum", Some("year")).unwrap();
    assert_eq!(b.to_string(), "120000 - 140000 USD/year");
}

#[test]
fn test_budget_parse_efinancialcareers_gbp_per_annum() {
    let b = Budget::parse("GBP90000 - GBP110000 per annum", Some("year")).unwrap();
    assert_eq!(b.to_string(), "90000 - 110000 GBP/year");
}

#[test]
fn explicit_period_wins_over_default() {
    assert_eq!(Budget::parse("$50/day", Some("hr")).unwrap().to_string(), "50 USD/day");
    assert_eq!(Budget::parse("$50", Some("hr")).unwrap().to_string(), "50 USD/hr");
    assert_eq!(Budget::parse("$50", None).unwrap().to_string(), "50 USD");
}

#[test]
fn equal_ends_make_one_amount() {
    assert_eq!(Budget::parse("$80-$80", None).unwrap().to_string(), "80 USD");
    assert_eq!(Budget::parse("EUR5000 - EUR5000", None).unwrap().to_string(), "5000 EUR");
}

#[test]
fn fractions_and_suffixes() {
    assert_eq!(Budget::parse("$1.5k", None).unwrap().to_string(), "1500 USD");
    assert_eq!(Budget::parse("€2M", Some("year")).unwrap().to_string(), "2000000 EUR/year");
}

fn groups(g: &[Option<&str>]) -> Vec<Option<String>> {
    g.iter().map(|x| x.map(|s| s.to_string())).collect()
}

#[test]
fn number_from_hand_built_captures() {
    assert_eq!(number_from_caps(&groups(&[Some("1,500"), Some("1,500"), None, None])), Some(1500));
    assert_eq!(number_from_caps(&groups(&[Some("2.5k"), Some("2"), Some("5"), Some("k")])), Some(2500));
    assert_eq!(number_from_caps(&groups(&[Some("3M"), Some("3"), None, Some("M")])), Some(3_000_000));
    assert_eq!(number_from_caps(&groups(&[Some("x"), None, None, None])), None);
}

#[test]
fn code_prefix_from_hand_built_captures() {
    let caps = groups(&[Some("usd 50-100"), Some("usd"), Some("50"), Some("100")]);
    let b = code_prefix_from_caps(&caps, None, &Some(vec!['h', 'r'])).unwrap();
    assert_eq!(b.to_string(), "50 - 100 USD/hr");
    let caps = groups(&[Some("EUR 70-70"), Some("EUR"), Some("70"), Some("70")]);
    let b = code_prefix_from_caps(&caps, Some(vec!['m', 'o']), &None).unwrap();
    assert_eq!(b.to_string(), "70 EUR/mo");
    let caps = groups(&[Some("EUR 70"), Some("EUR"), Some("70"), None]);
    assert!(code_prefix_from_caps(&caps, None, &None).is_none());
}
