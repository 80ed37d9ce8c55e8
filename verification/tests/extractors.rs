use jobsearch::extractors::{
    parse_efinancialcareers_budget, parse_nofluff_budget, parse_upwork_budget,
};

#[test]
fn test_upwork_hourly_range() {
    let b = parse_upwork_budget("$50-$100/hr").unwrap();
    assert_eq!(b.to_string(), "50 - 100 USD/hr");
}

#[test]
fn test_upwork_fixed() {
    let b = parse_upwork_budget("$5,000").unwrap();
    assert_eq!(b.to_string(), "5000 USD");
}

#[test]
fn test_upwork_hourly_with_prefix() {
    let b = parse_upwork_budget("Hourly: $125 - $200/hr").unwrap();
    assert_eq!(b.to_string(), "125 - 200 USD/hr");
}

#[test]
fn test_upwork_unknown_returns_none() {
    assert!(parse_upwork_budget("Negotiable").is_none());
}

#[test]
fn test_nofluff_range() {
    let b = parse_nofluff_budget("7 069 – 9 426 EUR").unwrap();
    assert_eq!(b.to_string(), "7069 - 9426 EUR/mo");
}

#[test]
fn test_nofluff_nbsp() {
    let b = parse_nofluff_budget("7\u{00a0}069 – 9\u{00a0}426 EUR").unwrap();
    assert_eq!(b.to_string(), "7069 - 9426 EUR/mo");
}

#[test]
fn test_nofluff_pln() {
    let b = parse_nofluff_budget("15 000 – 20 000 PLN").unwrap();
    assert_eq!(b.to_string(), "15000 - 20000 PLN/mo");
}

#[test]
fn test_nofluff_salary_match_returns_none() {
    assert!(parse_nofluff_budget("Salary Match").is_none());
}

#[test]
fn test_efinancialcareers_usd_per_annum() {
    let b = parse_efinancialcareers_budget("USD120000 - USD140000 per annum").unwrap();
    assert_eq!(b.to_string(), "120000 - 140000 USD/year");
}

#[test]
fn test_efinancialcareers_gbp_single() {
    let b = parse_efinancialcareers_budget("GBP90000 per annum").unwrap();
    assert_eq!(b.to_string(), "90000 GBP/year");
}

#[test]
fn upwork_budget_k_suffix_and_equal_ends() {
    assert_eq!(parse_upwork_budget("$2k").unwrap().to_string(), "2000 USD");
    assert_eq!(parse_upwork_budget("$40-$40/hr").unwrap().to_string(), "40 USD/hr");
    assert_eq!(
        parse_upwork_budget("Fixed-price: $1,000 to $2,000").unwrap().to_string(),
        "1000 - 2000 USD"
    );
}

#[test]
fn nofluff_single_amount_is_monthly() {
    assert_eq!(parse_nofluff_budget("12 000 pln").unwrap().to_string(), "12000 PLN/mo");
}

#[test]
fn amount_over_u32_gives_none() {
    assert!(parse_upwork_budget("$5000000k").is_none());
}
