use jobsearch::region::Region;
use std::str::FromStr;
use jobsearch::region::UnknownRegion;

#[test]
fn from_str_roundtrip() {
    for r in Region::ALL {
        assert_eq!(Region::from_str(&r.to_string()).expect("display parses"), r);
    }
    assert_eq!(Region::from_str(" europe ").expect("trims"), Region::Europe);
    assert_eq!(
        Region::from_str("north-america").expect("kebab"),
        Region::NorthAmerica
    );
    assert_eq!(
        Region::from_str("north_america").expect("underscore"),
        Region::NorthAmerica
    );
    assert!(Region::from_str("atlantis").is_err());
}

#[test]
fn unknown_region_message() {
    let e = Region::parse("atlantis").unwrap_err();
    assert_eq!(e.input, "atlantis");
    let msg = UnknownRegion { input: "x".into() }.message();
    assert_eq!(
        msg,
        "unknown region \"x\"; valid: Europe, North America, South America, Asia, Africa, Oceania, Middle East"
    );
    assert_eq!(Region::MiddleEast.to_string(), "Middle East");
    assert_eq!(Region::parse("MIDDLE east").unwrap(), Region::MiddleEast);
}
