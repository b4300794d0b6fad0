//! Location key normalization: rounding, canonical form, malformed input.

use weather_cache::normalize;
use weather_cache::TemperatureUnit;

#[test]
fn idempotent_key_normalization() {
    let a = normalize("37.774900", "-122.419400");
    let b = normalize("37.7749", "-122.4194");
    assert!(a.is_some());
    assert_eq!(a, b);
    assert_eq!(a.unwrap(), "(37.77,-122.42)");
}

#[test]
fn canonical_two_decimals() {
    assert_eq!(normalize("40.71", "-74.00").unwrap(), "(40.71,-74.00)");
    assert_eq!(normalize("40", "-74").unwrap(), "(40.00,-74.00)");
    assert_eq!(normalize("40.", "-74.0").unwrap(), "(40.00,-74.00)");
    assert_eq!(normalize("0.1", "0.10000").unwrap(), "(0.10,0.10)");
}

#[test]
fn rounding_half_away_from_zero() {
    assert_eq!(normalize("1.005", "2.0049").unwrap(), "(1.01,2.00)");
    assert_eq!(normalize("-0.005", "-122.419").unwrap(), "(-0.01,-122.42)");
    assert_eq!(normalize("1.0050001", "1.0049999").unwrap(), "(1.01,1.00)");
}

#[test]
fn same_cell_same_key() {
    let a = normalize("40.711", "-74.001");
    let b = normalize("40.709", "-73.998");
    assert_eq!(a.unwrap(), "(40.71,-74.00)");
    assert_eq!(b.unwrap(), "(40.71,-74.00)");
}

#[test]
fn malformed_coordinates_yield_no_key() {
    assert!(normalize("", "0").is_none());
    assert!(normalize("0", "").is_none());
    assert!(normalize("-", "0").is_none());
    assert!(normalize(".5", "0").is_none());
    assert!(normalize("4a.5", "0").is_none());
    assert!(normalize("40.7.5", "0").is_none());
    assert!(normalize("40,7", "0").is_none());
    assert!(normalize("12345678901", "0").is_none());
    assert!(normalize("1e3", "0").is_none());
    assert!(normalize("+40.7", "0").is_none());
}

#[test]
fn ten_integer_digits_are_accepted() {
    assert_eq!(
        normalize("1234567890.99", "0").unwrap(),
        "(1234567890.99,0.00)"
    );
}

#[test]
fn unit_from_query() {
    assert_eq!(TemperatureUnit::from_query("C"), Some(TemperatureUnit::C));
    assert_eq!(TemperatureUnit::from_query("F"), Some(TemperatureUnit::F));
    assert_eq!(TemperatureUnit::from_query("K"), None);
    assert_eq!(TemperatureUnit::from_query(""), None);
    assert_eq!(TemperatureUnit::from_query("CF"), None);
}
