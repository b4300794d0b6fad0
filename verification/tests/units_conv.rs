//! Unit conversion: exact anchor points, and that conversion acts on a copy.

use weather_cache::convert_units;
use weather_cache::to_fahrenheit;
use weather_cache::TemperatureUnit;
use weather_cache::Weather;

#[test]
fn fahrenheit_anchor_points() {
    assert_eq!(to_fahrenheit(0), 32_000);
    assert_eq!(to_fahrenheit(100_000), 212_000);
    assert_eq!(to_fahrenheit(-40_000), -40_000);
    assert_eq!(to_fahrenheit(15_000), 59_000);
    assert_eq!(to_fahrenheit(37_000), 98_600);
}

#[test]
fn conversion_rounds_down_to_a_thousandth() {
    // 0.001 degC is exactly 32.0018 degF; the scaled result rounds down.
    assert_eq!(to_fahrenheit(1), 32_001);
    // -0.001 degC is exactly 31.9982 degF; rounding down gives 31.998.
    assert_eq!(to_fahrenheit(-1), 31_998);
}

#[test]
fn conversion_acts_on_a_copy() {
    let stored = Weather {
        id: "(0.00,0.00)".to_string(),
        location: "Null Island".to_string(),
        temperature_2m: 100_000,
        wind_speed_10m: 0,
        weather_code: 0,
        relative_humidity_2m: 0,
        apparent_temperature: 0,
        precipitation_probability: 0,
        created_at: 0,
        updated_at: 0,
    };
    let shown = convert_units(&stored, TemperatureUnit::F);
    assert_eq!(shown.temperature_2m, 212_000);
    // The stored record keeps its canonical Celsius value.
    assert_eq!(stored.temperature_2m, 100_000);
    // Celsius is the identity.
    let same = convert_units(&stored, TemperatureUnit::C);
    assert_eq!(same.temperature_2m, 100_000);
    assert_eq!(same.location, "Null Island");
}
