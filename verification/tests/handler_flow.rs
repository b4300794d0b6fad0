//! End-to-end request flows through the cache phase and the miss path.

use weather_cache::begin;
use weather_cache::begin_at_current_time;
use weather_cache::complete_miss;
use weather_cache::Address;
use weather_cache::AppError;
use weather_cache::CacheDecision;
use weather_cache::CurrentWeather;
use weather_cache::TemperatureUnit;
use weather_cache::WeatherQuery;
use weather_cache::WeatherStore;
use weather_cache::TTL_MILLIS;

fn query(lat: &str, lon: &str, unit: TemperatureUnit) -> WeatherQuery {
    WeatherQuery {
        lat: lat.to_string(),
        lon: lon.to_string(),
        unit,
    }
}

fn forecast_fifteen() -> CurrentWeather {
    CurrentWeather {
        time: 1_700_000_000,
        temperature_2m: 15_000,
        wind_speed_10m: 7_500,
        weather_code: 2,
        relative_humidity_2m: 55_000,
        apparent_temperature: 14_200,
        precipitation_probability: 20_000,
    }
}

#[test]
fn miss_then_fetch_then_hit() {
    let now: i64 = 1_700_000_000_000;
    let mut store = WeatherStore::new();
    let q = query("40.71", "-74.00", TemperatureUnit::C);

    // No cache entry: the cache phase asks for a fetch under the key.
    let key = match begin(&mut store, &q, now).unwrap() {
        CacheDecision::Miss(key) => key,
        CacheDecision::Hit(_) => panic!("empty cache cannot hit"),
    };
    assert_eq!(key, "(40.71,-74.00)");

    // Both upstream calls succeed: the record is assembled and published.
    let got = complete_miss(
        &mut store,
        key,
        Ok(forecast_fifteen()),
        Ok(Address {
            city: Some("New York".to_string()),
            county: None,
        }),
        TemperatureUnit::C,
        now,
    )
    .unwrap();
    assert_eq!(got.location, "New York");
    assert_eq!(got.temperature_2m, 15_000);
    assert_eq!(got.id, "(40.71,-74.00)");
    assert_eq!(got.created_at, now);

    // A second identical request within the TTL answers from the cache:
    // the decision is a hit, so no upstream call is needed.
    match begin(&mut store, &q, now + TTL_MILLIS - 1).unwrap() {
        CacheDecision::Hit(w) => {
            assert_eq!(w.location, "New York");
            assert_eq!(w.temperature_2m, 15_000);
        }
        CacheDecision::Miss(_) => panic!("fresh record must hit"),
    }
}

#[test]
fn fresh_record_suppresses_fetch_for_equivalent_coordinates() {
    let now: i64 = 1_700_000_000_000;
    let mut store = WeatherStore::new();
    let q1 = query("40.71", "-74.00", TemperatureUnit::C);
    let key = match begin(&mut store, &q1, now).unwrap() {
        CacheDecision::Miss(key) => key,
        CacheDecision::Hit(_) => panic!("empty cache cannot hit"),
    };
    complete_miss(
        &mut store,
        key,
        Ok(forecast_fifteen()),
        Ok(Address {
            city: Some("New York".to_string()),
            county: None,
        }),
        TemperatureUnit::C,
        now,
    )
    .unwrap();
    // The same cell written with other float text still hits.
    let q2 = query("40.710000", "-74.000000", TemperatureUnit::C);
    assert!(matches!(
        begin(&mut store, &q2, now + 1).unwrap(),
        CacheDecision::Hit(_)
    ));
}

#[test]
fn stale_record_misses_again() {
    let now: i64 = 1_700_000_000_000;
    let mut store = WeatherStore::new();
    let q = query("40.71", "-74.00", TemperatureUnit::C);
    let key = match begin(&mut store, &q, now).unwrap() {
        CacheDecision::Miss(key) => key,
        CacheDecision::Hit(_) => panic!("empty cache cannot hit"),
    };
    complete_miss(
        &mut store,
        key,
        Ok(forecast_fifteen()),
        Ok(Address {
            city: Some("New York".to_string()),
            county: None,
        }),
        TemperatureUnit::C,
        now,
    )
    .unwrap();
    // Past the TTL the entry no longer answers; prune has deleted it.
    match begin(&mut store, &q, now + TTL_MILLIS).unwrap() {
        CacheDecision::Miss(_) => {}
        CacheDecision::Hit(_) => panic!("stale record must not be served"),
    }
}

#[test]
fn geocode_fallback_to_county() {
    let now: i64 = 1_700_000_000_000;
    let mut store = WeatherStore::new();
    let got = complete_miss(
        &mut store,
        "(40.71,-74.00)".to_string(),
        Ok(forecast_fifteen()),
        Ok(Address {
            city: None,
            county: Some("Kings County".to_string()),
        }),
        TemperatureUnit::C,
        now,
    )
    .unwrap();
    assert_eq!(got.location, "Kings County");
}

#[test]
fn geocode_fallback_to_placeholder() {
    let now: i64 = 1_700_000_000_000;
    let mut store = WeatherStore::new();
    let got = complete_miss(
        &mut store,
        "(40.71,-74.00)".to_string(),
        Ok(forecast_fifteen()),
        Ok(Address {
            city: None,
            county: None,
        }),
        TemperatureUnit::C,
        now,
    )
    .unwrap();
    // The request still succeeds and is cached under the placeholder name.
    assert_eq!(got.location, "unknown location");
    assert_eq!(store.len(), 1);
}

#[test]
fn forecast_failure_caches_nothing() {
    let now: i64 = 1_700_000_000_000;
    let mut store = WeatherStore::new();
    let q = query("40.71", "-74.00", TemperatureUnit::C);
    let key = match begin(&mut store, &q, now).unwrap() {
        CacheDecision::Miss(key) => key,
        CacheDecision::Hit(_) => panic!("empty cache cannot hit"),
    };
    let r = complete_miss(
        &mut store,
        key,
        Err("timeout".to_string()),
        Ok(Address {
            city: Some("New York".to_string()),
            county: None,
        }),
        TemperatureUnit::C,
        now,
    );
    match r {
        Err(AppError::Upstream(m)) => assert_eq!(m, "timeout"),
        _ => panic!("forecast failure must surface as an upstream error"),
    }
    assert_eq!(store.len(), 0);
    // The next request for the key is still a miss.
    assert!(matches!(
        begin(&mut store, &q, now + 1).unwrap(),
        CacheDecision::Miss(_)
    ));
}

#[test]
fn geocode_failure_caches_nothing() {
    let now: i64 = 1_700_000_000_000;
    let mut store = WeatherStore::new();
    let r = complete_miss(
        &mut store,
        "(40.71,-74.00)".to_string(),
        Ok(forecast_fifteen()),
        Err("dns failure".to_string()),
        TemperatureUnit::C,
        now,
    );
    match r {
        Err(AppError::Upstream(m)) => assert_eq!(m, "dns failure"),
        _ => panic!("geocode failure must surface as an upstream error"),
    }
    assert_eq!(store.len(), 0);
}

#[test]
fn malformed_query_is_rejected_before_any_cache_work() {
    let now: i64 = 1_700_000_000_000;
    let mut store = WeatherStore::new();
    let q = query("abc", "-74.00", TemperatureUnit::C);
    match begin(&mut store, &q, now) {
        Err(AppError::Input(m)) => assert_eq!(m, "invalid coordinates"),
        _ => panic!("malformed latitude must be rejected as input error"),
    }
    assert_eq!(store.len(), 0);
}

#[test]
fn error_maps_to_internal_status() {
    let e = AppError::Upstream("boom".to_string());
    assert_eq!(e.status_code(), 500);
    let e = AppError::Input("bad".to_string());
    assert_eq!(e.status_code(), 500);
}

#[test]
fn wall_clock_flow() {
    let mut store = WeatherStore::new();
    let q = query("40.71", "-74.00", TemperatureUnit::C);
    let (now, decision) = begin_at_current_time(&mut store, &q);
    assert!(now >= 0);
    let key = match decision.unwrap() {
        CacheDecision::Miss(key) => key,
        CacheDecision::Hit(_) => panic!("empty cache cannot hit"),
    };
    complete_miss(
        &mut store,
        key,
        Ok(forecast_fifteen()),
        Ok(Address {
            city: Some("New York".to_string()),
            county: None,
        }),
        TemperatureUnit::C,
        now,
    )
    .unwrap();
    let (_, decision) = begin_at_current_time(&mut store, &q);
    assert!(matches!(decision.unwrap(), CacheDecision::Hit(_)));
}
