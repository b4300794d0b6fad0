//! The weather request handler.
//!
//! A request runs in two phases around the cache. `begin` validates the
//! query, prunes the store, and either answers from a fresh cached record or
//! reports the canonical key to fetch for. On a miss the caller performs the
//! two upstream lookups — forecast and reverse geocode — without holding the
//! store, and hands both outcomes to `complete_miss`, which assembles the
//! record, publishes it, and produces the response. A record only becomes
//! visible once both upstream calls have succeeded; no partial result is
//! ever cached.

use crate::coord::{normalize, normalize_spec};
use crate::store::{is_fresh, pruned_map, Weather, WeatherStore};
use crate::units::{fahrenheit_of, temp_ok, to_fahrenheit, TemperatureUnit};
use vstd::prelude::*;

verus! {

/// A weather request: the coordinate texts of the query string and the unit
/// the caller wants the temperature in.
#[derive(Debug)]
pub struct WeatherQuery {
    pub lat: String,
    pub lon: String,
    pub unit: TemperatureUnit,
}

/// The current-condition fields returned by the forecast provider, in
/// Celsius and scaled by a thousand; `time` is a Unix timestamp.
#[derive(Debug)]
pub struct CurrentWeather {
    pub time: i64,
    pub temperature_2m: i64,
    pub wind_speed_10m: i64,
    pub weather_code: i32,
    pub relative_humidity_2m: i64,
    pub apparent_temperature: i64,
    pub precipitation_probability: i64,
}

/// A bare coordinate pair, as submitted when registering a location.
#[derive(Debug)]
pub struct NewWeather {
    pub lat: String,
    pub lon: String,
}

/// The optional place names returned by the reverse-geocoding provider.
#[derive(Debug)]
pub struct Address {
    pub city: Option<String>,
    pub county: Option<String>,
}

/// Why a request failed.
#[derive(Debug)]
pub enum AppError {
    /// A forecast or geocode call failed: transport error, timeout, non-2xx
    /// status, or malformed response. Never retried; nothing is cached.
    Upstream(String),
    /// The store's backing failed. The in-memory store cannot produce this;
    /// the variant exists for persistence-backed deployments.
    Infrastructure(String),
    /// Malformed lat, lon or unit; rejected before any cache work begins.
    Input(String),
}

impl AppError {
    /// The HTTP status this error maps to: every class surfaces as one
    /// generic server-side failure.
    pub fn status_code(&self) -> (c: u16)
        ensures
            c == 500,
    {
        500
    }
}

/// What consulting the cache decided: answer at once, or fetch upstream for
/// the canonical key.
#[derive(Debug)]
pub enum CacheDecision {
    Hit(Weather),
    Miss(String),
}

// ---------------------------------------------------------------------------
// Specs
// ---------------------------------------------------------------------------

/// The place-name fallback chain: city, else county, else the literal
/// placeholder. Geocoding ambiguity is expected and never fails a request.
pub open spec fn place_name_of(a: Address) -> Seq<char> {
    match a.city {
        Some(c) => c@,
        None => match a.county {
            Some(c) => c@,
            None => "unknown location"@,
        },
    }
}

/// A copy of a record with its temperature in the requested unit. The
/// stored record itself always keeps Celsius.
pub open spec fn converted(w: Weather, unit: TemperatureUnit) -> Weather {
    match unit {
        TemperatureUnit::C => w,
        TemperatureUnit::F => Weather {
            temperature_2m: fahrenheit_of(w.temperature_2m as int) as i64,
            ..w
        },
    }
}

/// What `begin` guarantees: on a malformed query the store is untouched and
/// the request is rejected; otherwise the store is pruned at `now`, a key
/// still present answers as a hit with the stored record converted to the
/// requested unit, and an absent key reports a miss carrying the canonical
/// key. A hit never needs an upstream call.
pub open spec fn begin_ensures(
    m0: Map<Seq<char>, Weather>,
    m1: Map<Seq<char>, Weather>,
    query: WeatherQuery,
    now: int,
    r: Result<CacheDecision, AppError>,
) -> bool {
    match normalize_spec(query.lat@, query.lon@) {
        None => m1 == m0 && (r matches Err(AppError::Input(msg)) && msg@
            == "invalid coordinates"@),
        Some(k) => {
            &&& m1 == pruned_map(m0, now)
            &&& (m1.dom().contains(k) ==> (r matches Ok(CacheDecision::Hit(w)) && w == converted(
                m1[k],
                query.unit,
            )))
            &&& (!m1.dom().contains(k) ==> (r matches Ok(CacheDecision::Miss(id)) && id@ == k))
        },
    }
}

/// A fresh cached record suppresses the upstream calls: whenever the cache
/// phase runs against a store holding a fresh record for the query's key,
/// it answers as a hit with that very record — it never asks for a fetch.
pub proof fn lemma_hit_needs_no_fetch(
    m0: Map<Seq<char>, Weather>,
    m1: Map<Seq<char>, Weather>,
    query: WeatherQuery,
    now: int,
    r: Result<CacheDecision, AppError>,
    k: Seq<char>,
)
    requires
        begin_ensures(m0, m1, query, now, r),
        normalize_spec(query.lat@, query.lon@) == Some(k),
        m0.dom().contains(k),
        is_fresh(m0[k].created_at as int, now),
    ensures
        r matches Ok(CacheDecision::Hit(w)) && w == converted(m0[k], query.unit),
{
    assert(m1.dom().contains(k));
    assert(m1[k] == m0[k]);
}

/// Unit conversion acts on a copy and touches only the reported
/// temperature: every other field survives unchanged, and asking for
/// Celsius — the canonical stored unit — is the identity.
pub proof fn lemma_converted_preserves_record(w: Weather, unit: TemperatureUnit)
    ensures
        converted(w, TemperatureUnit::C) == w,
        converted(w, unit).id == w.id,
        converted(w, unit).location == w.location,
        converted(w, unit).wind_speed_10m == w.wind_speed_10m,
        converted(w, unit).weather_code == w.weather_code,
        converted(w, unit).relative_humidity_2m == w.relative_humidity_2m,
        converted(w, unit).apparent_temperature == w.apparent_temperature,
        converted(w, unit).precipitation_probability == w.precipitation_probability,
        converted(w, unit).created_at == w.created_at,
        converted(w, unit).updated_at == w.updated_at,
{
}

// ---------------------------------------------------------------------------
// Executable pieces
// ---------------------------------------------------------------------------

/// Relies on chrono's `Utc::now`: the current wall-clock time, read from the
/// system clock, which `timestamp_millis` converts to Unix milliseconds.
/// `Utc::now` returns only times at or after the Unix epoch.
#[verifier::external_body]
fn now_unix_millis() -> (r: i64)
    ensures
        0 <= r,
{
    chrono::Utc::now().timestamp_millis()
}

/// Picks the place name for a geocode answer: city, else county, else the
/// literal "unknown location".
pub fn place_name(a: Address) -> (r: String)
    ensures
        r@ == place_name_of(a),
{
    match a.city {
        Some(c) => c,
        None => match a.county {
            Some(c) => c,
            None => "unknown location".to_owned(),
        },
    }
}

/// A copy of the record with its temperature converted to the requested
/// unit; the record passed in is left as stored, in Celsius.
pub fn convert_units(w: &Weather, unit: TemperatureUnit) -> (r: Weather)
    requires
        temp_ok(w.temperature_2m as int),
    ensures
        r == converted(*w, unit),
{
    match unit {
        TemperatureUnit::C => w.clone(),
        TemperatureUnit::F => {
            let t = to_fahrenheit(w.temperature_2m);
            let mut r = w.clone();
            r.temperature_2m = t;
            r
        },
    }
}

/// The cache phase of a request: validate, prune, look up.
///
/// On a malformed coordinate the request is rejected before any cache work.
/// Otherwise the store is pruned of stale records and consulted; a fresh
/// record answers the request at once — no upstream call is needed — and a
/// miss hands back the canonical key to fetch for.
pub fn begin(store: &mut WeatherStore, query: &WeatherQuery, now: i64) -> (r: Result<
    CacheDecision,
    AppError,
>)
    ensures
        begin_ensures(old(store)@, final(store)@, *query, now as int, r),
{
    let key = match normalize(query.lat.as_str(), query.lon.as_str()) {
        Some(k) => k,
        None => {
            return Err(AppError::Input("invalid coordinates".to_owned()));
        },
    };
    store.prune(now);
    match store.lookup(&key, now) {
        Some(w) => Ok(CacheDecision::Hit(convert_units(&w, query.unit))),
        None => Ok(CacheDecision::Miss(key)),
    }
}

/// The cache phase of a request, clocked by the system time.
///
/// Reads the wall clock once, runs `begin` at that instant, and returns the
/// instant alongside the decision so that a later `complete_miss` can stamp
/// the assembled record with the same clock.
pub fn begin_at_current_time(store: &mut WeatherStore, query: &WeatherQuery) -> (r: (
    i64,
    Result<CacheDecision, AppError>,
))
    ensures
        0 <= r.0,
        begin_ensures(old(store)@, final(store)@, *query, r.0 as int, r.1),
{
    let now = now_unix_millis();
    let d = begin(store, query, now);
    (now, d)
}

/// The miss path: given the outcomes of the two upstream calls, either
/// abort the request or assemble, publish and answer.
///
/// If either upstream call failed the request fails as an upstream error
/// carrying that call's message — the forecast's if both failed — and the
/// cache is left untouched: no partial record is ever cached. If both
/// succeeded, a record is assembled from the forecast fields, the
/// place-name fallback and the caller's clock, published under the key as
/// an upsert, and answered in the requested unit.
pub fn complete_miss(
    store: &mut WeatherStore,
    id: String,
    forecast: Result<CurrentWeather, String>,
    geocode: Result<Address, String>,
    unit: TemperatureUnit,
    now: i64,
) -> (r: Result<Weather, AppError>)
    requires
        forecast matches Ok(c) ==> temp_ok(c.temperature_2m as int),
    ensures
        forecast matches Err(e) ==> final(store)@ == old(store)@ && (r matches Err(
            AppError::Upstream(m),
        ) && m == e),
        forecast is Ok ==> (geocode matches Err(e) ==> final(store)@ == old(store)@ && (
        r matches Err(AppError::Upstream(m)) && m == e)),
        forecast matches Ok(cur) ==> (geocode matches Ok(addr) ==> ({
            let rec = final(store)@[id@];
            &&& final(store)@ == old(store)@.insert(id@, rec)
            &&& rec.id == id
            &&& rec.location@ == place_name_of(addr)
            &&& rec.temperature_2m == cur.temperature_2m
            &&& rec.wind_speed_10m == cur.wind_speed_10m
            &&& rec.weather_code == cur.weather_code
            &&& rec.relative_humidity_2m == cur.relative_humidity_2m
            &&& rec.apparent_temperature == cur.apparent_temperature
            &&& rec.precipitation_probability == cur.precipitation_probability
            &&& rec.created_at == now
            &&& rec.updated_at == now
            &&& (r matches Ok(w) && w == converted(rec, unit))
        })),
{
    let cur = match forecast {
        Ok(c) => c,
        Err(e) => {
            return Err(AppError::Upstream(e));
        },
    };
    let addr = match geocode {
        Ok(a) => a,
        Err(e) => {
            return Err(AppError::Upstream(e));
        },
    };
    let location = place_name(addr);
    let rec = Weather {
        id,
        location,
        temperature_2m: cur.temperature_2m,
        wind_speed_10m: cur.wind_speed_10m,
        weather_code: cur.weather_code,
        relative_humidity_2m: cur.relative_humidity_2m,
        apparent_temperature: cur.apparent_temperature,
        precipitation_probability: cur.precipitation_probability,
        created_at: now,
        updated_at: now,
    };
    let out = convert_units(&rec, unit);
    store.insert(rec);
    Ok(out)
}

} // verus!
