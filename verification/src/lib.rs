//! A geocoded weather cache: answers "current weather at (lat, lon)" either
//! from a recent cached observation or by assembling one from the results of a
//! forecast lookup and a reverse-geocode lookup, publishing it into a shared
//! cache with a time-to-live.
//!
//! Coordinates and observation fields are held as scaled integers: coordinates
//! in hundredths of a degree (the cache cell size), temperatures and other
//! readings in thousandths of their unit. The HTTP and JSON edges that produce
//! and consume these values live outside this crate.

pub mod coord;
pub mod handler;
pub mod records;
pub mod store;
pub mod units;

pub use coord::normalize;
pub use handler::begin;
pub use handler::begin_at_current_time;
pub use handler::complete_miss;
pub use handler::convert_units;
pub use handler::place_name;
pub use handler::Address;
pub use handler::AppError;
pub use handler::CacheDecision;
pub use handler::CurrentWeather;
pub use handler::NewWeather;
pub use handler::WeatherQuery;
pub use store::Weather;
pub use store::WeatherStore;
pub use store::TTL_MILLIS;
pub use units::to_fahrenheit;
pub use units::TemperatureUnit;
