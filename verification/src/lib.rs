//! Battery value estimation: resampling of measured series onto a common
//! time grid, a per-tick battery dispatch simulation that serves balancing
//! energy first and peak shaving second, and an economic summary.
//!
//! All physical quantities are fixed-point integers in milli-units
//! (milli-kW, milli-kWh, milli-currency); fractions such as the battery
//! efficiency are in per-mille. Timestamps are milliseconds since the Unix
//! epoch. Divisions round toward negative infinity.

use vstd::prelude::*;

pub mod arith;
pub mod model;
pub mod interpolation;
pub mod merging;
pub mod config;
pub mod tick_result;
pub mod engine;
pub mod summary;
pub mod utils;

verus! {

/// Largest magnitude a series value (power, energy, price) may carry,
/// in milli-units: one hundred million engineering units.
pub const SAMPLE_ABS_MAX: i64 = 100_000_000_000;

/// Largest magnitude of a timestamp in milliseconds, within the range
/// the calendar conversion accepts.
pub const TIMESTAMP_ABS_MAX: i64 = 8_000_000_000_000_000;

} // verus!
