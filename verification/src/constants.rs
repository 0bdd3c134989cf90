//! The limits that the standard validation applies, and the length of a year.
//! Prices and volatilities are counts of billionths, as in [`crate::fixed::Fixed`].

use vstd::prelude::*;

verus! {

/// A year of 365 days, in seconds.
pub const SECONDS_IN_YEAR: i64 = 31_536_000;

/// The shortest life a contract may have: one day.
pub const MIN_OPTION_DURATION: i64 = 86_400;

/// The longest life a contract may have: one year.
pub const MAX_OPTION_DURATION: i64 = 31_536_000;

/// The highest volatility accepted: 1.0.
pub const MAX_VOLATILITY: i64 = 1_000_000_000;

/// The lowest volatility accepted: 0.01.
pub const MIN_VOLATILITY: i64 = 10_000_000;

/// The lowest strike price accepted: 0.000001.
pub const MIN_STRIKE_PRICE: i64 = 1_000;

} // verus!
