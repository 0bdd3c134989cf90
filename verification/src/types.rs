//! The value types that callers hand to the validator and the pricing engine.

use vstd::prelude::*;
use crate::fixed::Fixed;

verus! {

/// Where a contract stands in its life.
#[derive(Clone, Copy, Debug, PartialEq, Eq, Structural)]
pub enum OptionStatus {
    /// Still active.
    Open,
    /// Past its expiry.
    Expired,
    /// Exercised by its holder.
    Exercised,
}

/// The four positions a contract can represent.
#[derive(Clone, Copy, Debug, PartialEq, Eq, Structural)]
pub enum OptionType {
    /// Holding a call.
    LongCall,
    /// Having written a call.
    ShortCall,
    /// Holding a put.
    LongPut,
    /// Having written a put.
    ShortPut,
}

impl OptionType {
    /// Whether the option is a call (held or written).
    pub open spec fn is_call(self) -> bool {
        self == OptionType::LongCall || self == OptionType::ShortCall
    }

    /// Whether the position is the writer's side.
    pub open spec fn is_short(self) -> bool {
        self == OptionType::ShortCall || self == OptionType::ShortPut
    }

    /// The holder's side of the same option.
    pub open spec fn long_side(self) -> OptionType {
        if self.is_call() {
            OptionType::LongCall
        } else {
            OptionType::LongPut
        }
    }
}

/// The five sensitivities of a price, always produced together.
#[derive(Clone, Copy, Debug, PartialEq, Eq, Structural)]
pub struct OptionGreeks {
    /// Change of the price per unit of spot price.
    pub delta: Fixed,
    /// Change of the price per year of elapsed time.
    pub theta: Fixed,
    /// Change of delta per unit of spot price.
    pub gamma: Fixed,
    /// Change of the price per unit of volatility.
    pub vega: Fixed,
    /// Change of the price per unit of interest rate.
    pub rho: Fixed,
}

/// The terms of one contract.
#[derive(Clone, Copy, Debug, PartialEq, Eq, Structural)]
pub struct OptionParams {
    pub option_type: OptionType,
    /// The price at which the holder may buy or sell.
    pub strike_price: Fixed,
    /// The moment of expiry, in seconds.
    pub initial_time_to_expiry: i64,
    /// The price at creation; zero until the engine has priced the contract.
    pub creation_price: Fixed,
    /// The sensitivities at creation; zero until the engine has priced the contract.
    pub greeks: OptionGreeks,
}

/// What the market says about the underlying token.
#[derive(Clone, Copy, Debug, PartialEq, Eq, Structural)]
pub struct TokenParams {
    pub spot_price: Fixed,
    /// Annualised, as a fraction.
    pub historical_volatility: Fixed,
    /// Annualised, as a fraction.
    pub risk_free_rate: Fixed,
    /// When the figures were observed, in seconds.
    pub timestamp: i64,
}

/// The moment of valuation, with market-wide figures kept for reporting.
#[derive(Clone, Copy, Debug, PartialEq, Eq, Structural)]
pub struct MarketParams {
    pub usdc_risk_free_rate: Fixed,
    pub time_in_years: Fixed,
    /// The moment of valuation, in seconds.
    pub current_timestamp: i64,
}

} // verus!
