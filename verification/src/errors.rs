//! Why a set of contract terms is refused.

use vstd::prelude::*;

verus! {

/// The reason for which validation rejects its input. Exactly one is
/// reported: that of the first rule, in checking order, that the input breaks.
#[derive(Clone, Copy, Debug, PartialEq, Eq, Structural)]
pub enum OptionError {
    /// The expiry is not strictly after the moment of valuation.
    InvalidExpiryTimestamp,
    /// The strike price is below the minimum.
    InvalidStrikePrice,
    /// The volatility is outside its window.
    InvalidVolatility,
    /// The spot price is not positive.
    InvalidSpotPrice,
    /// The risk-free rate is negative.
    InvalidRiskFreeRate,
    /// The remaining life is outside its window.
    InvalidDuration,
}

/// What [`OptionError::message`] says of each reason.
pub open spec fn message_of(reason: OptionError) -> Seq<char> {
    match reason {
        OptionError::InvalidExpiryTimestamp => "Expiry timestamp must be in the future"@,
        OptionError::InvalidStrikePrice => "Strike price must be greater than minimum allowed"@,
        OptionError::InvalidVolatility =>
            "Volatility must be between MIN_VOLATILITY and MAX_VOLATILITY"@,
        OptionError::InvalidSpotPrice => "Spot price must be greater than zero"@,
        OptionError::InvalidRiskFreeRate => "Risk-free rate must be non-negative"@,
        OptionError::InvalidDuration => "Option duration must be between 1 day and 1 year"@,
    }
}

impl OptionError {
    /// The reason in words.
    pub fn message(&self) -> (text: String)
        ensures
            text@ == message_of(*self),
    {
        match self {
            OptionError::InvalidExpiryTimestamp => "Expiry timestamp must be in the future".to_owned(),
            OptionError::InvalidStrikePrice => {
                "Strike price must be greater than minimum allowed".to_owned()
            },
            OptionError::InvalidVolatility => {
                "Volatility must be between MIN_VOLATILITY and MAX_VOLATILITY".to_owned()
            },
            OptionError::InvalidSpotPrice => "Spot price must be greater than zero".to_owned(),
            OptionError::InvalidRiskFreeRate => "Risk-free rate must be non-negative".to_owned(),
            OptionError::InvalidDuration => {
                "Option duration must be between 1 day and 1 year".to_owned()
            },
        }
    }
}

} // verus!
