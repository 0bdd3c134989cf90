//! The validation that contract terms must pass before they are priced.
//!
//! Six rules are checked in a fixed order, and the first one that the input
//! breaks decides the outcome:
//!
//! 1. the expiry lies strictly after the moment of valuation;
//! 2. the strike price is at least the minimum;
//! 3. the remaining life lies in its window;
//! 4. the volatility lies in its window;
//! 5. the spot price is positive;
//! 6. the risk-free rate is not negative.

use vstd::prelude::*;
use crate::black_scholes_model::priceable;
use crate::constants::{
    MAX_OPTION_DURATION, MAX_VOLATILITY, MIN_OPTION_DURATION, MIN_STRIKE_PRICE, MIN_VOLATILITY,
};
use crate::errors::OptionError;
use crate::fixed::Fixed;
use crate::types::{MarketParams, OptionParams, TokenParams};

verus! {

/// The limits that the rules with a limit apply.
#[derive(Clone, Copy, Debug, PartialEq, Eq, Structural)]
pub struct ValidationBounds {
    pub min_strike_price: Fixed,
    /// The shortest remaining life, in seconds.
    pub min_duration: i64,
    /// The longest remaining life, in seconds.
    pub max_duration: i64,
    pub min_volatility: Fixed,
    pub max_volatility: Fixed,
}

/// The standard limits: a strike of at least 0.000001, a life of one day to
/// one year, a volatility of 0.01 to 1.0.
pub open spec fn standard_bounds() -> ValidationBounds {
    ValidationBounds {
        min_strike_price: Fixed { raw: MIN_STRIKE_PRICE },
        min_duration: MIN_OPTION_DURATION,
        max_duration: MAX_OPTION_DURATION,
        min_volatility: Fixed { raw: MIN_VOLATILITY },
        max_volatility: Fixed { raw: MAX_VOLATILITY },
    }
}

impl ValidationBounds {
    /// The standard limits.
    pub fn standard() -> (bounds: ValidationBounds)
        ensures
            bounds == standard_bounds(),
    {
        ValidationBounds {
            min_strike_price: Fixed { raw: MIN_STRIKE_PRICE },
            min_duration: MIN_OPTION_DURATION,
            max_duration: MAX_OPTION_DURATION,
            min_volatility: Fixed { raw: MIN_VOLATILITY },
            max_volatility: Fixed { raw: MAX_VOLATILITY },
        }
    }

    /// Limits under which whatever is accepted can be priced: a positive
    /// minimum strike and volatility, and maxima no wider than the engine's.
    pub open spec fn within_engine_limits(self) -> bool {
        &&& self.min_strike_price@ > 0
        &&& self.min_volatility@ > 0
        &&& self.max_volatility@ <= MAX_VOLATILITY
        &&& self.max_duration <= MAX_OPTION_DURATION
    }
}

/// Whether the input keeps the rule whose breach is reported as `rule`.
pub open spec fn keeps(
    rule: OptionError,
    bounds: ValidationBounds,
    option: OptionParams,
    token: TokenParams,
    market: MarketParams,
) -> bool {
    match rule {
        OptionError::InvalidExpiryTimestamp => option.initial_time_to_expiry
            > market.current_timestamp,
        OptionError::InvalidStrikePrice => option.strike_price@ >= bounds.min_strike_price@,
        OptionError::InvalidDuration => bounds.min_duration <= option.initial_time_to_expiry
            - market.current_timestamp <= bounds.max_duration,
        OptionError::InvalidVolatility => bounds.min_volatility@ <= token.historical_volatility@
            <= bounds.max_volatility@,
        OptionError::InvalidSpotPrice => token.spot_price@ > 0,
        OptionError::InvalidRiskFreeRate => token.risk_free_rate@ >= 0,
    }
}

/// The place of a rule in the checking order, from 1 to 6.
pub open spec fn checking_order(rule: OptionError) -> int {
    match rule {
        OptionError::InvalidExpiryTimestamp => 1,
        OptionError::InvalidStrikePrice => 2,
        OptionError::InvalidDuration => 3,
        OptionError::InvalidVolatility => 4,
        OptionError::InvalidSpotPrice => 5,
        OptionError::InvalidRiskFreeRate => 6,
    }
}

/// What validation answers: the breach of the first rule, in checking
/// order, that the input does not keep, or acceptance where it keeps all six.
pub open spec fn validation_outcome(
    bounds: ValidationBounds,
    option: OptionParams,
    token: TokenParams,
    market: MarketParams,
) -> Result<(), OptionError> {
    if !keeps(OptionError::InvalidExpiryTimestamp, bounds, option, token, market) {
        Err(OptionError::InvalidExpiryTimestamp)
    } else if !keeps(OptionError::InvalidStrikePrice, bounds, option, token, market) {
        Err(OptionError::InvalidStrikePrice)
    } else if !keeps(OptionError::InvalidDuration, bounds, option, token, market) {
        Err(OptionError::InvalidDuration)
    } else if !keeps(OptionError::InvalidVolatility, bounds, option, token, market) {
        Err(OptionError::InvalidVolatility)
    } else if !keeps(OptionError::InvalidSpotPrice, bounds, option, token, market) {
        Err(OptionError::InvalidSpotPrice)
    } else if !keeps(OptionError::InvalidRiskFreeRate, bounds, option, token, market) {
        Err(OptionError::InvalidRiskFreeRate)
    } else {
        Ok(())
    }
}

/// Validates the input against the rules with the limits of `bounds`.
pub fn validate_with_bounds(
    bounds: &ValidationBounds,
    option_params: &OptionParams,
    token_params: &TokenParams,
    market_params: &MarketParams,
) -> (outcome: Result<(), OptionError>)
    ensures
        outcome == validation_outcome(*bounds, *option_params, *token_params, *market_params),
        outcome is Ok && bounds.within_engine_limits() ==> priceable(
            *option_params,
            *token_params,
            *market_params,
        ),
{
    if option_params.initial_time_to_expiry <= market_params.current_timestamp {
        return Err(OptionError::InvalidExpiryTimestamp);
    }
    if option_params.strike_price.raw < bounds.min_strike_price.raw {
        return Err(OptionError::InvalidStrikePrice);
    }
    let duration: i128 = option_params.initial_time_to_expiry as i128
        - market_params.current_timestamp as i128;
    if duration < bounds.min_duration as i128 || duration > bounds.max_duration as i128 {
        return Err(OptionError::InvalidDuration);
    }
    if token_params.historical_volatility.raw < bounds.min_volatility.raw
        || token_params.historical_volatility.raw > bounds.max_volatility.raw {
        return Err(OptionError::InvalidVolatility);
    }
    if token_params.spot_price.raw <= 0 {
        return Err(OptionError::InvalidSpotPrice);
    }
    if token_params.risk_free_rate.raw < 0 {
        return Err(OptionError::InvalidRiskFreeRate);
    }
    Ok(())
}

/// Validates the input against the rules with the standard limits.
pub fn validate_option_parameters(
    option_params: &OptionParams,
    token_params: &TokenParams,
    market_params: &MarketParams,
) -> (outcome: Result<(), OptionError>)
    ensures
        outcome == validation_outcome(
            standard_bounds(),
            *option_params,
            *token_params,
            *market_params,
        ),
        outcome is Ok ==> priceable(*option_params, *token_params, *market_params),
{
    let bounds = ValidationBounds::standard();
    validate_with_bounds(&bounds, option_params, token_params, market_params)
}

/// The input is accepted exactly when it keeps every rule.
pub proof fn lemma_accepted_iff_every_rule_kept(
    bounds: ValidationBounds,
    option: OptionParams,
    token: TokenParams,
    market: MarketParams,
)
    ensures
        validation_outcome(bounds, option, token, market) is Ok <==> forall|rule: OptionError|
            keeps(rule, bounds, option, token, market),
{
    if validation_outcome(bounds, option, token, market) is Ok {
        assert forall|rule: OptionError| keeps(rule, bounds, option, token, market) by {}
    } else {
        let broken = validation_outcome(bounds, option, token, market)->Err_0;
        assert(!keeps(broken, bounds, option, token, market));
    }
}

/// The first failure wins: a breach is reported exactly when its rule is
/// broken and every rule checked before it is kept.
pub proof fn lemma_first_failure_wins(
    reason: OptionError,
    bounds: ValidationBounds,
    option: OptionParams,
    token: TokenParams,
    market: MarketParams,
)
    ensures
        validation_outcome(bounds, option, token, market) == Err::<(), OptionError>(reason) <==> {
            &&& !keeps(reason, bounds, option, token, market)
            &&& forall|earlier: OptionError|
                checking_order(earlier) < checking_order(reason) ==> keeps(
                    earlier,
                    bounds,
                    option,
                    token,
                    market,
                )
        },
{
    let outcome = validation_outcome(bounds, option, token, market);
    if outcome == Err::<(), OptionError>(reason) {
        assert forall|earlier: OptionError|
            checking_order(earlier) < checking_order(reason) implies keeps(
            earlier,
            bounds,
            option,
            token,
            market,
        ) by {}
    } else if !keeps(reason, bounds, option, token, market) {
        // Another breach is reported, so its rule is checked earlier and is broken.
        assert(outcome is Err);
        let reported = outcome->Err_0;
        assert(checking_order(reported) < checking_order(reason));
        assert(!keeps(reported, bounds, option, token, market));
    }
}

/// An expiry that is not in the future is reported whatever else is wrong
/// with the input: a strike below the minimum, for one, does not show.
pub proof fn lemma_expiry_is_checked_first(
    bounds: ValidationBounds,
    option: OptionParams,
    token: TokenParams,
    market: MarketParams,
)
    requires
        option.initial_time_to_expiry <= market.current_timestamp,
    ensures
        validation_outcome(bounds, option, token, market) == Err::<(), OptionError>(
            OptionError::InvalidExpiryTimestamp,
        ),
{
}

/// What is accepted under limits no wider than the engine's can be priced.
pub proof fn lemma_accepted_is_priceable(
    bounds: ValidationBounds,
    option: OptionParams,
    token: TokenParams,
    market: MarketParams,
)
    requires
        bounds.within_engine_limits(),
        validation_outcome(bounds, option, token, market) is Ok,
    ensures
        priceable(option, token, market),
{
}

} // verus!
