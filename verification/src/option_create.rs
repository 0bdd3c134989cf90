//! Creating an option: from what the caller submits to the record that is
//! kept of the contract.
//!
//! Creation takes two steps, with the caller's evaluation of the
//! distribution between them. [`prepare_option`] turns the submission into
//! the terms that the engine prices, and validates them. [`open_option`]
//! prices the validated terms and fills in the record.

use vstd::prelude::*;
use crate::black_scholes_model::{
    calc_greeks, calc_option_price, delta_of, gamma_of, greeks_representable, price_of, priceable,
    rho_of, theta_of, vega_of, DistributionValues,
};
use crate::errors::OptionError;
use crate::fixed::Fixed;
use crate::types::{
    MarketParams, OptionGreeks, OptionParams, OptionStatus, OptionType, TokenParams,
};
use crate::validate_option::{standard_bounds, validate_option_parameters, validation_outcome};

verus! {

/// The contract that the caller asks for.
#[derive(Clone, Copy, Debug, PartialEq, Eq, Structural)]
pub struct OptionInput {
    pub option_type: OptionType,
    pub strike_price: Fixed,
    /// The moment of expiry, in seconds.
    pub expiry_timestamp: i64,
}

/// The caller's figures for the underlying token.
#[derive(Clone, Copy, Debug, PartialEq, Eq, Structural)]
pub struct TokenInput {
    pub spot_price: Fixed,
    pub volatility: Fixed,
    pub risk_free_rate: Fixed,
}

/// The caller's market-wide figures.
#[derive(Clone, Copy, Debug, PartialEq, Eq, Structural)]
pub struct MarketInput {
    pub usdc_risk_free_rate: Fixed,
    pub time_in_years: Fixed,
}

/// The record of a contract. The price and the Greeks are those of the
/// moment of creation and are written once, by [`open_option`].
#[derive(Clone, Copy, Debug)]
pub struct OptionAccount {
    /// The key of whoever created the contract.
    pub owner: [u8; 32],
    pub option_type: OptionType,
    pub strike_price: Fixed,
    pub expiry_timestamp: i64,
    pub creation_price: Fixed,
    pub greeks: OptionGreeks,
    pub status: OptionStatus,
    pub spot_price_at_creation: Fixed,
}

/// The contract terms that a submission stands for: nothing priced yet.
pub open spec fn option_terms(input: OptionInput) -> OptionParams {
    OptionParams {
        option_type: input.option_type,
        strike_price: input.strike_price,
        initial_time_to_expiry: input.expiry_timestamp,
        creation_price: Fixed { raw: 0 },
        greeks: OptionGreeks {
            delta: Fixed { raw: 0 },
            theta: Fixed { raw: 0 },
            gamma: Fixed { raw: 0 },
            vega: Fixed { raw: 0 },
            rho: Fixed { raw: 0 },
        },
    }
}

/// The token figures of a submission, observed at `now`.
pub open spec fn token_terms(input: TokenInput, now: i64) -> TokenParams {
    TokenParams {
        spot_price: input.spot_price,
        historical_volatility: input.volatility,
        risk_free_rate: input.risk_free_rate,
        timestamp: now,
    }
}

/// The market figures of a submission, valued at `now`.
pub open spec fn market_terms(input: MarketInput, now: i64) -> MarketParams {
    MarketParams {
        usdc_risk_free_rate: input.usdc_risk_free_rate,
        time_in_years: input.time_in_years,
        current_timestamp: now,
    }
}

/// The terms that a submission received at `now` stands for, if they pass
/// the standard validation, and else the reason for which they do not.
pub fn prepare_option(
    option_input: &OptionInput,
    token_input: &TokenInput,
    market_input: &MarketInput,
    now: i64,
) -> (prepared: Result<(OptionParams, TokenParams, MarketParams), OptionError>)
    ensures
        match prepared {
            Ok(terms) => {
                &&& terms.0 == option_terms(*option_input)
                &&& terms.1 == token_terms(*token_input, now)
                &&& terms.2 == market_terms(*market_input, now)
                &&& validation_outcome(standard_bounds(), terms.0, terms.1, terms.2) is Ok
                &&& priceable(terms.0, terms.1, terms.2)
            },
            Err(reason) => validation_outcome(
                standard_bounds(),
                option_terms(*option_input),
                token_terms(*token_input, now),
                market_terms(*market_input, now),
            ) == Err::<(), OptionError>(reason),
        },
{
    let zero = Fixed { raw: 0 };
    let option_params = OptionParams {
        option_type: option_input.option_type,
        strike_price: option_input.strike_price,
        initial_time_to_expiry: option_input.expiry_timestamp,
        creation_price: zero,
        greeks: OptionGreeks { delta: zero, theta: zero, gamma: zero, vega: zero, rho: zero },
    };
    let token_params = TokenParams {
        spot_price: token_input.spot_price,
        historical_volatility: token_input.volatility,
        risk_free_rate: token_input.risk_free_rate,
        timestamp: now,
    };
    let market_params = MarketParams {
        usdc_risk_free_rate: market_input.usdc_risk_free_rate,
        time_in_years: market_input.time_in_years,
        current_timestamp: now,
    };
    match validate_option_parameters(&option_params, &token_params, &market_params) {
        Ok(()) => Ok((option_params, token_params, market_params)),
        Err(reason) => Err(reason),
    }
}

/// The record of a contract on validated terms, priced with `values`: open,
/// owned by `owner`, with the engine's price and Greeks. `None` where the
/// Greeks do not fit a [`Fixed`].
pub fn open_option(
    owner: [u8; 32],
    option_params: &OptionParams,
    token_params: &TokenParams,
    market_params: &MarketParams,
    values: &DistributionValues,
) -> (account: Option<OptionAccount>)
    requires
        priceable(*option_params, *token_params, *market_params),
        values.well_formed(),
    ensures
        account is Some <==> greeks_representable(
            *option_params,
            *token_params,
            *market_params,
            *values,
        ),
        account matches Some(a) ==> {
            &&& a.owner == owner
            &&& a.option_type == option_params.option_type
            &&& a.strike_price == option_params.strike_price
            &&& a.expiry_timestamp == option_params.initial_time_to_expiry
            &&& a.status == OptionStatus::Open
            &&& a.spot_price_at_creation == token_params.spot_price
            &&& a.creation_price@ == price_of(*option_params, *token_params, *values)
            &&& a.greeks.delta@ == delta_of(*option_params, *values)
            &&& a.greeks.gamma@ == gamma_of(*option_params, *token_params, *market_params, *values)
            &&& a.greeks.theta@ == theta_of(*option_params, *token_params, *market_params, *values)
            &&& a.greeks.vega@ == vega_of(*option_params, *token_params, *market_params, *values)
            &&& a.greeks.rho@ == rho_of(*option_params, *market_params, *values)
        },
{
    let creation_price = calc_option_price(option_params, token_params, market_params, values);
    match calc_greeks(option_params, token_params, market_params, values) {
        Some(greeks) => Some(
            OptionAccount {
                owner,
                option_type: option_params.option_type,
                strike_price: option_params.strike_price,
                expiry_timestamp: option_params.initial_time_to_expiry,
                creation_price,
                greeks,
                status: OptionStatus::Open,
                spot_price_at_creation: token_params.spot_price,
            },
        ),
        None => None,
    }
}

} // verus!
