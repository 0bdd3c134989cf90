//! The Black-Scholes pricing engine.
//!
//! The engine works on [`Fixed`] numbers. The logarithm, the exponential and
//! the normal distribution are evaluated by the caller and handed in as plain
//! values, in two steps. From the log-moneyness `ln(S / K)`,
//! [`distribution_query`] works out `d1`, `d2` and the exponent of the
//! discount factor. From the distribution and the exponential at those
//! points, a [`DistributionValues`], [`calc_option_price`] and
//! [`calc_greeks`] work out the price and the Greeks. Everything the engine
//! returns is the exact value of its formula on the numbers it is given,
//! rounded down to a whole number of billionths.

use vstd::prelude::*;
use crate::constants::{MAX_OPTION_DURATION, MAX_VOLATILITY, SECONDS_IN_YEAR};
use crate::fixed::{
    fits, floor_quotient, floor_sqrt, lemma_product_nonnegative, lemma_product_within,
    lemma_quotient_within, lemma_sqrt_of_fraction, weighted, Fixed, SCALE,
};
use crate::types::{MarketParams, OptionGreeks, OptionParams, OptionType, TokenParams};

verus! {

/// What the caller has evaluated for the engine: the standard normal
/// distribution at `d1` and `d2`, and the discount factor.
#[derive(Clone, Copy, Debug, PartialEq, Eq, Structural)]
pub struct DistributionValues {
    /// `N(d1)`: the probability that a standard normal variable is at most `d1`.
    pub cdf_d1: Fixed,
    /// `N(d2)`.
    pub cdf_d2: Fixed,
    /// `n(d1)`: the standard normal density at `d1`.
    pub pdf_d1: Fixed,
    /// `e^(-r * tau)`: today's value of one unit paid at expiry.
    pub discount: Fixed,
}

impl DistributionValues {
    /// Probabilities, the density and the discount factor all lie between
    /// zero and one.
    pub open spec fn well_formed(self) -> bool {
        &&& 0 <= self.cdf_d1@ <= SCALE
        &&& 0 <= self.cdf_d2@ <= SCALE
        &&& 0 <= self.pdf_d1@ <= SCALE
        &&& 0 <= self.discount@ <= SCALE
    }

    /// Tests [`Self::well_formed`].
    pub fn is_well_formed(&self) -> (ok: bool)
        ensures
            ok == self.well_formed(),
    {
        0 <= self.cdf_d1.raw && self.cdf_d1.raw <= SCALE && 0 <= self.cdf_d2.raw
            && self.cdf_d2.raw <= SCALE && 0 <= self.pdf_d1.raw && self.pdf_d1.raw <= SCALE && 0
            <= self.discount.raw && self.discount.raw <= SCALE
    }
}

/// The inputs on which the engine is defined: positive prices, a rate that
/// is not negative, a positive volatility of at most 1.0 and a remaining
/// life of more than nothing and at most a year.
pub open spec fn priceable(option: OptionParams, token: TokenParams, market: MarketParams) -> bool {
    &&& option.strike_price@ > 0
    &&& token.spot_price@ > 0
    &&& token.risk_free_rate@ >= 0
    &&& 0 < token.historical_volatility@ <= MAX_VOLATILITY
    &&& 0 < option.initial_time_to_expiry - market.current_timestamp <= MAX_OPTION_DURATION
}

/// Tests [`priceable`].
pub fn is_priceable(
    option_params: &OptionParams,
    token_params: &TokenParams,
    market_params: &MarketParams,
) -> (ok: bool)
    ensures
        ok == priceable(*option_params, *token_params, *market_params),
{
    let seconds: i128 = option_params.initial_time_to_expiry as i128
        - market_params.current_timestamp as i128;
    option_params.strike_price.raw > 0 && token_params.spot_price.raw > 0
        && token_params.risk_free_rate.raw >= 0 && 0 < token_params.historical_volatility.raw
        && token_params.historical_volatility.raw <= MAX_VOLATILITY && 0 < seconds && seconds
        <= MAX_OPTION_DURATION as i128
}

/// The time from `current_timestamp` to `initial_expiry` in years of 365
/// days, in billionths, rounded down.
pub open spec fn time_to_expiry(initial_expiry: int, current_timestamp: int) -> int {
    ((initial_expiry - current_timestamp) * SCALE) / (SECONDS_IN_YEAR as int)
}

/// Whether a contract that expires at `initial_expiry` has expired at
/// `current_timestamp`: the moment of expiry itself counts as expired.
pub fn is_option_expired(initial_expiry: i64, current_timestamp: i64) -> (expired: bool)
    ensures
        expired <==> current_timestamp >= initial_expiry,
{
    current_timestamp >= initial_expiry
}

/// The time to expiry in years, or `None` where that number of years does
/// not fit a [`Fixed`]. A timestamp past the expiry gives a negative time.
pub fn calc_time_to_expiry(initial_expiry: i64, current_timestamp: i64) -> (years: Option<Fixed>)
    ensures
        years is Some <==> fits(time_to_expiry(initial_expiry as int, current_timestamp as int)),
        years matches Some(t) ==> t@ == time_to_expiry(
            initial_expiry as int,
            current_timestamp as int,
        ),
{
    let seconds: i128 = initial_expiry as i128 - current_timestamp as i128;
    proof {
        lemma_product_within(seconds as int, SCALE as int, 0x1_0000_0000_0000_0000, 1_000_000_000);
    }
    let scaled: i128 = seconds * (SCALE as i128);
    let quotient: i128 = match scaled.checked_div_euclid(SECONDS_IN_YEAR as i128) {
        Some(q) => q,
        None => { return None; },
    };
    if quotient < i64::MIN as i128 || quotient > i64::MAX as i128 {
        None
    } else {
        Some(Fixed { raw: quotient as i64 })
    }
}

/// The remaining life of `option` at the moment of valuation, in years.
pub open spec fn years_to_expiry(option: OptionParams, market: MarketParams) -> int {
    time_to_expiry(option.initial_time_to_expiry as int, market.current_timestamp as int)
}

/// The square root of [`years_to_expiry`].
pub open spec fn root_years(option: OptionParams, market: MarketParams) -> int {
    floor_sqrt(years_to_expiry(option, market) * SCALE)
}

/// A long position's figure as it shows on the books of `option_type`: the
/// writer's figure is the holder's, negated.
pub open spec fn signed(option_type: OptionType, long_value: int) -> int {
    if option_type.is_short() {
        -long_value
    } else {
        long_value
    }
}

/// `N(d2)` for a call and `1 - N(d2)` for a put: the probability, under the
/// pricing measure, that the strike changes hands.
pub open spec fn exercise_weight(option_type: OptionType, values: DistributionValues) -> int {
    if option_type.is_call() {
        values.cdf_d2@
    } else {
        SCALE - values.cdf_d2@
    }
}

/// `K * e^(-r * tau) * w`: the discounted strike, weighted by [`exercise_weight`].
pub open spec fn discounted_strike(
    option: OptionParams,
    values: DistributionValues,
) -> int {
    (option.strike_price@ * values.discount@ * exercise_weight(option.option_type, values)) / (
    SCALE * SCALE)
}

/// `S * n(d1) * sigma / (2 * sqrt(tau))`: what a long position loses per
/// year to the passing of time alone.
pub open spec fn time_decay(
    option: OptionParams,
    token: TokenParams,
    market: MarketParams,
    values: DistributionValues,
) -> int {
    (token.spot_price@ * values.pdf_d1@ * token.historical_volatility@) / (2 * root_years(
        option,
        market,
    ) * SCALE)
}

/// `r * K * e^(-r * tau) * w`: the yearly interest on the weighted
/// discounted strike.
pub open spec fn strike_carry(
    option: OptionParams,
    token: TokenParams,
    values: DistributionValues,
) -> int {
    (token.risk_free_rate@ * discounted_strike(option, values)) / (SCALE as int)
}

/// What holding a call is worth: `S * N(d1) - K * e^(-r * tau) * N(d2)`.
pub open spec fn long_call_value(spot: int, strike: int, values: DistributionValues) -> int {
    (spot * values.cdf_d1@ * SCALE - strike * values.cdf_d2@ * values.discount@) / (SCALE
        * SCALE)
}

/// What holding a put is worth:
/// `K * e^(-r * tau) * (1 - N(d2)) - S * (1 - N(d1))`.
pub open spec fn long_put_value(spot: int, strike: int, values: DistributionValues) -> int {
    (strike * (SCALE - values.cdf_d2@) * values.discount@ - spot * (SCALE - values.cdf_d1@)
        * SCALE) / (SCALE * SCALE)
}

/// The price of `option`: the value of the call or put to its holder, and
/// the negative of that to its writer.
pub open spec fn price_of(
    option: OptionParams,
    token: TokenParams,
    values: DistributionValues,
) -> int {
    signed(
        option.option_type,
        if option.option_type.is_call() {
            long_call_value(token.spot_price@, option.strike_price@, values)
        } else {
            long_put_value(token.spot_price@, option.strike_price@, values)
        },
    )
}

/// `d1 = (ln(S / K) + (r + sigma^2 / 2) * tau) / (sigma * sqrt(tau))`,
/// as one fraction of whole numbers, rounded down.
pub open spec fn d1_of(log_moneyness: int, rate: int, volatility: int, years: int) -> int {
    (2 * log_moneyness * SCALE * SCALE + (2 * rate * SCALE + volatility * volatility) * years)
        / (2 * volatility * floor_sqrt(years * SCALE))
}

/// `d2 = d1 - sigma * sqrt(tau)`, the product rounded down.
pub open spec fn d2_of(d1: int, volatility: int, years: int) -> int {
    d1 - (volatility * floor_sqrt(years * SCALE)) / (SCALE as int)
}

/// Delta: `N(d1)` for a held call, `N(d1) - 1` for a held put, negated for
/// the writer.
pub open spec fn delta_of(option: OptionParams, values: DistributionValues) -> int {
    signed(
        option.option_type,
        if option.option_type.is_call() {
            values.cdf_d1@
        } else {
            values.cdf_d1@ - SCALE
        },
    )
}

/// Gamma: `n(d1) / (S * sigma * sqrt(tau))` for the holder of a call or a
/// put alike, negated for the writer.
pub open spec fn gamma_of(
    option: OptionParams,
    token: TokenParams,
    market: MarketParams,
    values: DistributionValues,
) -> int {
    signed(
        option.option_type,
        (values.pdf_d1@ * SCALE * SCALE * SCALE) / (token.spot_price@
            * token.historical_volatility@ * root_years(option, market)),
    )
}

/// Theta, per year: `-decay - carry` for a held call and `-decay + carry`
/// for a held put, with [`time_decay`] and [`strike_carry`], negated for the
/// writer.
pub open spec fn theta_of(
    option: OptionParams,
    token: TokenParams,
    market: MarketParams,
    values: DistributionValues,
) -> int {
    signed(
        option.option_type,
        if option.option_type.is_call() {
            -time_decay(option, token, market, values) - strike_carry(option, token, values)
        } else {
            -time_decay(option, token, market, values) + strike_carry(option, token, values)
        },
    )
}

/// Vega: `S * n(d1) * sqrt(tau)` for the holder of a call or a put alike,
/// negated for the writer.
pub open spec fn vega_of(
    option: OptionParams,
    token: TokenParams,
    market: MarketParams,
    values: DistributionValues,
) -> int {
    signed(
        option.option_type,
        (token.spot_price@ * values.pdf_d1@ * root_years(option, market)) / (SCALE * SCALE),
    )
}

/// Rho: `K * tau * e^(-r * tau) * N(d2)` for a held call and
/// `-K * tau * e^(-r * tau) * (1 - N(d2))` for a held put, negated for the
/// writer.
pub open spec fn rho_of(
    option: OptionParams,
    market: MarketParams,
    values: DistributionValues,
) -> int {
    signed(
        option.option_type,
        if option.option_type.is_call() {
            (discounted_strike(option, values) * years_to_expiry(option, market)) / (SCALE as int)
        } else {
            -((discounted_strike(option, values) * years_to_expiry(option, market)) / (
            SCALE as int))
        },
    )
}

/// Whether all five Greeks fit a [`Fixed`]. Delta, vega and rho always do;
/// gamma grows without bound as the spot price falls, and theta as rate
/// times strike rises.
pub open spec fn greeks_representable(
    option: OptionParams,
    token: TokenParams,
    market: MarketParams,
    values: DistributionValues,
) -> bool {
    &&& -i64::MAX <= gamma_of(option, token, market, values) <= i64::MAX
    &&& -i64::MAX <= theta_of(option, token, market, values) <= i64::MAX
}

/// The remaining life in years and its square root, both between one
/// billionth and one.
fn years_and_root(option_params: &OptionParams, market_params: &MarketParams) -> (pair: (
    Fixed,
    Fixed,
))
    requires
        0 < option_params.initial_time_to_expiry - market_params.current_timestamp
            <= MAX_OPTION_DURATION,
    ensures
        pair.0@ == years_to_expiry(*option_params, *market_params),
        pair.1@ == root_years(*option_params, *market_params),
        1 <= pair.0@ <= SCALE,
        1 <= pair.1@ <= SCALE,
{
    let seconds: i64 = (option_params.initial_time_to_expiry as i128
        - market_params.current_timestamp as i128) as i64;
    proof {
        lemma_product_nonnegative(seconds as int, SCALE as int, 31_536_000, 1_000_000_000);
        assert(seconds * SCALE >= SCALE) by (nonlinear_arith)
            requires
                seconds >= 1,
                SCALE > 0,
        ;
    }
    let years = Fixed { raw: (seconds * SCALE) / SECONDS_IN_YEAR };
    let root = years.sqrt();
    proof {
        lemma_sqrt_of_fraction(years@);
    }
    (years, root)
}

/// `d1` from the log-moneyness `ln(S / K)`, or `None` where it does not fit
/// a [`Fixed`].
pub fn calc_d1(
    log_moneyness: Fixed,
    risk_free_rate: Fixed,
    volatility: Fixed,
    time_to_expiry: Fixed,
) -> (d1: Option<Fixed>)
    requires
        risk_free_rate@ >= 0,
        0 < volatility@ <= MAX_VOLATILITY,
        0 < time_to_expiry@ <= SCALE,
    ensures
        d1 is Some <==> fits(
            d1_of(log_moneyness@, risk_free_rate@, volatility@, time_to_expiry@),
        ),
        d1 matches Some(d) ==> d@ == d1_of(
            log_moneyness@,
            risk_free_rate@,
            volatility@,
            time_to_expiry@,
        ),
{
    let one: i128 = SCALE as i128;
    let root = time_to_expiry.sqrt();
    proof {
        let log2 = 2 * log_moneyness@;
        lemma_product_within(log2, SCALE as int, 0x1_0000_0000_0000_0000, 1_000_000_000);
        lemma_product_within(
            log2 * SCALE,
            SCALE as int,
            18_446_744_073_709_551_616_000_000_000,
            1_000_000_000,
        );
        let rate2 = 2 * risk_free_rate@;
        lemma_product_nonnegative(rate2, SCALE as int, 0x1_0000_0000_0000_0000, 1_000_000_000);
        lemma_product_nonnegative(volatility@, volatility@, 1_000_000_000, 1_000_000_000);
        lemma_product_nonnegative(
            rate2 * SCALE + volatility@ * volatility@,
            time_to_expiry@,
            18_446_744_074_709_551_616_000_000_000,
            1_000_000_000,
        );
        let r = root@;
        lemma_product_nonnegative(time_to_expiry@, SCALE as int, 1_000_000_000, 1_000_000_000);
        lemma_sqrt_of_fraction(time_to_expiry@);
        lemma_product_nonnegative(2 * volatility@, r, 2_000_000_000, 1_000_000_000);
        assert(2 * volatility@ * r >= 1) by (nonlinear_arith)
            requires
                volatility@ >= 1,
                r >= 1,
        ;
    }
    let drift: i128 = (2 * (risk_free_rate.raw as i128) * one + (volatility.raw as i128) * (
    volatility.raw as i128)) * (time_to_expiry.raw as i128);
    let numerator: i128 = 2 * (log_moneyness.raw as i128) * one * one + drift;
    let denominator: i128 = 2 * (volatility.raw as i128) * (root.raw as i128);
    let d1: i128 = floor_quotient(numerator, denominator);
    if d1 < i64::MIN as i128 || d1 > i64::MAX as i128 {
        None
    } else {
        Some(Fixed { raw: d1 as i64 })
    }
}

/// `d2` from `d1`, or `None` where it does not fit a [`Fixed`].
pub fn calc_d2(d1: Fixed, volatility: Fixed, time_to_expiry: Fixed) -> (d2: Option<Fixed>)
    requires
        0 < volatility@ <= MAX_VOLATILITY,
        0 < time_to_expiry@ <= SCALE,
    ensures
        d2 is Some <==> fits(d2_of(d1@, volatility@, time_to_expiry@)),
        d2 matches Some(d) ==> d@ == d2_of(d1@, volatility@, time_to_expiry@),
{
    proof {
        lemma_product_nonnegative(time_to_expiry@, SCALE as int, 1_000_000_000, 1_000_000_000);
    }
    let root = time_to_expiry.sqrt();
    proof {
        lemma_sqrt_of_fraction(time_to_expiry@);
        lemma_product_nonnegative(volatility@, root@, 1_000_000_000, 1_000_000_000);
    }
    let spread: i128 = floor_quotient((volatility.raw as i128) * (root.raw as i128), SCALE as i128);
    let d2: i128 = d1.raw as i128 - spread;
    if d2 < i64::MIN as i128 {
        None
    } else {
        Some(Fixed { raw: d2 as i64 })
    }
}

/// Where the caller is to evaluate the distribution and the exponential.
#[derive(Clone, Copy, Debug, PartialEq, Eq, Structural)]
pub struct DistributionQuery {
    /// The point at which `N` and `n` are wanted.
    pub d1: Fixed,
    /// The second point at which `N` is wanted.
    pub d2: Fixed,
    /// `-r * tau`: the exponent of the discount factor.
    pub discount_exponent: Fixed,
}

/// `-r * tau`, the product rounded down before it is negated.
pub open spec fn discount_exponent_of(rate: int, years: int) -> int {
    -((rate * years) / (SCALE as int))
}

/// `d1` of the given terms, from the log-moneyness `ln(S / K)`.
pub open spec fn d1_of_terms(
    option: OptionParams,
    token: TokenParams,
    market: MarketParams,
    log_moneyness: Fixed,
) -> int {
    d1_of(
        log_moneyness@,
        token.risk_free_rate@,
        token.historical_volatility@,
        years_to_expiry(option, market),
    )
}

/// `d2` of the given terms, from the log-moneyness `ln(S / K)`.
pub open spec fn d2_of_terms(
    option: OptionParams,
    token: TokenParams,
    market: MarketParams,
    log_moneyness: Fixed,
) -> int {
    d2_of(
        d1_of_terms(option, token, market, log_moneyness),
        token.historical_volatility@,
        years_to_expiry(option, market),
    )
}

/// The three numbers at which the caller evaluates the distribution and the
/// exponential for the given terms, or `None` where `d1` or `d2` does not
/// fit a [`Fixed`].
pub fn distribution_query(
    option_params: &OptionParams,
    token_params: &TokenParams,
    market_params: &MarketParams,
    log_moneyness: Fixed,
) -> (query: Option<DistributionQuery>)
    requires
        priceable(*option_params, *token_params, *market_params),
    ensures
        query is Some <==> {
            &&& fits(d1_of_terms(*option_params, *token_params, *market_params, log_moneyness))
            &&& fits(d2_of_terms(*option_params, *token_params, *market_params, log_moneyness))
        },
        query matches Some(q) ==> {
            &&& q.d1@ == d1_of_terms(*option_params, *token_params, *market_params, log_moneyness)
            &&& q.d2@ == d2_of_terms(*option_params, *token_params, *market_params, log_moneyness)
            &&& q.discount_exponent@ == discount_exponent_of(
                token_params.risk_free_rate@,
                years_to_expiry(*option_params, *market_params),
            )
        },
{
    let (years, root) = years_and_root(option_params, market_params);
    let rate = token_params.risk_free_rate;
    let volatility = token_params.historical_volatility;
    proof {
        lemma_product_nonnegative(rate@, years@, 0x7fff_ffff_ffff_ffff, 1_000_000_000);
        assert(rate@ * years@ <= rate@ * SCALE) by (nonlinear_arith)
            requires
                0 <= rate@,
                0 <= years@ <= SCALE,
        ;
        lemma_quotient_within(rate@ * years@, SCALE as int, rate@);
        lemma_product_nonnegative(volatility@, root@, 1_000_000_000, 1_000_000_000);
        assert((volatility@ * root@) / (SCALE as int) >= 0) by (nonlinear_arith)
            requires
                volatility@ * root@ >= 0,
                SCALE > 0,
        ;
    }
    let exponent: i128 = floor_quotient((rate.raw as i128) * (years.raw as i128), SCALE as i128);
    match calc_d1(log_moneyness, rate, volatility, years) {
        Some(d1) => match calc_d2(d1, volatility, years) {
            Some(d2) => Some(
                DistributionQuery { d1, d2, discount_exponent: Fixed { raw: (-exponent) as i64 } },
            ),
            None => None,
        },
        None => None,
    }
}

/// The price of `option_params`: what the call or put is worth to its
/// holder, rounded down, and the negative of that for its writer.
pub fn calc_option_price(
    option_params: &OptionParams,
    token_params: &TokenParams,
    market_params: &MarketParams,
    values: &DistributionValues,
) -> (price: Fixed)
    requires
        priceable(*option_params, *token_params, *market_params),
        values.well_formed(),
    ensures
        price@ == price_of(*option_params, *token_params, *values),
{
    let spot: i64 = token_params.spot_price.raw;
    let strike: i64 = option_params.strike_price.raw;
    let one: i128 = SCALE as i128;
    proof {
        lemma_product_nonnegative(SCALE as int, SCALE as int, 1_000_000_000, 1_000_000_000);
        assert(SCALE * SCALE >= 1) by (nonlinear_arith)
            requires
                SCALE >= 1,
        ;
    }
    let one_squared: i128 = one * one;
    let (call, short) = match option_params.option_type {
        OptionType::LongCall => (true, false),
        OptionType::ShortCall => (true, true),
        OptionType::LongPut => (false, false),
        OptionType::ShortPut => (false, true),
    };
    let scaled: i128 = if call {
        weighted(spot, values.cdf_d1.raw, SCALE) - weighted(
            strike,
            values.cdf_d2.raw,
            values.discount.raw,
        )
    } else {
        weighted(strike, SCALE - values.cdf_d2.raw, values.discount.raw) - weighted(
            spot,
            SCALE - values.cdf_d1.raw,
            SCALE,
        )
    };
    let long_price: i128 = floor_quotient(scaled, one_squared);
    proof {
        let ceiling: int = if spot >= strike {
            spot as int
        } else {
            strike as int
        };
        assert(-(ceiling * (SCALE * SCALE)) <= scaled <= ceiling * (SCALE * SCALE)) by (nonlinear_arith)
            requires
                -(strike * (SCALE * SCALE)) <= scaled <= spot * (SCALE * SCALE) || -(spot * (SCALE
                    * SCALE)) <= scaled <= strike * (SCALE * SCALE),
                ceiling >= spot,
                ceiling >= strike,
                spot >= 0,
                strike >= 0,
                SCALE * SCALE >= 1,
        ;
        lemma_quotient_within(scaled as int, SCALE * SCALE, ceiling);
    }
    if short {
        Fixed { raw: (-long_price) as i64 }
    } else {
        Fixed { raw: long_price as i64 }
    }
}

/// The five Greeks of `option_params`, or `None` where gamma or theta does
/// not fit a [`Fixed`].
///
/// Each is its formula's exact value on the given numbers, rounded down
/// (theta: each of its two terms rounded down), for the holder; the writer's
/// Greeks are the holder's, negated.
pub fn calc_greeks(
    option_params: &OptionParams,
    token_params: &TokenParams,
    market_params: &MarketParams,
    values: &DistributionValues,
) -> (greeks: Option<OptionGreeks>)
    requires
        priceable(*option_params, *token_params, *market_params),
        values.well_formed(),
    ensures
        greeks is Some <==> greeks_representable(
            *option_params,
            *token_params,
            *market_params,
            *values,
        ),
        greeks matches Some(g) ==> {
            &&& g.delta@ == delta_of(*option_params, *values)
            &&& g.gamma@ == gamma_of(*option_params, *token_params, *market_params, *values)
            &&& g.theta@ == theta_of(*option_params, *token_params, *market_params, *values)
            &&& g.vega@ == vega_of(*option_params, *token_params, *market_params, *values)
            &&& g.rho@ == rho_of(*option_params, *market_params, *values)
        },
{
    let (years, root) = years_and_root(option_params, market_params);
    let spot: i64 = token_params.spot_price.raw;
    let strike: i64 = option_params.strike_price.raw;
    let rate: i64 = token_params.risk_free_rate.raw;
    let volatility: i64 = token_params.historical_volatility.raw;
    let density: i64 = values.pdf_d1.raw;
    let one: i128 = SCALE as i128;
    let (call, short) = match option_params.option_type {
        OptionType::LongCall => (true, false),
        OptionType::ShortCall => (true, true),
        OptionType::LongPut => (false, false),
        OptionType::ShortPut => (false, true),
    };
    proof {
        lemma_product_nonnegative(SCALE as int, SCALE as int, 1_000_000_000, 1_000_000_000);
        assert(SCALE * SCALE >= 1) by (nonlinear_arith)
            requires
                SCALE >= 1,
        ;
    }
    let one_squared: i128 = one * one;

    let delta: i64 = if call {
        values.cdf_d1.raw
    } else {
        values.cdf_d1.raw - SCALE
    };

    // gamma = n(d1) / (S * sigma * sqrt(tau))
    proof {
        lemma_product_nonnegative(density as int, SCALE as int, 1_000_000_000, 1_000_000_000);
        lemma_product_nonnegative(
            density * SCALE,
            SCALE as int,
            1_000_000_000_000_000_000,
            1_000_000_000,
        );
        lemma_product_nonnegative(
            density * SCALE * SCALE,
            SCALE as int,
            1_000_000_000_000_000_000_000_000_000,
            1_000_000_000,
        );
        assert(spot * volatility * root@ >= 1) by (nonlinear_arith)
            requires
                spot >= 1,
                volatility >= 1,
                root@ >= 1,
        ;
    }
    let density_scaled: i128 = (density as i128) * one * one * one;
    let gamma: i128 = floor_quotient(density_scaled, weighted(spot, volatility, root.raw));

    // vega = S * n(d1) * sqrt(tau)
    let vega_scaled: i128 = weighted(spot, density, root.raw);
    let vega: i128 = floor_quotient(vega_scaled, one_squared);
    proof {
        lemma_quotient_within(vega_scaled as int, SCALE * SCALE, spot as int);
    }

    // K * e^(-r tau) * w, with w = N(d2) for a call and 1 - N(d2) for a put
    let weight: i64 = if call {
        values.cdf_d2.raw
    } else {
        SCALE - values.cdf_d2.raw
    };
    let strike_scaled: i128 = weighted(strike, values.discount.raw, weight);
    let present_strike: i128 = floor_quotient(strike_scaled, one_squared);
    proof {
        lemma_quotient_within(strike_scaled as int, SCALE * SCALE, strike as int);
    }

    // theta = -S * n(d1) * sigma / (2 sqrt(tau)) -/+ r * K * e^(-r tau) * w
    proof {
        lemma_product_nonnegative(2 * root@, SCALE as int, 2_000_000_000, 1_000_000_000);
        assert(2 * root@ * SCALE >= 1) by (nonlinear_arith)
            requires
                root@ >= 1,
                SCALE >= 1,
        ;
        lemma_product_nonnegative(
            rate as int,
            present_strike as int,
            0x7fff_ffff_ffff_ffff,
            0x7fff_ffff_ffff_ffff,
        );
    }
    let decay: i128 = floor_quotient(weighted(spot, density, volatility), 2 * (root.raw as i128) * one);
    let carry: i128 = floor_quotient((rate as i128) * present_strike, one);
    let theta: i128 = if call {
        -decay - carry
    } else {
        -decay + carry
    };

    // rho = +/- K * tau * e^(-r tau) * w
    proof {
        lemma_product_nonnegative(
            present_strike as int,
            years@,
            0x7fff_ffff_ffff_ffff,
            1_000_000_000,
        );
        assert(present_strike * years@ <= present_strike * SCALE) by (nonlinear_arith)
            requires
                0 <= present_strike,
                0 <= years@ <= SCALE,
        ;
        lemma_quotient_within(present_strike * years@, SCALE as int, present_strike as int);
    }
    let exposure: i128 = floor_quotient(present_strike * (years.raw as i128), one);
    let rho: i128 = if call {
        exposure
    } else {
        -exposure
    };

    if gamma > i64::MAX as i128 || theta > i64::MAX as i128 || theta < -(i64::MAX as i128) {
        return None;
    }
    if short {
        Some(
            OptionGreeks {
                delta: Fixed { raw: -delta },
                theta: Fixed { raw: (-theta) as i64 },
                gamma: Fixed { raw: (-gamma) as i64 },
                vega: Fixed { raw: (-vega) as i64 },
                rho: Fixed { raw: (-rho) as i64 },
            },
        )
    } else {
        Some(
            OptionGreeks {
                delta: Fixed { raw: delta },
                theta: Fixed { raw: theta as i64 },
                gamma: Fixed { raw: gamma as i64 },
                vega: Fixed { raw: vega as i64 },
                rho: Fixed { raw: rho as i64 },
            },
        )
    }
}

} // verus!
