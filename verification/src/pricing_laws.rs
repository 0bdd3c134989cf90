//! What holds of the engine's results on every input.

use vstd::prelude::*;
use crate::black_scholes_model::{
    d2_of, delta_of, discounted_strike, exercise_weight, gamma_of, price_of, priceable, rho_of,
    root_years, strike_carry, theta_of, time_decay, time_to_expiry, vega_of, years_to_expiry,
    DistributionValues,
};
use crate::fixed::{
    floor_sqrt, lemma_floor_sqrt_exists, lemma_quotient_within, lemma_sqrt_of_fraction, Fixed,
    SCALE,
};
use crate::types::{MarketParams, OptionParams, OptionType, TokenParams};

verus! {

/// `option` with the position changed to `option_type`.
pub open spec fn with_type(option: OptionParams, option_type: OptionType) -> OptionParams {
    OptionParams {
        option_type,
        strike_price: option.strike_price,
        initial_time_to_expiry: option.initial_time_to_expiry,
        creation_price: option.creation_price,
        greeks: option.greeks,
    }
}

/// `token` with the spot price changed to `spot_price`.
pub open spec fn with_spot(token: TokenParams, spot_price: int) -> TokenParams
    recommends
        i64::MIN <= spot_price <= i64::MAX,
{
    TokenParams {
        spot_price: Fixed { raw: spot_price as i64 },
        historical_volatility: token.historical_volatility,
        risk_free_rate: token.risk_free_rate,
        timestamp: token.timestamp,
    }
}

/// A quotient rounded down lies within one divisor's worth below its dividend.
proof fn lemma_floor_brackets(x: int, divisor: int)
    by (nonlinear_arith)
    requires
        divisor > 0,
    ensures
        divisor * (x / divisor) <= x < divisor * (x / divisor) + divisor,
{
}

/// A dividend that is not negative, over a positive divisor, gives a
/// quotient that is not negative.
proof fn lemma_nonnegative_quotient(x: int, divisor: int)
    by (nonlinear_arith)
    requires
        x >= 0,
        divisor > 0,
    ensures
        x / divisor >= 0,
{
}

/// Of two dividends over one positive divisor, the larger gives the quotient
/// that is not smaller.
proof fn lemma_quotient_monotonic(x: int, y: int, divisor: int)
    by (nonlinear_arith)
    requires
        x <= y,
        divisor > 0,
    ensures
        x / divisor <= y / divisor,
{
}

/// An amount weighted by two factors between zero and one.
proof fn lemma_weighted_bounds(amount: int, first: int, second: int)
    by (nonlinear_arith)
    requires
        amount >= 0,
        0 <= first <= SCALE,
        0 <= second <= SCALE,
    ensures
        0 <= amount * first * second <= amount * (SCALE * SCALE),
{
}

/// `SCALE * SCALE` is positive.
proof fn lemma_square_positive()
    ensures
        SCALE * SCALE > 0,
{
    assert(SCALE * SCALE > 0) by (nonlinear_arith)
        requires
            SCALE > 0,
    ;
}

/// On priceable terms the time to expiry and its square root both lie
/// between one billionth and one.
proof fn lemma_years_and_root_bounds(
    option: OptionParams,
    token: TokenParams,
    market: MarketParams,
)
    requires
        priceable(option, token, market),
    ensures
        1 <= years_to_expiry(option, market) <= SCALE,
        1 <= root_years(option, market) <= SCALE,
{
    let one = SCALE as int;
    let years = years_to_expiry(option, market);
    let root = root_years(option, market);
    let seconds = option.initial_time_to_expiry - market.current_timestamp;
    lemma_years_positive(option.initial_time_to_expiry as int, market.current_timestamp as int);
    assert(seconds * SCALE <= 31_536_000 * SCALE) by (nonlinear_arith)
        requires
            seconds <= 31_536_000,
            SCALE >= 0,
    ;
    lemma_sqrt_of_fraction(years);
}

/// Put-call parity: on the same terms and distribution values, the price of
/// a held call exceeds that of a held put by `S - K * e^(-r * tau)`, to
/// within one billionth.
pub proof fn lemma_put_call_parity(
    option: OptionParams,
    token: TokenParams,
    values: DistributionValues,
)
    ensures
        ({
            let call = price_of(with_type(option, OptionType::LongCall), token, values);
            let put = price_of(with_type(option, OptionType::LongPut), token, values);
            let exact = token.spot_price@ * SCALE - option.strike_price@ * values.discount@;
            -SCALE < (call - put) * SCALE - exact < SCALE
        }),
{
    let spot = token.spot_price@;
    let strike = option.strike_price@;
    let one = SCALE as int;
    let square = one * one;
    let cdf1 = values.cdf_d1@;
    let cdf2 = values.cdf_d2@;
    let discount = values.discount@;
    let call_scaled = spot * cdf1 * one - strike * cdf2 * discount;
    let put_scaled = strike * (one - cdf2) * discount - spot * (one - cdf1) * one;
    let call = call_scaled / square;
    let put = put_scaled / square;
    let exact = spot * one - strike * discount;
    lemma_square_positive();
    assert(strike * (one - cdf2) * discount == strike * one * discount - strike * cdf2 * discount)
        by (nonlinear_arith);
    assert(spot * (one - cdf1) * one == spot * one * one - spot * cdf1 * one) by (nonlinear_arith);
    assert((spot * one - strike * discount) * one == spot * one * one - strike * one * discount)
        by (nonlinear_arith);
    assert(call_scaled - put_scaled == exact * one);
    lemma_floor_brackets(call_scaled, square);
    lemma_floor_brackets(put_scaled, square);
    assert(-one < (call - put) * one - exact < one) by (nonlinear_arith)
        requires
            one > 0,
            square == one * one,
            square * call <= call_scaled < square * call + square,
            square * put <= put_scaled < square * put + square,
            call_scaled - put_scaled == exact * one,
    ;
}

/// The writer's price and Greeks are the holder's, negated.
pub proof fn lemma_writer_mirrors_holder(
    option: OptionParams,
    token: TokenParams,
    market: MarketParams,
    values: DistributionValues,
)
    requires
        option.option_type.is_short(),
    ensures
        ({
            let held = with_type(option, option.option_type.long_side());
            &&& price_of(option, token, values) == -price_of(held, token, values)
            &&& delta_of(option, values) == -delta_of(held, values)
            &&& gamma_of(option, token, market, values) == -gamma_of(held, token, market, values)
            &&& theta_of(option, token, market, values) == -theta_of(held, token, market, values)
            &&& vega_of(option, token, market, values) == -vega_of(held, token, market, values)
            &&& rho_of(option, market, values) == -rho_of(held, market, values)
        }),
{
    let held = with_type(option, option.option_type.long_side());
    assert(years_to_expiry(option, market) == years_to_expiry(held, market));
    assert(root_years(option, market) == root_years(held, market));
    assert(exercise_weight(option.option_type, values) == exercise_weight(held.option_type, values));
    assert(discounted_strike(option, values) == discounted_strike(held, values));
    assert(time_decay(option, token, market, values) == time_decay(held, token, market, values));
    assert(strike_carry(option, token, values) == strike_carry(held, token, values));
}

/// A held put and a held call on the same terms differ in delta by exactly
/// one, and share gamma and vega.
pub proof fn lemma_put_and_call_sensitivities(
    option: OptionParams,
    token: TokenParams,
    market: MarketParams,
    values: DistributionValues,
)
    ensures
        ({
            let call = with_type(option, OptionType::LongCall);
            let put = with_type(option, OptionType::LongPut);
            &&& delta_of(put, values) == delta_of(call, values) - SCALE
            &&& gamma_of(put, token, market, values) == gamma_of(call, token, market, values)
            &&& vega_of(put, token, market, values) == vega_of(call, token, market, values)
        }),
{
    let call = with_type(option, OptionType::LongCall);
    let put = with_type(option, OptionType::LongPut);
    assert(root_years(call, market) == root_years(put, market));
}

/// The signs of a holder's Greeks. Gamma and vega are not negative. For a
/// call, delta lies between zero and one, rho is not negative and theta is
/// not positive; for a put, delta lies between minus one and zero and rho is
/// not positive.
pub proof fn lemma_holder_greeks_signs(
    option: OptionParams,
    token: TokenParams,
    market: MarketParams,
    values: DistributionValues,
)
    requires
        priceable(option, token, market),
        values.well_formed(),
        !option.option_type.is_short(),
    ensures
        gamma_of(option, token, market, values) >= 0,
        vega_of(option, token, market, values) >= 0,
        option.option_type.is_call() ==> {
            &&& 0 <= delta_of(option, values) <= SCALE
            &&& rho_of(option, market, values) >= 0
            &&& theta_of(option, token, market, values) <= 0
        },
        !option.option_type.is_call() ==> {
            &&& -SCALE <= delta_of(option, values) <= 0
            &&& rho_of(option, market, values) <= 0
        },
{
    let one = SCALE as int;
    let spot = token.spot_price@;
    let strike = option.strike_price@;
    let volatility = token.historical_volatility@;
    let rate = token.risk_free_rate@;
    let density = values.pdf_d1@;
    let discount = values.discount@;
    let weight = exercise_weight(option.option_type, values);
    let years = years_to_expiry(option, market);
    let root = root_years(option, market);
    lemma_years_and_root_bounds(option, token, market);
    lemma_square_positive();
    // gamma
    assert(density * one * one * one >= 0 && spot * volatility * root > 0) by (nonlinear_arith)
        requires
            density >= 0,
            one > 0,
            spot > 0,
            volatility > 0,
            root > 0,
    ;
    lemma_nonnegative_quotient(density * one * one * one, spot * volatility * root);
    // vega
    lemma_weighted_bounds(spot, density, root);
    lemma_nonnegative_quotient(spot * density * root, one * one);
    // the weighted discounted strike
    lemma_weighted_bounds(strike, discount, weight);
    lemma_nonnegative_quotient(strike * discount * weight, one * one);
    let present = discounted_strike(option, values);
    // rho
    assert(present * years >= 0) by (nonlinear_arith)
        requires
            present >= 0,
            years >= 0,
    ;
    lemma_nonnegative_quotient(present * years, one);
    // theta
    lemma_weighted_bounds(spot, density, volatility);
    assert(2 * root * one > 0) by (nonlinear_arith)
        requires
            root > 0,
            one > 0,
    ;
    lemma_nonnegative_quotient(spot * density * volatility, 2 * root * one);
    assert(rate * present >= 0) by (nonlinear_arith)
        requires
            rate >= 0,
            present >= 0,
    ;
    lemma_nonnegative_quotient(rate * present, one);
}

/// The signs of a held call at the money: where the strike equals the spot
/// price and `N(d2)` does not exceed `N(d1)`, the price, gamma, vega and rho
/// are not negative, delta lies between zero and one, and theta is not
/// positive.
pub proof fn lemma_held_call_at_the_money(
    option: OptionParams,
    token: TokenParams,
    market: MarketParams,
    values: DistributionValues,
)
    requires
        priceable(option, token, market),
        values.well_formed(),
        option.option_type == OptionType::LongCall,
        option.strike_price@ == token.spot_price@,
        values.cdf_d2@ <= values.cdf_d1@,
    ensures
        price_of(option, token, values) >= 0,
        0 <= delta_of(option, values) <= SCALE,
        gamma_of(option, token, market, values) >= 0,
        vega_of(option, token, market, values) >= 0,
        rho_of(option, market, values) >= 0,
        theta_of(option, token, market, values) <= 0,
{
    lemma_holder_greeks_signs(option, token, market, values);
    lemma_held_call_in_the_money_is_worth_something(option, token, values);
}

/// When the signs of a held call are strict: each figure differs from zero
/// exactly when its exact value reaches one billionth, so that rounding down
/// leaves something of it.
pub proof fn lemma_held_call_strict_signs(
    option: OptionParams,
    token: TokenParams,
    market: MarketParams,
    values: DistributionValues,
)
    requires
        priceable(option, token, market),
        values.well_formed(),
        option.option_type == OptionType::LongCall,
    ensures
        price_of(option, token, values) > 0 <==> token.spot_price@ * values.cdf_d1@ * SCALE
            - option.strike_price@ * values.cdf_d2@ * values.discount@ >= SCALE * SCALE,
        0 < delta_of(option, values) < SCALE <==> 0 < values.cdf_d1@ < SCALE,
        gamma_of(option, token, market, values) > 0 <==> values.pdf_d1@ * SCALE * SCALE * SCALE
            >= token.spot_price@ * token.historical_volatility@ * root_years(option, market),
        vega_of(option, token, market, values) > 0 <==> token.spot_price@ * values.pdf_d1@
            * root_years(option, market) >= SCALE * SCALE,
        rho_of(option, market, values) > 0 <==> discounted_strike(option, values)
            * years_to_expiry(option, market) >= SCALE,
        theta_of(option, token, market, values) < 0 <==> time_decay(option, token, market, values)
            + strike_carry(option, token, values) >= 1,
{
    let one = SCALE as int;
    let spot = token.spot_price@;
    let strike = option.strike_price@;
    let volatility = token.historical_volatility@;
    let density = values.pdf_d1@;
    let years = years_to_expiry(option, market);
    let root = root_years(option, market);
    lemma_years_and_root_bounds(option, token, market);
    lemma_square_positive();
    lemma_positive_quotient(
        spot * values.cdf_d1@ * one - strike * values.cdf_d2@ * values.discount@,
        one * one,
    );
    assert(spot * volatility * root > 0) by (nonlinear_arith)
        requires
            spot > 0,
            volatility > 0,
            root > 0,
    ;
    lemma_positive_quotient(density * one * one * one, spot * volatility * root);
    lemma_positive_quotient(spot * density * root, one * one);
    lemma_positive_quotient(discounted_strike(option, values) * years, one);
}

/// A quotient by a positive divisor is positive exactly when the dividend
/// reaches the divisor.
proof fn lemma_positive_quotient(x: int, divisor: int)
    by (nonlinear_arith)
    requires
        divisor > 0,
    ensures
        x / divisor > 0 <==> x >= divisor,
{
}

/// A held call whose strike does not exceed the spot price has a price that
/// is not negative, where `N(d2)` does not exceed `N(d1)`.
pub proof fn lemma_held_call_in_the_money_is_worth_something(
    option: OptionParams,
    token: TokenParams,
    values: DistributionValues,
)
    requires
        values.well_formed(),
        option.option_type == OptionType::LongCall,
        0 <= option.strike_price@ <= token.spot_price@,
        values.cdf_d2@ <= values.cdf_d1@,
    ensures
        price_of(option, token, values) >= 0,
{
    let one = SCALE as int;
    let spot = token.spot_price@;
    let strike = option.strike_price@;
    let cdf1 = values.cdf_d1@;
    let cdf2 = values.cdf_d2@;
    let discount = values.discount@;
    lemma_square_positive();
    assert(spot * cdf1 * one - strike * cdf2 * discount >= 0) by (nonlinear_arith)
        requires
            0 <= strike <= spot,
            0 <= cdf2 <= cdf1,
            0 <= discount <= one,
    ;
    lemma_nonnegative_quotient(spot * cdf1 * one - strike * cdf2 * discount, one * one);
}

/// The dearer the underlying, the dearer the held call and the cheaper the
/// held put, on the same distribution values.
pub proof fn lemma_price_monotonic_in_spot(
    option: OptionParams,
    token: TokenParams,
    values: DistributionValues,
    dearer_spot: int,
)
    requires
        values.well_formed(),
        !option.option_type.is_short(),
        token.spot_price@ <= dearer_spot <= i64::MAX,
    ensures
        option.option_type.is_call() ==> price_of(option, token, values) <= price_of(
            option,
            with_spot(token, dearer_spot),
            values,
        ),
        !option.option_type.is_call() ==> price_of(option, token, values) >= price_of(
            option,
            with_spot(token, dearer_spot),
            values,
        ),
{
    let one = SCALE as int;
    let spot = token.spot_price@;
    let strike = option.strike_price@;
    let cdf1 = values.cdf_d1@;
    let cdf2 = values.cdf_d2@;
    let discount = values.discount@;
    lemma_square_positive();
    assert(with_spot(token, dearer_spot).spot_price@ == dearer_spot);
    assert(spot * cdf1 * one <= dearer_spot * cdf1 * one) by (nonlinear_arith)
        requires
            spot <= dearer_spot,
            0 <= cdf1,
            0 <= one,
    ;
    assert(spot * (one - cdf1) * one <= dearer_spot * (one - cdf1) * one) by (nonlinear_arith)
        requires
            spot <= dearer_spot,
            0 <= one - cdf1,
            0 <= one,
    ;
    lemma_quotient_monotonic(
        spot * cdf1 * one - strike * cdf2 * discount,
        dearer_spot * cdf1 * one - strike * cdf2 * discount,
        one * one,
    );
    lemma_quotient_monotonic(
        strike * (one - cdf2) * discount - dearer_spot * (one - cdf1) * one,
        strike * (one - cdf2) * discount - spot * (one - cdf1) * one,
        one * one,
    );
}

/// `d2` never exceeds `d1`.
pub proof fn lemma_d2_at_most_d1(d1: int, volatility: int, years: int)
    requires
        volatility >= 0,
        years >= 0,
    ensures
        d2_of(d1, volatility, years) <= d1,
{
    assert(years * SCALE >= 0) by (nonlinear_arith)
        requires
            years >= 0,
            SCALE >= 0,
    ;
    lemma_floor_sqrt_exists(years * SCALE);
    let root = floor_sqrt(years * SCALE);
    assert(volatility * root >= 0) by (nonlinear_arith)
        requires
            volatility >= 0,
            root >= 0,
    ;
    lemma_nonnegative_quotient(volatility * root, SCALE as int);
}

/// The bounds of a price: a call is worth no more than the spot price and a
/// put no more than the strike, to the holder; neither is worth less than
/// minus the other amount; and the writer's bounds are the holder's,
/// mirrored.
pub proof fn lemma_price_bounds(
    option: OptionParams,
    token: TokenParams,
    values: DistributionValues,
)
    requires
        option.strike_price@ >= 0,
        token.spot_price@ >= 0,
        values.well_formed(),
    ensures
        option.option_type == OptionType::LongCall ==> -option.strike_price@ <= price_of(
            option,
            token,
            values,
        ) <= token.spot_price@,
        option.option_type == OptionType::LongPut ==> -token.spot_price@ <= price_of(
            option,
            token,
            values,
        ) <= option.strike_price@,
        option.option_type == OptionType::ShortCall ==> -token.spot_price@ <= price_of(
            option,
            token,
            values,
        ) <= option.strike_price@,
        option.option_type == OptionType::ShortPut ==> -option.strike_price@ <= price_of(
            option,
            token,
            values,
        ) <= token.spot_price@,
{
    let one = SCALE as int;
    let square = one * one;
    let spot = token.spot_price@;
    let strike = option.strike_price@;
    let cdf1 = values.cdf_d1@;
    let cdf2 = values.cdf_d2@;
    let discount = values.discount@;
    lemma_square_positive();
    lemma_weighted_bounds(spot, cdf1, one);
    lemma_weighted_bounds(strike, cdf2, discount);
    lemma_weighted_bounds(spot, one - cdf1, one);
    lemma_weighted_bounds(strike, one - cdf2, discount);
    let call_scaled = spot * cdf1 * one - strike * cdf2 * discount;
    let put_scaled = strike * (one - cdf2) * discount - spot * (one - cdf1) * one;
    lemma_floor_brackets(call_scaled, square);
    lemma_floor_brackets(put_scaled, square);
    assert(-strike <= call_scaled / square <= spot) by (nonlinear_arith)
        requires
            square > 0,
            -(strike * square) <= call_scaled <= spot * square,
            square * (call_scaled / square) <= call_scaled < square * (call_scaled / square)
                + square,
    ;
    assert(-spot <= put_scaled / square <= strike) by (nonlinear_arith)
        requires
            square > 0,
            -(spot * square) <= put_scaled <= strike * square,
            square * (put_scaled / square) <= put_scaled < square * (put_scaled / square) + square,
    ;
}

/// The bounds of the Greeks that have any: delta lies between minus one and
/// one, vega does not exceed the spot price in size, nor rho the strike.
pub proof fn lemma_greeks_bounds(
    option: OptionParams,
    token: TokenParams,
    market: MarketParams,
    values: DistributionValues,
)
    requires
        priceable(option, token, market),
        values.well_formed(),
    ensures
        -SCALE <= delta_of(option, values) <= SCALE,
        -token.spot_price@ <= vega_of(option, token, market, values) <= token.spot_price@,
        -option.strike_price@ <= rho_of(option, market, values) <= option.strike_price@,
{
    let one = SCALE as int;
    let square = one * one;
    let spot = token.spot_price@;
    let strike = option.strike_price@;
    let years = years_to_expiry(option, market);
    let root = root_years(option, market);
    lemma_years_and_root_bounds(option, token, market);
    lemma_square_positive();
    // vega
    lemma_weighted_bounds(spot, values.pdf_d1@, root);
    lemma_quotient_within(spot * values.pdf_d1@ * root, square, spot);
    lemma_nonnegative_quotient(spot * values.pdf_d1@ * root, square);
    // rho
    let weight = exercise_weight(option.option_type, values);
    lemma_weighted_bounds(strike, values.discount@, weight);
    lemma_quotient_within(strike * values.discount@ * weight, square, strike);
    lemma_nonnegative_quotient(strike * values.discount@ * weight, square);
    let present = discounted_strike(option, values);
    assert(0 <= present * years <= present * one) by (nonlinear_arith)
        requires
            0 <= present,
            0 <= years <= one,
    ;
    lemma_quotient_within(present * years, one, present);
    lemma_nonnegative_quotient(present * years, one);
}

/// What rho loses to rounding in two steps: a held call's rho lies less
/// than two billionths below the exact `K * tau * e^(-r * tau) * N(d2)`, and
/// never above it.
pub proof fn lemma_rho_rounding(
    option: OptionParams,
    token: TokenParams,
    market: MarketParams,
    values: DistributionValues,
)
    requires
        priceable(option, token, market),
        values.well_formed(),
        option.option_type == OptionType::LongCall,
    ensures
        ({
            let exact = option.strike_price@ * values.discount@ * values.cdf_d2@ * years_to_expiry(
                option,
                market,
            );
            let cube = SCALE * SCALE * SCALE;
            rho_of(option, market, values) * cube <= exact < (rho_of(option, market, values) + 2)
                * cube
        }),
{
    let one = SCALE as int;
    let square = one * one;
    let scaled = option.strike_price@ * values.discount@ * values.cdf_d2@;
    let present = discounted_strike(option, values);
    let years = years_to_expiry(option, market);
    let rho = rho_of(option, market, values);
    lemma_years_and_root_bounds(option, token, market);
    lemma_square_positive();
    lemma_floor_brackets(scaled, square);
    lemma_floor_brackets(present * years, one);
    assert(rho * (one * one * one) <= scaled * years < (rho + 2) * (one * one * one))
        by (nonlinear_arith)
        requires
            one > 0,
            square == one * one,
            0 <= years <= one,
            square * present <= scaled < square * present + square,
            one * rho <= present * years < one * rho + one,
    ;
}

/// What the interest term of theta loses to rounding in two steps: it lies
/// below the exact `r * K * e^(-r * tau) * w` by less than one billionth and
/// the rate, and never above it.
pub proof fn lemma_strike_carry_rounding(
    option: OptionParams,
    token: TokenParams,
    values: DistributionValues,
)
    requires
        token.risk_free_rate@ >= 0,
    ensures
        ({
            let exact = token.risk_free_rate@ * (option.strike_price@ * values.discount@
                * exercise_weight(option.option_type, values));
            let cube = SCALE * SCALE * SCALE;
            let carry = strike_carry(option, token, values);
            carry * cube <= exact < (carry + 1) * cube + token.risk_free_rate@ * (SCALE * SCALE)
        }),
{
    let one = SCALE as int;
    let square = one * one;
    let rate = token.risk_free_rate@;
    let scaled = option.strike_price@ * values.discount@ * exercise_weight(
        option.option_type,
        values,
    );
    let present = discounted_strike(option, values);
    let carry = strike_carry(option, token, values);
    lemma_square_positive();
    lemma_floor_brackets(scaled, square);
    lemma_floor_brackets(rate * present, one);
    assert(carry * (one * one * one) <= rate * scaled < (carry + 1) * (one * one * one) + rate
        * square) by (nonlinear_arith)
        requires
            one > 0,
            square == one * one,
            rate >= 0,
            square * present <= scaled < square * present + square,
            one * carry <= rate * present < one * carry + one,
    ;
}

/// An expiry at least a second away is a positive time away in years.
pub proof fn lemma_years_positive(initial_expiry: int, current_timestamp: int)
    requires
        initial_expiry > current_timestamp,
    ensures
        time_to_expiry(initial_expiry, current_timestamp) >= 1,
{
    let seconds = initial_expiry - current_timestamp;
    assert(seconds * SCALE >= SCALE) by (nonlinear_arith)
        requires
            seconds >= 1,
            SCALE >= 0,
    ;
}

/// The later the expiry, the longer the time to it; the later the moment
/// of valuation, the shorter.
pub proof fn lemma_time_to_expiry_monotonic(
    earlier_expiry: int,
    later_expiry: int,
    earlier_timestamp: int,
    later_timestamp: int,
)
    requires
        earlier_expiry <= later_expiry,
        earlier_timestamp <= later_timestamp,
    ensures
        time_to_expiry(earlier_expiry, later_timestamp) <= time_to_expiry(
            later_expiry,
            earlier_timestamp,
        ),
{
    let short = earlier_expiry - later_timestamp;
    let long = later_expiry - earlier_timestamp;
    assert(short * SCALE <= long * SCALE) by (nonlinear_arith)
        requires
            short <= long,
            SCALE >= 0,
    ;
}

} // verus!
