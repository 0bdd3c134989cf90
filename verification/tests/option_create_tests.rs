use sos_programs::black_scholes_model::DistributionValues;
use sos_programs::errors::OptionError;
use sos_programs::fixed::Fixed;
use sos_programs::option_create::{
    open_option, prepare_option, MarketInput, OptionInput, TokenInput,
};
use sos_programs::types::{OptionGreeks, OptionStatus, OptionType};

fn fixed(x: f64) -> Fixed {
    Fixed { raw: (x * 1e9).round() as i64 }
}

fn inputs() -> (OptionInput, TokenInput, MarketInput) {
    (
        OptionInput {
            option_type: OptionType::LongCall,
            strike_price: fixed(100.0),
            expiry_timestamp: 1_731_536_000,
        },
        TokenInput { spot_price: fixed(100.0), volatility: fixed(0.2), risk_free_rate: fixed(0.05) },
        MarketInput { usdc_risk_free_rate: fixed(0.04), time_in_years: fixed(1.0) },
    )
}

fn values() -> DistributionValues {
    DistributionValues {
        cdf_d1: fixed(0.6),
        cdf_d2: fixed(0.5),
        pdf_d1: fixed(0.4),
        discount: fixed(0.9),
    }
}

#[test]
fn prepared_terms_carry_the_submission_and_the_clock() {
    let (option_input, token_input, market_input) = inputs();
    let now = 1_700_000_000;
    let (option_params, token_params, market_params) =
        prepare_option(&option_input, &token_input, &market_input, now).unwrap();

    assert_eq!(option_params.option_type, OptionType::LongCall);
    assert_eq!(option_params.strike_price, fixed(100.0));
    assert_eq!(option_params.initial_time_to_expiry, 1_731_536_000);
    assert_eq!(option_params.creation_price, fixed(0.0));
    let zero = fixed(0.0);
    assert_eq!(
        option_params.greeks,
        OptionGreeks { delta: zero, theta: zero, gamma: zero, vega: zero, rho: zero }
    );
    assert_eq!(token_params.spot_price, fixed(100.0));
    assert_eq!(token_params.historical_volatility, fixed(0.2));
    assert_eq!(token_params.risk_free_rate, fixed(0.05));
    assert_eq!(token_params.timestamp, now);
    assert_eq!(market_params.usdc_risk_free_rate, fixed(0.04));
    assert_eq!(market_params.time_in_years, fixed(1.0));
    assert_eq!(market_params.current_timestamp, now);
}

#[test]
fn a_submission_that_breaks_a_rule_is_not_prepared() {
    let (option_input, token_input, market_input) = inputs();
    assert_eq!(
        prepare_option(&option_input, &token_input, &market_input, 1_731_536_000),
        Err(OptionError::InvalidExpiryTimestamp)
    );
    // More than a year ahead of the expiry.
    assert_eq!(
        prepare_option(&option_input, &token_input, &market_input, 1_600_000_000),
        Err(OptionError::InvalidDuration)
    );
    let (mut option_input, mut token_input, market_input) = inputs();
    option_input.strike_price = fixed(0.0);
    assert_eq!(
        prepare_option(&option_input, &token_input, &market_input, 1_700_000_000),
        Err(OptionError::InvalidStrikePrice)
    );
    option_input.strike_price = fixed(100.0);
    token_input.volatility = fixed(0.001);
    assert_eq!(
        prepare_option(&option_input, &token_input, &market_input, 1_700_000_000),
        Err(OptionError::InvalidVolatility)
    );
    token_input.volatility = fixed(0.2);
    token_input.spot_price = fixed(0.0);
    assert_eq!(
        prepare_option(&option_input, &token_input, &market_input, 1_700_000_000),
        Err(OptionError::InvalidSpotPrice)
    );
    token_input.spot_price = fixed(100.0);
    token_input.risk_free_rate = fixed(-0.05);
    assert_eq!(
        prepare_option(&option_input, &token_input, &market_input, 1_700_000_000),
        Err(OptionError::InvalidRiskFreeRate)
    );
}

#[test]
fn an_opened_option_holds_the_price_and_greeks_of_its_creation() {
    let (option_input, token_input, market_input) = inputs();
    // Exactly one year before the expiry.
    let now = 1_700_000_000;
    let (option_params, token_params, market_params) =
        prepare_option(&option_input, &token_input, &market_input, now).unwrap();
    let owner = [7u8; 32];
    let account =
        open_option(owner, &option_params, &token_params, &market_params, &values()).unwrap();

    assert_eq!(account.owner, owner);
    assert_eq!(account.option_type, OptionType::LongCall);
    assert_eq!(account.strike_price, fixed(100.0));
    assert_eq!(account.expiry_timestamp, 1_731_536_000);
    assert_eq!(account.status, OptionStatus::Open);
    assert_eq!(account.spot_price_at_creation, fixed(100.0));
    assert_eq!(account.creation_price, fixed(15.0));
    assert_eq!(
        account.greeks,
        OptionGreeks {
            delta: fixed(0.6),
            gamma: fixed(0.02),
            theta: fixed(-6.25),
            vega: fixed(40.0),
            rho: fixed(45.0),
        }
    );
}

#[test]
fn an_option_whose_greeks_do_not_fit_is_not_opened() {
    let (option_input, mut token_input, market_input) = inputs();
    token_input.spot_price = Fixed { raw: 1 };
    token_input.volatility = fixed(0.01);
    let now = 1_731_536_000 - 86_400;
    let (option_params, token_params, market_params) =
        prepare_option(&option_input, &token_input, &market_input, now).unwrap();
    assert!(open_option([0u8; 32], &option_params, &token_params, &market_params, &values())
        .is_none());
}
