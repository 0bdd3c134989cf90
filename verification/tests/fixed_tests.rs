use sos_programs::black_scholes_model::{calc_time_to_expiry, is_option_expired};
use sos_programs::fixed::{floor_quotient, integer_sqrt, weighted, Fixed, SCALE};

#[test]
fn integer_sqrt_rounds_down() {
    assert_eq!(integer_sqrt(0), 0);
    assert_eq!(integer_sqrt(1), 1);
    assert_eq!(integer_sqrt(2), 1);
    assert_eq!(integer_sqrt(3), 1);
    assert_eq!(integer_sqrt(4), 2);
    assert_eq!(integer_sqrt(15), 3);
    assert_eq!(integer_sqrt(16), 4);
    assert_eq!(integer_sqrt(17), 4);
    assert_eq!(integer_sqrt(999_999_999_999_999_999), 999_999_999);
    assert_eq!(integer_sqrt(1_000_000_000_000_000_000), 1_000_000_000);
}

#[test]
fn integer_sqrt_of_the_largest_input() {
    assert_eq!(integer_sqrt(u128::MAX), u64::MAX);
    let below: u128 = (u64::MAX as u128) * (u64::MAX as u128) - 1;
    assert_eq!(integer_sqrt(below), u64::MAX - 1);
}

#[test]
fn integer_sqrt_brackets_its_input() {
    let mut x: u128 = 1;
    for _ in 0..120 {
        let root = integer_sqrt(x) as u128;
        assert!(root * root <= x);
        assert!((root + 1) * (root + 1) > x);
        x = x * 2 + 1;
    }
}

#[test]
fn fixed_sqrt_exact_values() {
    assert_eq!(Fixed { raw: 0 }.sqrt(), Fixed { raw: 0 });
    assert_eq!(Fixed { raw: SCALE }.sqrt(), Fixed { raw: SCALE });
    assert_eq!(Fixed { raw: 4 * SCALE }.sqrt(), Fixed { raw: 2 * SCALE });
    assert_eq!(Fixed { raw: 250_000_000 }.sqrt(), Fixed { raw: 500_000_000 });
    // sqrt(2) = 1.41421356237...
    assert_eq!(Fixed { raw: 2 * SCALE }.sqrt(), Fixed { raw: 1_414_213_562 });
    // One billionth: sqrt(10^-9) = 0.0000316227766...
    assert_eq!(Fixed { raw: 1 }.sqrt(), Fixed { raw: 31_622 });
    assert_eq!(Fixed { raw: i64::MAX }.sqrt(), Fixed { raw: 96_038_388_349_944 });
}

#[test]
fn floor_quotient_rounds_towards_minus_infinity() {
    assert_eq!(floor_quotient(7, 2), 3);
    assert_eq!(floor_quotient(-7, 2), -4);
    assert_eq!(floor_quotient(-8, 2), -4);
    assert_eq!(floor_quotient(0, 5), 0);
    assert_eq!(floor_quotient(-1, 1_000_000_000), -1);
    assert_eq!(floor_quotient(i128::MIN, 1), i128::MIN);
    assert_eq!(floor_quotient(i128::MAX, i128::MAX), 1);
}

#[test]
fn weighted_multiplies_three_factors() {
    assert_eq!(weighted(0, SCALE, SCALE), 0);
    assert_eq!(weighted(7, 3, 2), 42);
    assert_eq!(
        weighted(i64::MAX, SCALE, SCALE),
        9_223_372_036_854_775_807_000_000_000_000_000_000
    );
}

#[test]
fn time_to_expiry_exact_values() {
    // One year.
    assert_eq!(calc_time_to_expiry(31_536_000, 0), Some(Fixed { raw: 1_000_000_000 }));
    // Thirty days: 30 / 365 = 0.0821917808...
    assert_eq!(calc_time_to_expiry(2_592_000, 0), Some(Fixed { raw: 82_191_780 }));
    // One day: 1 / 365 = 0.0027397260...
    assert_eq!(calc_time_to_expiry(1_700_086_400, 1_700_000_000), Some(Fixed { raw: 2_739_726 }));
    // One second: 31.7 billionths of a year.
    assert_eq!(calc_time_to_expiry(1, 0), Some(Fixed { raw: 31 }));
    assert_eq!(calc_time_to_expiry(5, 5), Some(Fixed { raw: 0 }));
}

#[test]
fn time_to_expiry_past_the_expiry_is_negative_and_rounded_down() {
    assert_eq!(calc_time_to_expiry(0, 1), Some(Fixed { raw: -32 }));
    assert_eq!(calc_time_to_expiry(0, 31_536_000), Some(Fixed { raw: -1_000_000_000 }));
}

#[test]
fn time_to_expiry_that_does_not_fit() {
    assert_eq!(calc_time_to_expiry(i64::MAX, 0), None);
    assert_eq!(calc_time_to_expiry(i64::MAX, i64::MIN), None);
    assert_eq!(calc_time_to_expiry(i64::MIN, i64::MAX), None);
    // The largest number of seconds whose years still fit.
    let limit: i64 = 290_868_260_554_252_209;
    assert_eq!(calc_time_to_expiry(limit, 0), Some(Fixed { raw: 9223372036854775780 }));
    assert_eq!(calc_time_to_expiry(limit + 1, 0), None);
}

#[test]
fn expired_exactly_from_the_expiry_on() {
    assert!(!is_option_expired(100, 99));
    assert!(is_option_expired(100, 100));
    assert!(is_option_expired(100, 101));
    assert!(is_option_expired(i64::MIN, i64::MIN));
    assert!(!is_option_expired(i64::MAX, i64::MIN));
    assert!(is_option_expired(i64::MIN, i64::MAX));
    assert!(is_option_expired(-5, -5));
    assert!(!is_option_expired(-5, -6));
}
