//! Decimal fixed-point numbers with nine fractional digits.
//!
//! Every real-valued quantity of the library (prices, rates, volatilities,
//! probabilities, years) is a [`Fixed`]: a signed count of billionths. All
//! contracts are stated over that count as a mathematical integer, and every
//! rounding is a floor.

use vstd::prelude::*;

verus! {

/// How many raw units make up `1.0`.
pub const SCALE: i64 = 1_000_000_000;

/// A signed decimal number, stored as a count of billionths: `raw / 10^9`.
#[derive(Clone, Copy, Debug, PartialEq, Eq, Structural)]
pub struct Fixed {
    pub raw: i64,
}

impl View for Fixed {
    type V = int;

    /// The number of billionths.
    open spec fn view(&self) -> int {
        self.raw as int
    }
}

/// Whether a number of billionths fits a [`Fixed`].
pub open spec fn fits(billionths: int) -> bool {
    i64::MIN <= billionths <= i64::MAX
}

/// A product of two bounded numbers is bounded by the product of the bounds.
pub proof fn lemma_product_within(a: int, b: int, a_bound: int, b_bound: int)
    by (nonlinear_arith)
    requires
        -a_bound <= a <= a_bound,
        -b_bound <= b <= b_bound,
    ensures
        -(a_bound * b_bound) <= a * b <= a_bound * b_bound,
{
}

/// A product of two bounded non-negative numbers is non-negative and bounded
/// by the product of the bounds.
pub proof fn lemma_product_nonnegative(a: int, b: int, a_bound: int, b_bound: int)
    by (nonlinear_arith)
    requires
        0 <= a <= a_bound,
        0 <= b <= b_bound,
    ensures
        0 <= a * b <= a_bound * b_bound,
{
}

/// Where the dividend lies within `bound` times the positive divisor, the
/// quotient lies within `bound`.
pub proof fn lemma_quotient_within(x: int, divisor: int, bound: int)
    by (nonlinear_arith)
    requires
        divisor > 0,
        -(bound * divisor) <= x <= bound * divisor,
    ensures
        -bound <= x / divisor <= bound,
{
}

/// `x / divisor`, rounded down, for a positive divisor.
pub fn floor_quotient(x: i128, divisor: i128) -> (quotient: i128)
    requires
        divisor > 0,
    ensures
        quotient == x / divisor,
        x >= 0 ==> 0 <= quotient <= x,
{
    assert(i128::MIN <= (x as int) / (divisor as int) <= i128::MAX && (x >= 0 ==> 0 <= (x as int)
        / (divisor as int) <= x)) by (nonlinear_arith)
        requires
            divisor > 0,
            i128::MIN <= x <= i128::MAX,
    ;
    match x.checked_div_euclid(divisor) {
        Some(quotient) => quotient,
        None => 0,
    }
}

/// `root` is the integer square root of `x`, rounded down.
pub open spec fn is_floor_sqrt(root: int, x: int) -> bool {
    &&& 0 <= root
    &&& root * root <= x
    &&& x < (root + 1) * (root + 1)
}

/// The integer square root of `x`, rounded down (meaningful for `x >= 0`).
pub open spec fn floor_sqrt(x: int) -> int {
    choose|root: int| is_floor_sqrt(root, x)
}

/// A number has at most one floor square root.
pub proof fn lemma_floor_sqrt_unique(a: int, b: int, x: int)
    requires
        is_floor_sqrt(a, x),
        is_floor_sqrt(b, x),
    ensures
        a == b,
{
    if a < b {
        assert((a + 1) * (a + 1) <= b * b) by (nonlinear_arith)
            requires
                0 <= a,
                a + 1 <= b,
        ;
    } else if b < a {
        assert((b + 1) * (b + 1) <= a * a) by (nonlinear_arith)
            requires
                0 <= b,
                b + 1 <= a,
        ;
    }
}

/// Every number that is not negative has a floor square root, and
/// [`floor_sqrt`] is it.
pub proof fn lemma_floor_sqrt_exists(x: int)
    requires
        x >= 0,
    ensures
        is_floor_sqrt(floor_sqrt(x), x),
    decreases x,
{
    if x == 0 {
        assert(is_floor_sqrt(0, 0));
    } else {
        lemma_floor_sqrt_exists(x - 1);
        let below = floor_sqrt(x - 1);
        if (below + 1) * (below + 1) <= x {
            assert(x < (below + 2) * (below + 2)) by (nonlinear_arith)
                requires
                    0 <= below,
                    x - 1 < (below + 1) * (below + 1),
            ;
            assert(is_floor_sqrt(below + 1, x));
        } else {
            assert(below * below <= x) by (nonlinear_arith)
                requires
                    below * below <= x - 1,
            ;
            assert(is_floor_sqrt(below, x));
        }
    }
}

/// Whatever satisfies [`is_floor_sqrt`] is the value of [`floor_sqrt`].
pub proof fn lemma_floor_sqrt_is(root: int, x: int)
    requires
        is_floor_sqrt(root, x),
    ensures
        floor_sqrt(x) == root,
{
    lemma_floor_sqrt_unique(floor_sqrt(x), root, x);
}

/// The square root of a number between one billionth and one lies between
/// one billionth and one: for `1 <= x <= SCALE`, so does the floor square
/// root of `x * SCALE`.
pub proof fn lemma_sqrt_of_fraction(x: int)
    requires
        1 <= x <= SCALE,
    ensures
        1 <= floor_sqrt(x * SCALE) <= SCALE,
{
    let root = floor_sqrt(x * SCALE);
    assert(1 <= x * SCALE <= SCALE * SCALE) by (nonlinear_arith)
        requires
            1 <= x <= SCALE,
    ;
    lemma_floor_sqrt_exists(x * SCALE);
    assert(1 <= root <= SCALE) by (nonlinear_arith)
        requires
            0 <= root,
            root * root <= SCALE * SCALE,
            (root + 1) * (root + 1) > 1,
            SCALE >= 0,
    ;
}

/// The square root of `x`, rounded down to an integer, by bisection.
pub fn integer_sqrt(x: u128) -> (root: u64)
    ensures
        is_floor_sqrt(root as int, x as int),
        root == floor_sqrt(x as int),
{
    let mut lo: u128 = 0;
    let mut hi: u128 = 0x1_0000_0000_0000_0000;
    assert(x < hi * hi) by (nonlinear_arith)
        requires
            x <= u128::MAX,
            hi == 0x1_0000_0000_0000_0000,
    ;
    while hi - lo > 1
        invariant
            lo < hi <= 0x1_0000_0000_0000_0000,
            lo * lo <= x,
            x < hi * hi,
        decreases hi - lo,
    {
        let mid: u128 = lo + (hi - lo) / 2;
        assert(mid * mid <= 0xffff_ffff_ffff_ffff * 0xffff_ffff_ffff_ffff) by (nonlinear_arith)
            requires
                0 <= mid <= 0xffff_ffff_ffff_ffff,
        ;
        let square: u128 = mid * mid;
        if square <= x {
            lo = mid;
        } else {
            hi = mid;
        }
    }
    proof {
        lemma_floor_sqrt_is(lo as int, x as int);
    }
    lo as u64
}

/// `amount * first * second` for a non-negative amount and two factors
/// between zero and one: at most `amount` ones squared.
pub fn weighted(amount: i64, first: i64, second: i64) -> (product: i128)
    requires
        0 <= amount,
        0 <= first <= SCALE,
        0 <= second <= SCALE,
    ensures
        product == amount * first * second,
        0 <= product <= amount * (SCALE * SCALE),
        product <= 9_223_372_036_854_775_807_000_000_000_000_000_000,
{
    proof {
        lemma_product_nonnegative(amount as int, first as int, 0x7fff_ffff_ffff_ffff, 1_000_000_000);
        lemma_product_nonnegative(
            amount * first,
            second as int,
            9_223_372_036_854_775_807_000_000_000,
            1_000_000_000,
        );
        assert(amount * first * second <= amount * (SCALE * SCALE)) by (nonlinear_arith)
            requires
                0 <= amount,
                0 <= first <= SCALE,
                0 <= second <= SCALE,
        ;
    }
    let partial: i128 = (amount as i128) * (first as i128);
    partial * (second as i128)
}

impl Fixed {
    /// The square root, rounded down to a whole number of billionths:
    /// the largest `root` with `(root / 10^9)^2 <= self / 10^9`.
    pub fn sqrt(self) -> (root: Fixed)
        requires
            self@ >= 0,
        ensures
            is_floor_sqrt(root@, self@ * SCALE),
            root@ == floor_sqrt(self@ * SCALE),
    {
        let scaled: u128 = (self.raw as u128) * (SCALE as u128);
        let r: u64 = integer_sqrt(scaled);
        assert(r <= i64::MAX) by (nonlinear_arith)
            requires
                r * r <= scaled,
                scaled <= 0x7fff_ffff_ffff_ffff * 1_000_000_000,
                r >= 0,
        ;
        Fixed { raw: r as i64 }
    }
}

} // verus!
