//! Threshold engine: conversions between collateral and wrapped tokens at an
//! exchange rate, and the collateral-ratio checks built on them.
use vstd::prelude::*;

use crate::vault::{Balance, UnsignedFixedPoint, VaultError};

verus! {

/// Fixed-point scale of every ratio: `SCALE` stands for 100%.
pub const SCALE: u128 = 100_000;

/// Oracle rate: `collateral` units of collateral are worth `wrapped` units of
/// the wrapped token.
#[derive(Clone, Copy, Debug, PartialEq, Eq, Structural)]
pub struct ExchangeRate {
    pub collateral: u128,
    pub wrapped: u128,
}

impl ExchangeRate {
    /// Both sides of the rate are positive.
    pub open spec fn wf(self) -> bool {
        self.collateral > 0 && self.wrapped > 0
    }
}

/// Wrapped value of `c` units of collateral, rounded down.
pub open spec fn collateral_in_wrapped(c: int, rate: ExchangeRate) -> int {
    c * rate.wrapped / rate.collateral as int
}

/// Collateral value of `w` wrapped units, rounded down.
pub open spec fn wrapped_in_collateral(w: int, rate: ExchangeRate) -> int {
    w * rate.collateral / rate.wrapped as int
}

/// `amount` scaled by the fixed-point `ratio`, rounded down.
pub open spec fn scaled(amount: int, ratio: int) -> int {
    amount * ratio / SCALE as int
}

/// Largest number of wrapped tokens that collateral `c` backs at `threshold`;
/// zero where the threshold is zero.
pub open spec fn max_tokens_spec(c: int, rate: ExchangeRate, threshold: int) -> int {
    if threshold == 0 {
        0
    } else {
        collateral_in_wrapped(c, rate) * SCALE / threshold
    }
}

/// The wrapped value of `c` and `max_tokens_spec` fit in a `u128`.
pub open spec fn max_tokens_fits(c: int, rate: ExchangeRate, threshold: int) -> bool {
    &&& collateral_in_wrapped(c, rate) <= u128::MAX
    &&& max_tokens_spec(c, rate, threshold) <= u128::MAX
}

/// `tokens` need more than collateral `c` backs at `threshold`.
pub open spec fn below_threshold_spec(c: int, tokens: int, rate: ExchangeRate, threshold: int) -> bool {
    max_tokens_spec(c, rate, threshold) < tokens
}

/// Collateral locked by `tokens` at `threshold`, capped at `total`.
pub open spec fn used_collateral_spec(total: int, tokens: int, rate: ExchangeRate, threshold: int) -> int {
    let needed = scaled(wrapped_in_collateral(tokens, rate), threshold);
    if needed < total {
        needed
    } else {
        total
    }
}

/// The collateral value of `tokens` and its scaling by `threshold` fit in a
/// `u128`.
pub open spec fn used_collateral_fits(tokens: int, rate: ExchangeRate, threshold: int) -> bool {
    &&& wrapped_in_collateral(tokens, rate) <= u128::MAX
    &&& scaled(wrapped_in_collateral(tokens, rate), threshold) <= u128::MAX
}

/// Share `numerator / denominator` of `collateral`, rounded down; all of it
/// where both are zero.
pub open spec fn proportion_spec(collateral: int, numerator: int, denominator: int) -> int {
    if numerator == 0 && denominator == 0 {
        collateral
    } else {
        collateral * numerator / denominator
    }
}

/// Quotient and remainder of `r * b` divided by `d`, for `r < d`, computed
/// without a wider integer type.
fn mul_div_rem(r: u128, b: u128, d: u128) -> (qr: (u128, u128))
    requires
        r < d,
    ensures
        qr.0 * d + qr.1 == r * b,
        qr.1 < d,
    decreases b,
{
    if b == 0 {
        proof {
            assert(r * 0 == 0) by (nonlinear_arith);
        }
        return (0, 0);
    }
    let (q0, r0) = mul_div_rem(r, b / 2, d);
    let ghost half = (b / 2) as int;
    let ghost bit = (b % 2) as int;
    assert(b == 2 * half + bit);
    // doubling: q0 * d + r0 == r * half, so 2 * q0 * d + 2 * r0 == r * 2 * half
    proof {
        assert(r * (2 * half) == 2 * (r * half)) by (nonlinear_arith);
        assert(r * b == r * (2 * half) + r * bit) by (nonlinear_arith)
            requires b == 2 * half + bit;
        assert(r * b < d * b) by (nonlinear_arith)
            requires r < d, b > 0;
        assert(q0 * d <= r * half) by (nonlinear_arith)
            requires q0 * d + r0 == r * half, r0 >= 0;
        assert(2 * q0 * d + d <= r * b + d) by (nonlinear_arith)
            requires q0 * d <= r * half, r * b == r * (2 * half) + r * bit, r * (2 * half) == 2 * (r * half),
                r * bit >= 0;
        assert(2 * q0 < b) by (nonlinear_arith)
            requires 2 * q0 * d <= r * b, r * b < d * b, d > 0;
    }
    let (q1, r1) = if r0 >= d - r0 {
        (q0 + q0 + 1, r0 - (d - r0))
    } else {
        (q0 + q0, r0 + r0)
    };
    proof {
        assert(q1 * d + r1 == r * (2 * half)) by (nonlinear_arith)
            requires q0 * d + r0 == r * half, r * (2 * half) == 2 * (r * half),
                (q1 == 2 * q0 + 1 && r1 == 2 * r0 - d) || (q1 == 2 * q0 && r1 == 2 * r0);
    }
    if b % 2 == 0 {
        proof {
            assert(r * bit == 0) by (nonlinear_arith) requires bit == 0;
        }
        (q1, r1)
    } else {
        proof {
            assert(r * bit == r) by (nonlinear_arith) requires bit == 1;
            assert(q1 * d <= r * b) by (nonlinear_arith)
                requires q1 * d + r1 == r * (2 * half), r1 >= 0, r * b == r * (2 * half) + r * bit, r * bit >= 0;
            assert(q1 < b) by (nonlinear_arith)
                requires q1 * d <= r * b, r * b < d * b, d > 0;
        }
        if r1 >= d - r {
            proof {
                assert((q1 + 1) * d <= r * b) by (nonlinear_arith)
                    requires q1 * d + r1 == r * (2 * half), r * b == r * (2 * half) + r, r1 >= d - r;
                assert(q1 + 1 < b) by (nonlinear_arith)
                    requires (q1 + 1) * d <= r * b, r * b < d * b, d > 0;
                assert((q1 + 1) * d + (r1 - (d - r)) == r * b) by (nonlinear_arith)
                    requires q1 * d + r1 == r * (2 * half), r * b == r * (2 * half) + r;
            }
            (q1 + 1, r1 - (d - r))
        } else {
            proof {
                assert(q1 * d + (r1 + r) == r * b) by (nonlinear_arith)
                    requires q1 * d + r1 == r * (2 * half), r * b == r * (2 * half) + r;
            }
            (q1, r1 + r)
        }
    }
}

/// `a * b / d` rounded down.
pub open spec fn mul_div_spec(a: int, b: int, d: int) -> int {
    a * b / d
}

/// `a * b / d` rounded down, where it fits in a `u128`; the intermediate
/// product may exceed a `u128`.
pub fn mul_div(a: u128, b: u128, d: u128) -> (r: Result<u128, VaultError>)
    requires
        d > 0,
    ensures
        mul_div_spec(a as int, b as int, d as int) <= u128::MAX ==> r == Ok::<u128, VaultError>(
            mul_div_spec(a as int, b as int, d as int) as u128,
        ),
        mul_div_spec(a as int, b as int, d as int) > u128::MAX ==> r == Err::<u128, VaultError>(
            VaultError::ArithmeticOverflow,
        ),
{
    let q = a / d;
    let m = a % d;
    let (low, _rest) = mul_div_rem(m, b, d);
    proof {
        vstd::arithmetic::div_mod::lemma_fundamental_div_mod(a as int, d as int);
        assert(a == q * d + m) by (nonlinear_arith)
            requires a == d * q + m;
        assert(a * b == q * b * d + m * b) by (nonlinear_arith)
            requires a == q * d + m;
        assert(a * b == (q * b + low) * d + _rest) by (nonlinear_arith)
            requires a * b == q * b * d + m * b, low * d + _rest == m * b;
        let ab = a * b;
        let dd = d as int;
        assert(ab / dd == q * b + low) by (nonlinear_arith)
            requires ab == (q * b + low) * dd + _rest, 0 <= _rest < dd, dd > 0;
        assert(q * b >= 0 && low >= 0) by (nonlinear_arith)
            requires q >= 0, b >= 0, low >= 0;
    }
    let high = match q.checked_mul(b) {
        Some(h) => h,
        None => return Err(VaultError::ArithmeticOverflow),
    };
    match high.checked_add(low) {
        Some(v) => Ok(v),
        None => Err(VaultError::ArithmeticOverflow),
    }
}

/// Converts collateral into wrapped tokens at `rate`, rounding down.
pub fn collateral_to_wrapped(amount: Balance, rate: ExchangeRate) -> (r: Result<Balance, VaultError>)
    requires
        rate.wf(),
    ensures
        collateral_in_wrapped(amount as int, rate) <= u128::MAX ==> r == Ok::<Balance, VaultError>(
            collateral_in_wrapped(amount as int, rate) as Balance,
        ),
        collateral_in_wrapped(amount as int, rate) > u128::MAX ==> r == Err::<Balance, VaultError>(
            VaultError::ArithmeticOverflow,
        ),
{
    mul_div(amount, rate.wrapped, rate.collateral)
}

/// Converts wrapped tokens into collateral at `rate`, rounding down.
pub fn wrapped_to_collateral(amount: Balance, rate: ExchangeRate) -> (r: Result<Balance, VaultError>)
    requires
        rate.wf(),
    ensures
        wrapped_in_collateral(amount as int, rate) <= u128::MAX ==> r == Ok::<Balance, VaultError>(
            wrapped_in_collateral(amount as int, rate) as Balance,
        ),
        wrapped_in_collateral(amount as int, rate) > u128::MAX ==> r == Err::<Balance, VaultError>(
            VaultError::ArithmeticOverflow,
        ),
{
    mul_div(amount, rate.collateral, rate.wrapped)
}

/// Multiplies `amount` by the fixed-point `ratio`, rounding down.
pub fn checked_mul_fixed(amount: Balance, ratio: UnsignedFixedPoint) -> (r: Result<Balance, VaultError>)
    ensures
        scaled(amount as int, ratio as int) <= u128::MAX ==> r == Ok::<Balance, VaultError>(
            scaled(amount as int, ratio as int) as Balance,
        ),
        scaled(amount as int, ratio as int) > u128::MAX ==> r == Err::<Balance, VaultError>(
            VaultError::ArithmeticOverflow,
        ),
{
    mul_div(amount, ratio, SCALE)
}

/// Largest number of wrapped tokens that `collateral` backs at `threshold`:
/// its wrapped value divided by the threshold, rounded down, and zero for a
/// zero threshold.
pub fn max_tokens_for_collateral(collateral: Balance, rate: ExchangeRate, threshold: UnsignedFixedPoint) -> (r: Result<
    Balance,
    VaultError,
>)
    requires
        rate.wf(),
    ensures
        max_tokens_fits(collateral as int, rate, threshold as int) ==> r == Ok::<Balance, VaultError>(
            max_tokens_spec(collateral as int, rate, threshold as int) as Balance,
        ),
        !max_tokens_fits(collateral as int, rate, threshold as int) ==> r == Err::<Balance, VaultError>(
            VaultError::ArithmeticOverflow,
        ),
        r is Ok ==> r->Ok_0 == max_tokens_spec(collateral as int, rate, threshold as int),
{
    let wrapped = collateral_to_wrapped(collateral, rate)?;
    if threshold == 0 {
        Ok(0)
    } else {
        mul_div(wrapped, SCALE, threshold)
    }
}

/// Whether `tokens` need more than `collateral` backs at `threshold`.
pub fn is_below_threshold(
    collateral: Balance,
    tokens: Balance,
    rate: ExchangeRate,
    threshold: UnsignedFixedPoint,
) -> (r: Result<bool, VaultError>)
    requires
        rate.wf(),
    ensures
        max_tokens_fits(collateral as int, rate, threshold as int) ==> r == Ok::<bool, VaultError>(
            below_threshold_spec(collateral as int, tokens as int, rate, threshold as int),
        ),
        !max_tokens_fits(collateral as int, rate, threshold as int) ==> r == Err::<bool, VaultError>(VaultError::ArithmeticOverflow),
{
    let max = max_tokens_for_collateral(collateral, rate, threshold)?;
    Ok(max < tokens)
}

/// Collateral that `tokens` lock at `threshold`: their collateral value
/// scaled by the threshold, capped at `total_collateral`.
pub fn used_collateral(
    total_collateral: Balance,
    tokens: Balance,
    rate: ExchangeRate,
    threshold: UnsignedFixedPoint,
) -> (r: Result<Balance, VaultError>)
    requires
        rate.wf(),
    ensures
        used_collateral_fits(tokens as int, rate, threshold as int) ==> r == Ok::<Balance, VaultError>(
            used_collateral_spec(total_collateral as int, tokens as int, rate, threshold as int) as Balance,
        ),
        !used_collateral_fits(tokens as int, rate, threshold as int) ==> r == Err::<Balance, VaultError>(
            VaultError::ArithmeticOverflow,
        ),
        r is Ok ==> r->Ok_0 <= total_collateral,
{
    let in_collateral = wrapped_to_collateral(tokens, rate)?;
    let needed = checked_mul_fixed(in_collateral, threshold)?;
    if needed < total_collateral {
        Ok(needed)
    } else {
        Ok(total_collateral)
    }
}

/// Share `numerator / denominator` of `collateral`, rounded down. Both zero
/// gives all of it; a zero denominator alone is an error. Where the share is
/// at most the whole (`numerator <= denominator`), it always succeeds.
pub fn calculate_collateral(collateral: Balance, numerator: Balance, denominator: Balance) -> (r: Result<
    Balance,
    VaultError,
>)
    ensures
        numerator == 0 && denominator == 0 ==> r == Ok::<Balance, VaultError>(collateral),
        numerator > 0 && denominator == 0 ==> r == Err::<Balance, VaultError>(VaultError::ArithmeticUnderflow),
        denominator > 0 && proportion_spec(collateral as int, numerator as int, denominator as int) <= u128::MAX
            ==> r == Ok::<Balance, VaultError>(
            proportion_spec(collateral as int, numerator as int, denominator as int) as Balance,
        ),
        denominator > 0 && proportion_spec(collateral as int, numerator as int, denominator as int) > u128::MAX
            ==> r == Err::<Balance, VaultError>(VaultError::ArithmeticOverflow),
        numerator <= denominator ==> r is Ok && r->Ok_0 <= collateral,
{
    if numerator == 0 && denominator == 0 {
        return Ok(collateral);
    }
    if denominator == 0 {
        return Err(VaultError::ArithmeticUnderflow);
    }
    proof {
        lemma_proportion_bounded(collateral as int, numerator as int, denominator as int);
    }
    mul_div(collateral, numerator, denominator)
}

/// A share of at most the whole is at most the whole.
pub proof fn lemma_proportion_bounded(collateral: int, numerator: int, denominator: int)
    requires
        collateral >= 0,
        numerator >= 0,
        denominator >= 0,
    ensures
        proportion_spec(collateral, numerator, denominator) >= 0 || denominator == 0,
        numerator <= denominator ==> 0 <= proportion_spec(collateral, numerator, denominator) <= collateral,
{
    if denominator > 0 {
        assert(collateral * numerator / denominator >= 0) by (nonlinear_arith)
            requires collateral >= 0, numerator >= 0, denominator > 0;
        if numerator <= denominator {
            assert(collateral * numerator / denominator <= collateral) by (nonlinear_arith)
                requires collateral >= 0, 0 <= numerator <= denominator, denominator > 0;
        }
    }
}

/// Larger thresholds back fewer tokens.
pub proof fn lemma_max_tokens_antitone(c: int, rate: ExchangeRate, t1: int, t2: int)
    requires
        rate.wf(),
        c >= 0,
        0 < t1 <= t2,
    ensures
        max_tokens_spec(c, rate, t2) <= max_tokens_spec(c, rate, t1),
{
    let w = collateral_in_wrapped(c, rate);
    assert(w >= 0) by (nonlinear_arith)
        requires c >= 0, rate.wrapped >= 0, rate.collateral > 0, w == c * rate.wrapped / rate.collateral as int;
    let n = w * SCALE;
    assert(n >= 0) by (nonlinear_arith) requires w >= 0, n == w * SCALE;
    assert(n / t2 <= n / t1) by (nonlinear_arith)
        requires n >= 0, 0 < t1 <= t2;
}

/// Threshold ordering: with `liquidation < premium < secure`, a position below
/// the liquidation threshold is below the premium-redeem threshold, and one
/// below the premium-redeem threshold is below the secure threshold.
pub proof fn threshold_ordering(
    collateral: u128,
    tokens: u128,
    rate: ExchangeRate,
    liquidation: u128,
    premium: u128,
    secure: u128,
)
    requires
        rate.wf(),
        0 < liquidation < premium < secure,
    ensures
        below_threshold_spec(collateral as int, tokens as int, rate, liquidation as int)
            ==> below_threshold_spec(collateral as int, tokens as int, rate, premium as int),
        below_threshold_spec(collateral as int, tokens as int, rate, premium as int)
            ==> below_threshold_spec(collateral as int, tokens as int, rate, secure as int),
{
    lemma_max_tokens_antitone(collateral as int, rate, liquidation as int, premium as int);
    lemma_max_tokens_antitone(collateral as int, rate, premium as int, secure as int);
}

} // verus!
