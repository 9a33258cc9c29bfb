//! Checked arithmetic on token amounts. Nothing here wraps: a result that
//! does not fit is reported, and products are taken at twice the width of
//! their operands before they are divided.

use vstd::prelude::*;
use vstd::arithmetic::div_mod::{
    lemma_fundamental_div_mod, lemma_fundamental_div_mod_converse, lemma_mod_multiples_basic,
};
use crate::error::AmmError;

verus! {

/// The largest amount that can be represented.
pub open spec fn max_amount() -> int {
    u64::MAX as int
}

/// `numerator / divisor`, rounded up.
pub open spec fn ceil_div(numerator: int, divisor: int) -> int {
    (numerator + divisor - 1) / divisor
}

/// Ten to the power `exponent`.
pub open spec fn pow10(exponent: nat) -> nat
    decreases exponent,
{
    if exponent == 0 {
        1
    } else {
        10 * pow10((exponent - 1) as nat)
    }
}

/// What `checked_add` returns.
pub open spec fn sum_outcome(a: u64, b: u64) -> Result<u64, AmmError> {
    if a + b <= max_amount() {
        Ok((a + b) as u64)
    } else {
        Err(AmmError::Overflow)
    }
}

/// What `checked_sub` returns.
pub open spec fn difference_outcome(a: u64, b: u64) -> Result<u64, AmmError> {
    if b <= a {
        Ok((a - b) as u64)
    } else {
        Err(AmmError::Underflow)
    }
}

/// What `checked_mul` returns.
pub open spec fn product_outcome(a: u64, b: u64) -> Result<u64, AmmError> {
    if a * b <= max_amount() {
        Ok((a * b) as u64)
    } else {
        Err(AmmError::Overflow)
    }
}

/// What `checked_div` returns.
pub open spec fn quotient_outcome(a: u64, divisor: u64) -> Result<u64, AmmError> {
    if divisor == 0 {
        Err(AmmError::ZeroBalance)
    } else {
        Ok(a / divisor)
    }
}

/// What `mul_div_floor` returns.
pub open spec fn mul_div_floor_outcome(a: u64, b: u64, divisor: u64) -> Result<u64, AmmError> {
    if divisor == 0 {
        Err(AmmError::ZeroBalance)
    } else if (a * b) / (divisor as int) > max_amount() {
        Err(AmmError::Overflow)
    } else {
        Ok(((a * b) / (divisor as int)) as u64)
    }
}

/// What `mul_div_ceil` returns.
pub open spec fn mul_div_ceil_outcome(a: u64, b: u64, divisor: u64) -> Result<u64, AmmError> {
    if divisor == 0 {
        Err(AmmError::ZeroBalance)
    } else if ceil_div(a * b, divisor as int) > max_amount() {
        Err(AmmError::Overflow)
    } else {
        Ok(ceil_div(a * b, divisor as int) as u64)
    }
}

/// Rounding down leaves at most the numerator, and less than one divisor
/// below it.
pub proof fn lemma_floor_bounds(numerator: int, divisor: int)
    requires
        divisor > 0,
    ensures
        (numerator / divisor) * divisor <= numerator < (numerator / divisor + 1) * divisor,
        numerator >= 0 ==> numerator / divisor >= 0,
{
    lemma_fundamental_div_mod(numerator, divisor);
    let quotient = numerator / divisor;
    assert(quotient * divisor == divisor * quotient) by (nonlinear_arith);
    assert((quotient + 1) * divisor == divisor * quotient + divisor) by (nonlinear_arith);
    assert(numerator >= 0 ==> quotient >= 0) by (nonlinear_arith)
        requires
            divisor > 0,
            numerator < (quotient + 1) * divisor,
    ;
}

/// Rounding up reaches at least the numerator, and less than one divisor
/// above it.
pub proof fn lemma_ceil_bounds(numerator: int, divisor: int)
    requires
        divisor > 0,
    ensures
        (ceil_div(numerator, divisor) - 1) * divisor < numerator <= ceil_div(numerator, divisor)
            * divisor,
        numerator >= 0 ==> ceil_div(numerator, divisor) >= 0,
        numerator > 0 ==> ceil_div(numerator, divisor) > 0,
{
    let raised = numerator + divisor - 1;
    let quotient = raised / divisor;
    lemma_floor_bounds(raised, divisor);
    assert((quotient - 1) * divisor == quotient * divisor - divisor) by (nonlinear_arith);
    assert((quotient + 1) * divisor == quotient * divisor + divisor) by (nonlinear_arith);
    assert(numerator > 0 ==> quotient > 0) by (nonlinear_arith)
        requires
            divisor > 0,
            numerator <= quotient * divisor,
    ;
}

/// What `rescale` returns: the amount times a power of ten when the scale
/// grows, and divided by one, if that leaves no remainder, when it shrinks.
pub open spec fn rescale_outcome(amount: u64, from_decimals: u8, to_decimals: u8) -> Result<
    u64,
    AmmError,
> {
    if to_decimals >= from_decimals {
        let factor = pow10((to_decimals - from_decimals) as nat) as int;
        if amount * factor <= max_amount() {
            Ok((amount * factor) as u64)
        } else {
            Err(AmmError::Overflow)
        }
    } else {
        let factor = pow10((from_decimals - to_decimals) as nat) as int;
        if (amount as int) % factor == 0 {
            Ok(((amount as int) / factor) as u64)
        } else {
            Err(AmmError::InvalidPrecision)
        }
    }
}

/// A power of ten is at least one.
pub proof fn lemma_pow10_positive(exponent: nat)
    ensures
        pow10(exponent) >= 1,
    decreases exponent,
{
    if exponent > 0 {
        lemma_pow10_positive((exponent - 1) as nat);
    }
}

/// Powers of ten multiply as their exponents add.
pub proof fn lemma_pow10_adds(first: nat, second: nat)
    ensures
        pow10(first + second) == pow10(first) * pow10(second),
    decreases second,
{
    if second == 0 {
        assert(pow10(first) * 1 == pow10(first));
    } else {
        let rest = (second - 1) as nat;
        lemma_pow10_adds(first, rest);
        assert(first + second - 1 == first + rest);
        assert(10 * (pow10(first) * pow10(rest)) == pow10(first) * (10 * pow10(rest)))
            by (nonlinear_arith);
    }
}

/// The product of two amounts fits in twice their width, with room left
/// for one more amount on top.
pub proof fn lemma_wide_product_fits(a: u64, b: u64)
    ensures
        0 <= a * b <= 0xFFFF_FFFF_FFFF_FFFE_0000_0000_0000_0001,
        a * b + u64::MAX <= u128::MAX,
{
    assert(0 <= a * b <= 0xFFFF_FFFF_FFFF_FFFF * 0xFFFF_FFFF_FFFF_FFFF) by (nonlinear_arith)
        requires
            0 <= a <= 0xFFFF_FFFF_FFFF_FFFF,
            0 <= b <= 0xFFFF_FFFF_FFFF_FFFF,
    ;
}

/// Adds two amounts. Fails with `Overflow` exactly when the sum does not fit.
pub fn checked_add(a: u64, b: u64) -> (result: Result<u64, AmmError>)
    ensures
        result == sum_outcome(a, b),
{
    if a > u64::MAX - b {
        Err(AmmError::Overflow)
    } else {
        Ok(a + b)
    }
}

/// Subtracts `b` from `a`. Fails with `Underflow` exactly when `b > a`.
pub fn checked_sub(a: u64, b: u64) -> (result: Result<u64, AmmError>)
    ensures
        result == difference_outcome(a, b),
{
    if b > a {
        Err(AmmError::Underflow)
    } else {
        Ok(a - b)
    }
}

/// Multiplies two amounts. Fails with `Overflow` exactly when the product
/// does not fit.
pub fn checked_mul(a: u64, b: u64) -> (result: Result<u64, AmmError>)
    ensures
        result == product_outcome(a, b),
{
    proof {
        lemma_wide_product_fits(a, b);
    }
    let wide: u128 = (a as u128) * (b as u128);
    if wide > u64::MAX as u128 {
        Err(AmmError::Overflow)
    } else {
        Ok(wide as u64)
    }
}

/// Divides `a` by `divisor`, rounding down. Fails with `ZeroBalance`
/// exactly when the divisor is zero.
pub fn checked_div(a: u64, divisor: u64) -> (result: Result<u64, AmmError>)
    ensures
        result == quotient_outcome(a, divisor),
{
    if divisor == 0 {
        Err(AmmError::ZeroBalance)
    } else {
        Ok(a / divisor)
    }
}

/// Computes `a * b / divisor`, rounded down, with the product taken at
/// double width. Fails with `ZeroBalance` on a zero divisor and with
/// `Overflow` when the quotient does not fit.
pub fn mul_div_floor(a: u64, b: u64, divisor: u64) -> (result: Result<u64, AmmError>)
    ensures
        result == mul_div_floor_outcome(a, b, divisor),
{
    if divisor == 0 {
        return Err(AmmError::ZeroBalance);
    }
    proof {
        lemma_wide_product_fits(a, b);
    }
    let wide: u128 = (a as u128) * (b as u128);
    let quotient: u128 = wide / (divisor as u128);
    if quotient > u64::MAX as u128 {
        Err(AmmError::Overflow)
    } else {
        Ok(quotient as u64)
    }
}

/// Computes `a * b / divisor`, rounded up, with the product taken at
/// double width. Fails with `ZeroBalance` on a zero divisor and with
/// `Overflow` when the quotient does not fit.
pub fn mul_div_ceil(a: u64, b: u64, divisor: u64) -> (result: Result<u64, AmmError>)
    ensures
        result == mul_div_ceil_outcome(a, b, divisor),
{
    if divisor == 0 {
        return Err(AmmError::ZeroBalance);
    }
    proof {
        lemma_wide_product_fits(a, b);
    }
    let wide: u128 = (a as u128) * (b as u128) + ((divisor - 1) as u128);
    let quotient: u128 = wide / (divisor as u128);
    if quotient > u64::MAX as u128 {
        Err(AmmError::Overflow)
    } else {
        Ok(quotient as u64)
    }
}

/// An amount that fails to fit after some of the multiplications by ten
/// fails to fit after all of them.
proof fn lemma_scale_up_overflows(amount: u64, value: u64, done: nat, steps: nat)
    requires
        done < steps,
        value == amount * pow10(done),
        value * 10 > max_amount(),
    ensures
        amount * pow10(steps) > max_amount(),
{
    let rest = (steps - done - 1) as nat;
    lemma_pow10_adds(done + 1, rest);
    lemma_pow10_positive(rest);
    assert(pow10(done + 1) == 10 * pow10(done));
    let head = pow10(done + 1) as int;
    let tail = pow10(rest) as int;
    assert(amount * head == value * 10) by (nonlinear_arith)
        requires
            value == amount * pow10(done),
            head == 10 * pow10(done),
    ;
    assert(amount * (head * tail) >= amount * head) by (nonlinear_arith)
        requires
            tail >= 1,
            head >= 0,
            amount >= 0,
    ;
    assert(done + 1 + rest == steps);
}

/// An amount whose remaining digits do not end in zero is no multiple of
/// the full power of ten.
proof fn lemma_scale_down_inexact(amount: u64, value: u64, done: nat, steps: nat)
    requires
        done < steps,
        amount == value * pow10(done),
        value % 10 != 0,
    ensures
        (amount as int) % (pow10(steps) as int) != 0,
{
    let rest = (steps - done - 1) as nat;
    let low = pow10(done) as int;
    let high = pow10(rest) as int;
    let whole = pow10(steps) as int;
    lemma_pow10_positive(done);
    lemma_pow10_positive(steps);
    lemma_pow10_adds(done + 1, rest);
    assert(done + 1 + rest == steps);
    assert(pow10(done + 1) == 10 * pow10(done));
    if (amount as int) % whole == 0 {
        let count = (amount as int) / whole;
        lemma_fundamental_div_mod(amount as int, whole);
        assert(value == 10 * (high * count)) by (nonlinear_arith)
            requires
                low >= 1,
                value * low == whole * count,
                whole == (10 * low) * high,
        ;
        lemma_mod_multiples_basic(high * count, 10);
        assert(10 * (high * count) == (high * count) * 10);
        assert(false);
    }
}

/// Re-expresses an amount given at `from_decimals` fractional digits at
/// `to_decimals` digits. Growing the scale multiplies by a power of ten and
/// fails with `Overflow` when the result does not fit. Shrinking it divides,
/// and fails with `InvalidPrecision` when the amount has digits that the
/// smaller scale cannot hold.
pub fn rescale(amount: u64, from_decimals: u8, to_decimals: u8) -> (result: Result<u64, AmmError>)
    ensures
        result == rescale_outcome(amount, from_decimals, to_decimals),
{
    let mut value: u64 = amount;
    let mut done: u8 = 0;
    proof {
        assert(pow10(0) == 1);
        assert(amount * 1 == amount);
    }
    if to_decimals >= from_decimals {
        let steps: u8 = to_decimals - from_decimals;
        while done < steps
            invariant
                done <= steps,
                steps == to_decimals - from_decimals,
                value == amount * pow10(done as nat),
            decreases steps - done,
        {
            if value > u64::MAX / 10 {
                proof {
                    lemma_scale_up_overflows(amount, value, done as nat, steps as nat);
                }
                return Err(AmmError::Overflow);
            }
            proof {
                let low = pow10(done as nat) as int;
                assert(pow10((done + 1) as nat) == 10 * pow10(done as nat));
                assert(amount * (10 * low) == (amount * low) * 10) by (nonlinear_arith);
            }
            value = value * 10;
            done = done + 1;
        }
        Ok(value)
    } else {
        let steps: u8 = from_decimals - to_decimals;
        while done < steps
            invariant
                done <= steps,
                steps == from_decimals - to_decimals,
                amount == value * pow10(done as nat),
            decreases steps - done,
        {
            if value % 10 != 0 {
                proof {
                    lemma_scale_down_inexact(amount, value, done as nat, steps as nat);
                }
                return Err(AmmError::InvalidPrecision);
            }
            proof {
                let low = pow10(done as nat) as int;
                assert(pow10((done + 1) as nat) == 10 * pow10(done as nat));
                assert((value / 10) * (10 * low) == value * low) by (nonlinear_arith)
                    requires
                        value % 10 == 0,
                ;
            }
            value = value / 10;
            done = done + 1;
        }
        proof {
            let whole = pow10(steps as nat) as int;
            lemma_pow10_positive(steps as nat);
            assert(amount == whole * value + 0) by (nonlinear_arith)
                requires
                    amount == value * whole,
            ;
            lemma_fundamental_div_mod_converse(amount as int, whole, value as int, 0);
        }
        Ok(value)
    }
}

} // verus!
