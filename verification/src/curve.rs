//! The constant-product pricing rule.
//!
//! A trade of `net_in` against reserves `(reserve_in, reserve_out)` pays
//! the largest whole `amount_out` with
//! `(reserve_in + net_in) * (reserve_out - amount_out) >= reserve_in * reserve_out`,
//! so whatever rounding leaves stays with the pool.

use vstd::prelude::*;
use vstd::arithmetic::div_mod::lemma_fundamental_div_mod;
use crate::error::AmmError;
use crate::fee::{apply_fee, lemma_fee_within_amount, net_amount};
use crate::math::{max_amount, mul_div_floor};

verus! {

/// The output that the constant-product relation gives for a net input,
/// rounded down.
pub open spec fn output_for(reserve_in: u64, reserve_out: u64, net_in: int) -> int {
    (reserve_out * net_in) / (reserve_in + net_in)
}

/// What `quote` returns.
pub open spec fn quote_outcome(reserve_in: u64, reserve_out: u64, amount_in: u64, fee_bps: u16)
    -> Result<u64, AmmError> {
    if reserve_in == 0 || reserve_out == 0 {
        Err(AmmError::ZeroBalance)
    } else if amount_in == 0 {
        Err(AmmError::InvalidAmount)
    } else if fee_bps > 10_000 {
        Err(AmmError::InvalidFee)
    } else if reserve_in + amount_in > max_amount() {
        Err(AmmError::Overflow)
    } else {
        Ok(output_for(reserve_in, reserve_out, net_amount(amount_in, fee_bps)) as u64)
    }
}

/// The output of a trade leaves the product of the reserves no smaller,
/// never empties the reserve it is paid from, and is the largest such
/// amount: one unit more would lower the product.
pub proof fn lemma_output_keeps_product(reserve_in: u64, reserve_out: u64, net_in: int)
    requires
        reserve_in > 0,
        net_in >= 0,
    ensures
        0 <= output_for(reserve_in, reserve_out, net_in) <= reserve_out,
        reserve_out > 0 ==> output_for(reserve_in, reserve_out, net_in) < reserve_out,
        (reserve_in + net_in) * (reserve_out - output_for(reserve_in, reserve_out, net_in))
            >= reserve_in * reserve_out,
        (reserve_in + net_in) * (reserve_out - (output_for(reserve_in, reserve_out, net_in) + 1))
            < reserve_in * reserve_out,
{
    let divisor = reserve_in + net_in;
    let product = reserve_out * net_in;
    let out = product / divisor;
    lemma_fundamental_div_mod(product, divisor);
    assert(0 <= product) by (nonlinear_arith)
        requires
            product == reserve_out * net_in,
            net_in >= 0,
    ;
    assert(0 <= out) by (nonlinear_arith)
        requires
            out == product / divisor,
            product >= 0,
            divisor > 0,
    ;
    assert(divisor * (reserve_out - out) >= reserve_in * reserve_out) by (nonlinear_arith)
        requires
            divisor == reserve_in + net_in,
            product == reserve_out * net_in,
            product == divisor * out + product % divisor,
            product % divisor >= 0,
    ;
    assert(divisor * (reserve_out - (out + 1)) < reserve_in * reserve_out) by (nonlinear_arith)
        requires
            divisor == reserve_in + net_in,
            product == reserve_out * net_in,
            product == divisor * out + product % divisor,
            product % divisor < divisor,
    ;
    assert(out <= reserve_out && (reserve_out > 0 ==> out < reserve_out)) by (nonlinear_arith)
        requires
            divisor * (reserve_out - out) >= reserve_in * reserve_out,
            divisor > 0,
            reserve_in > 0,
            reserve_out >= 0,
    ;
}

/// Prices a trade of `amount_in` against the reserves.
///
/// The fee is taken from the input first; the rest is priced by the
/// constant-product relation and rounded down. Fails with `ZeroBalance`
/// when a reserve is zero, with `InvalidAmount` when the input is zero,
/// with `InvalidFee` when the rate is above 10000 basis points, and with
/// `Overflow` when the input cannot be added to its reserve.
///
/// A quoted output leaves some of `reserve_out` in place and is the
/// largest amount for which the product of the reserves after the trade is
/// at least what it was before.
pub fn quote(reserve_in: u64, reserve_out: u64, amount_in: u64, fee_bps: u16) -> (result: Result<
    u64,
    AmmError,
>)
    ensures
        result == quote_outcome(reserve_in, reserve_out, amount_in, fee_bps),
        result matches Ok(amount_out) ==> {
            &&& amount_out < reserve_out
            &&& (reserve_in + net_amount(amount_in, fee_bps)) * (reserve_out - amount_out)
                >= reserve_in * reserve_out
            &&& (reserve_in + net_amount(amount_in, fee_bps)) * (reserve_out - (amount_out + 1))
                < reserve_in * reserve_out
        },
{
    if reserve_in == 0 || reserve_out == 0 {
        return Err(AmmError::ZeroBalance);
    }
    if amount_in == 0 {
        return Err(AmmError::InvalidAmount);
    }
    let (net_in, _fee) = match apply_fee(amount_in, fee_bps) {
        Ok(split) => split,
        Err(error) => {
            return Err(error);
        },
    };
    if amount_in > u64::MAX - reserve_in {
        return Err(AmmError::Overflow);
    }
    proof {
        lemma_fee_within_amount(amount_in, fee_bps);
        lemma_output_keeps_product(reserve_in, reserve_out, net_in as int);
    }
    mul_div_floor(reserve_out, net_in, reserve_in + net_in)
}

} // verus!
