//! The fee taken from the input of a trade.

use vstd::prelude::*;
use crate::error::AmmError;
use crate::math::mul_div_floor;

verus! {

/// The fee rate that takes the whole input: 100%, in basis points.
pub const MAX_FEE_BPS: u16 = 10_000;

/// The number of basis points in one whole.
pub const BPS_DENOMINATOR: u64 = 10_000;

/// The fee on `amount_in`: its share of `fee_bps` basis points, rounded down.
pub open spec fn fee_amount(amount_in: u64, fee_bps: u16) -> int {
    (amount_in * fee_bps) / 10_000
}

/// What is left of `amount_in` once the fee is taken.
pub open spec fn net_amount(amount_in: u64, fee_bps: u16) -> int {
    amount_in - fee_amount(amount_in, fee_bps)
}

/// What `apply_fee` returns: the net amount and the fee, in that order.
pub open spec fn apply_fee_outcome(amount_in: u64, fee_bps: u16) -> Result<(u64, u64), AmmError> {
    if fee_bps > 10_000 {
        Err(AmmError::InvalidFee)
    } else {
        Ok((net_amount(amount_in, fee_bps) as u64, fee_amount(amount_in, fee_bps) as u64))
    }
}

/// At a valid rate the fee is never more than the amount it is taken from.
pub proof fn lemma_fee_within_amount(amount_in: u64, fee_bps: u16)
    requires
        fee_bps <= 10_000,
    ensures
        0 <= fee_amount(amount_in, fee_bps) <= amount_in,
        0 <= net_amount(amount_in, fee_bps) <= amount_in,
        fee_bps == 0 ==> fee_amount(amount_in, fee_bps) == 0,
        fee_bps == 10_000 ==> fee_amount(amount_in, fee_bps) == amount_in,
{
    assert(0 <= amount_in * fee_bps <= amount_in * 10_000) by (nonlinear_arith)
        requires
            0 <= fee_bps <= 10_000,
            0 <= amount_in,
    ;
    assert(fee_bps == 0 ==> amount_in * fee_bps == 0) by (nonlinear_arith);
}

/// Splits `amount_in` into the net amount that is traded and the fee that
/// the pool keeps: `fee = floor(amount_in * fee_bps / 10000)` and
/// `net = amount_in - fee`. Fails with `InvalidFee` exactly when `fee_bps`
/// is above 10000.
pub fn apply_fee(amount_in: u64, fee_bps: u16) -> (result: Result<(u64, u64), AmmError>)
    ensures
        result == apply_fee_outcome(amount_in, fee_bps),
{
    if fee_bps > MAX_FEE_BPS {
        return Err(AmmError::InvalidFee);
    }
    proof {
        lemma_fee_within_amount(amount_in, fee_bps);
    }
    match mul_div_floor(amount_in, fee_bps as u64, BPS_DENOMINATOR) {
        Ok(fee) => Ok((amount_in - fee, fee)),
        Err(error) => Err(error),
    }
}

} // verus!
