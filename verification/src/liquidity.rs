//! Conversion between pool shares and the reserves behind them.
//!
//! Shares are minted rounded down and paid for rounded up; what a share
//! withdraws is rounded down. Every remainder stays with the pool.

use vstd::prelude::*;
use vstd::arithmetic::div_mod::lemma_div_multiples_vanish;
use crate::error::AmmError;
use crate::math::{
    ceil_div, checked_mul, lemma_ceil_bounds, lemma_floor_bounds, lemma_wide_product_fits,
    max_amount, mul_div_ceil, mul_div_floor,
};

verus! {

/// The number of shares minted per unit of the first asset by the deposit
/// that opens a pool.
pub const INITIAL_SHARE_SCALE: u64 = 1_000;

/// The shares that `amount` of one asset buys when `reserve` of that asset
/// backs `total_shares`, rounded down.
pub open spec fn shares_for(total_shares: u64, amount: u64, reserve: u64) -> int {
    (total_shares * amount) / (reserve as int)
}

/// The shares minted by a deposit into a pool that already has shares: what
/// the scarcer of the two offered amounts buys.
pub open spec fn minted_shares(
    reserve_a: u64,
    reserve_b: u64,
    total_shares: u64,
    amount_a_desired: u64,
    amount_b_desired: u64,
) -> int {
    let by_a = shares_for(total_shares, amount_a_desired, reserve_a);
    let by_b = shares_for(total_shares, amount_b_desired, reserve_b);
    if by_a <= by_b {
        by_a
    } else {
        by_b
    }
}

/// What has to be paid into `reserve` for `shares` new shares, rounded up.
pub open spec fn amount_owed(shares: u64, reserve: u64, total_shares: u64) -> int {
    ceil_div(shares * reserve, total_shares as int)
}

/// What `shares` out of `total_shares` withdraw from `reserve`, rounded down.
pub open spec fn share_value(reserve: u64, shares: u64, total_shares: u64) -> int {
    (reserve * shares) / (total_shares as int)
}

/// What `deposit` returns: the shares minted and the amounts of each asset
/// actually taken.
pub open spec fn deposit_outcome(
    reserve_a: u64,
    reserve_b: u64,
    total_shares: u64,
    amount_a_desired: u64,
    amount_b_desired: u64,
) -> Result<(u64, u64, u64), AmmError> {
    if amount_a_desired == 0 || amount_b_desired == 0 {
        Err(AmmError::InvalidAmount)
    } else if total_shares == 0 {
        if amount_a_desired * INITIAL_SHARE_SCALE > max_amount() {
            Err(AmmError::Overflow)
        } else {
            Ok(((amount_a_desired * INITIAL_SHARE_SCALE) as u64, amount_a_desired, amount_b_desired))
        }
    } else if reserve_a == 0 || reserve_b == 0 {
        Err(AmmError::ZeroBalance)
    } else {
        let minted = minted_shares(
            reserve_a,
            reserve_b,
            total_shares,
            amount_a_desired,
            amount_b_desired,
        );
        if minted == 0 {
            Err(AmmError::InvalidAmount)
        } else if minted > max_amount() {
            Err(AmmError::Overflow)
        } else {
            Ok(
                (
                    minted as u64,
                    amount_owed(minted as u64, reserve_a, total_shares) as u64,
                    amount_owed(minted as u64, reserve_b, total_shares) as u64,
                ),
            )
        }
    }
}

/// What `withdraw` returns: the amount of each asset paid out.
pub open spec fn withdraw_outcome(
    reserve_a: u64,
    reserve_b: u64,
    total_shares: u64,
    shares_to_burn: u64,
) -> Result<(u64, u64), AmmError> {
    if shares_to_burn == 0 {
        Err(AmmError::InvalidAmount)
    } else if shares_to_burn > total_shares {
        Err(AmmError::Insufficientbalance)
    } else if share_value(reserve_a, shares_to_burn, total_shares) == 0 || share_value(
        reserve_b,
        shares_to_burn,
        total_shares,
    ) == 0 {
        Err(AmmError::Insufficientbalance)
    } else {
        Ok(
            (
                share_value(reserve_a, shares_to_burn, total_shares) as u64,
                share_value(reserve_b, shares_to_burn, total_shares) as u64,
            ),
        )
    }
}

/// Shares that an amount can buy cost no more than that amount, and at
/// least one unit.
pub proof fn lemma_owed_within_offer(shares: u64, total_shares: u64, amount: u64, reserve: u64)
    requires
        reserve > 0,
        total_shares > 0,
        0 < shares <= shares_for(total_shares, amount, reserve),
    ensures
        0 < amount_owed(shares, reserve, total_shares) <= amount,
{
    let bought = shares_for(total_shares, amount, reserve);
    lemma_floor_bounds(total_shares * amount, reserve as int);
    assert(shares * reserve <= total_shares * amount) by (nonlinear_arith)
        requires
            shares <= bought,
            bought * reserve <= total_shares * amount,
            reserve > 0,
    ;
    assert(shares * reserve > 0) by (nonlinear_arith)
        requires
            shares > 0,
            reserve > 0,
    ;
    lemma_ceil_bounds(shares * reserve, total_shares as int);
    let owed = amount_owed(shares, reserve, total_shares);
    assert(owed <= amount) by (nonlinear_arith)
        requires
            (owed - 1) * total_shares < shares * reserve,
            shares * reserve <= total_shares * amount,
            total_shares > 0,
    ;
}

/// A holder's shares are worth no more than the reserve, and all of the
/// shares are worth all of it.
pub proof fn lemma_share_value_within_reserve(reserve: u64, shares: u64, total_shares: u64)
    requires
        0 < shares <= total_shares,
    ensures
        0 <= share_value(reserve, shares, total_shares) <= reserve,
        shares == total_shares ==> share_value(reserve, shares, total_shares) == reserve,
        shares < total_shares && reserve > 0 ==> share_value(reserve, shares, total_shares)
            < reserve,
{
    let value = share_value(reserve, shares, total_shares);
    assert(0 <= reserve * shares) by (nonlinear_arith);
    lemma_floor_bounds(reserve * shares, total_shares as int);
    assert(value <= reserve) by (nonlinear_arith)
        requires
            value * total_shares <= reserve * shares,
            shares <= total_shares,
            total_shares > 0,
            reserve >= 0,
            shares > 0,
    ;
    if shares == total_shares {
        lemma_div_multiples_vanish(reserve as int, total_shares as int);
        assert(reserve * shares == total_shares * reserve) by (nonlinear_arith)
            requires
                shares == total_shares,
        ;
    }
    if shares < total_shares && reserve > 0 {
        assert(value < reserve) by (nonlinear_arith)
            requires
                value * total_shares <= reserve * shares,
                shares < total_shares,
                reserve > 0,
                shares > 0,
        ;
    }
}

/// A deposit into a pool that has shares pays at least the pool's price for
/// them, so the reserves behind each share never shrink.
pub proof fn lemma_deposit_never_dilutes(
    reserve_a: u64,
    reserve_b: u64,
    total_shares: u64,
    amount_a_desired: u64,
    amount_b_desired: u64,
)
    requires
        total_shares > 0,
        deposit_outcome(reserve_a, reserve_b, total_shares, amount_a_desired, amount_b_desired)
            is Ok,
    ensures
        ({
            let (shares_minted, actual_a, actual_b) = deposit_outcome(
                reserve_a,
                reserve_b,
                total_shares,
                amount_a_desired,
                amount_b_desired,
            )->Ok_0;
            &&& actual_a * total_shares >= shares_minted * reserve_a
            &&& actual_b * total_shares >= shares_minted * reserve_b
        }),
{
    let (shares_minted, _actual_a, _actual_b) = deposit_outcome(
        reserve_a,
        reserve_b,
        total_shares,
        amount_a_desired,
        amount_b_desired,
    )->Ok_0;
    lemma_owed_within_offer(shares_minted, total_shares, amount_a_desired, reserve_a);
    lemma_owed_within_offer(shares_minted, total_shares, amount_b_desired, reserve_b);
    lemma_ceil_bounds(shares_minted * reserve_a, total_shares as int);
    lemma_ceil_bounds(shares_minted * reserve_b, total_shares as int);
}

/// A withdrawal pays at most the pool's price for the shares it burns, so
/// the reserves behind each remaining share never shrink.
pub proof fn lemma_withdraw_never_overpays(
    reserve_a: u64,
    reserve_b: u64,
    total_shares: u64,
    shares_to_burn: u64,
)
    requires
        withdraw_outcome(reserve_a, reserve_b, total_shares, shares_to_burn) is Ok,
    ensures
        ({
            let (amount_a, amount_b) = withdraw_outcome(
                reserve_a,
                reserve_b,
                total_shares,
                shares_to_burn,
            )->Ok_0;
            &&& amount_a * total_shares <= reserve_a * shares_to_burn
            &&& amount_b * total_shares <= reserve_b * shares_to_burn
        }),
{
    lemma_share_value_within_reserve(reserve_a, shares_to_burn, total_shares);
    lemma_share_value_within_reserve(reserve_b, shares_to_burn, total_shares);
    lemma_floor_bounds(reserve_a * shares_to_burn, total_shares as int);
    lemma_floor_bounds(reserve_b * shares_to_burn, total_shares as int);
}

/// Shares paid for at the pool's price and burned at once are worth no
/// more than was paid for them.
pub proof fn lemma_new_shares_worth_no_more(reserve: u64, total_shares: u64, shares: u64)
    requires
        total_shares > 0,
        shares > 0,
        total_shares + shares <= max_amount(),
        reserve + amount_owed(shares, reserve, total_shares) <= max_amount(),
    ensures
        share_value(
            (reserve + amount_owed(shares, reserve, total_shares)) as u64,
            shares,
            (total_shares + shares) as u64,
        ) <= amount_owed(shares, reserve, total_shares),
{
    let paid = amount_owed(shares, reserve, total_shares);
    let grown = reserve + paid;
    let all = total_shares + shares;
    lemma_ceil_bounds(shares * reserve, total_shares as int);
    assert(0 <= shares * reserve) by (nonlinear_arith);
    assert(grown * shares <= paid * all) by (nonlinear_arith)
        requires
            shares * reserve <= paid * total_shares,
            grown == reserve + paid,
            all == total_shares + shares,
    ;
    lemma_floor_bounds(grown * shares, all);
    let value = (grown * shares) / all;
    assert(value <= paid) by (nonlinear_arith)
        requires
            value * all <= grown * shares,
            grown * shares <= paid * all,
            all > 0,
    ;
}

/// A deposit into a pool that has shares takes the two assets in the
/// pool's own ratio, as closely as whole units allow: with one unit less of
/// either asset the ratio of what is taken would lie on the other side of
/// the ratio of the reserves.
pub proof fn lemma_deposit_keeps_ratio(
    reserve_a: u64,
    reserve_b: u64,
    total_shares: u64,
    amount_a_desired: u64,
    amount_b_desired: u64,
)
    requires
        total_shares > 0,
        deposit_outcome(reserve_a, reserve_b, total_shares, amount_a_desired, amount_b_desired)
            is Ok,
    ensures
        ({
            let (_shares, actual_a, actual_b) = deposit_outcome(
                reserve_a,
                reserve_b,
                total_shares,
                amount_a_desired,
                amount_b_desired,
            )->Ok_0;
            &&& (actual_a - 1) * reserve_b < actual_b * reserve_a
            &&& (actual_b - 1) * reserve_a < actual_a * reserve_b
        }),
{
    let (shares, actual_a, actual_b) = deposit_outcome(
        reserve_a,
        reserve_b,
        total_shares,
        amount_a_desired,
        amount_b_desired,
    )->Ok_0;
    lemma_owed_within_offer(shares, total_shares, amount_a_desired, reserve_a);
    lemma_owed_within_offer(shares, total_shares, amount_b_desired, reserve_b);
    lemma_ceil_bounds(shares * reserve_a, total_shares as int);
    lemma_ceil_bounds(shares * reserve_b, total_shares as int);
    assert((actual_a - 1) * reserve_b < actual_b * reserve_a) by (nonlinear_arith)
        requires
            (actual_a - 1) * total_shares < shares * reserve_a,
            shares * reserve_b <= actual_b * total_shares,
            total_shares > 0,
            reserve_a > 0,
            reserve_b > 0,
            actual_a >= 1,
            shares > 0,
    ;
    assert((actual_b - 1) * reserve_a < actual_a * reserve_b) by (nonlinear_arith)
        requires
            (actual_b - 1) * total_shares < shares * reserve_b,
            shares * reserve_a <= actual_a * total_shares,
            total_shares > 0,
            reserve_a > 0,
            reserve_b > 0,
            actual_b >= 1,
            shares > 0,
    ;
}

/// Computes what a deposit mints and takes.
///
/// Into a pool without shares, the deposit takes both desired amounts
/// whole and mints `amount_a_desired * INITIAL_SHARE_SCALE` shares. Into a
/// pool with shares, it mints what the scarcer of the two desired amounts
/// buys at the pool's ratio, rounded down, and takes of each asset what
/// those shares cost, rounded up: never more than was offered.
///
/// Fails with `InvalidAmount` when a desired amount is zero or too small to
/// buy one share, with `ZeroBalance` when the pool has shares but an empty
/// reserve, and with `Overflow` when the minted shares do not fit.
pub fn deposit(
    reserve_a: u64,
    reserve_b: u64,
    total_shares: u64,
    amount_a_desired: u64,
    amount_b_desired: u64,
) -> (result: Result<(u64, u64, u64), AmmError>)
    ensures
        result == deposit_outcome(
            reserve_a,
            reserve_b,
            total_shares,
            amount_a_desired,
            amount_b_desired,
        ),
        result matches Ok((shares_minted, actual_a, actual_b)) ==> {
            &&& shares_minted > 0
            &&& 0 < actual_a <= amount_a_desired
            &&& 0 < actual_b <= amount_b_desired
        },
{
    if amount_a_desired == 0 || amount_b_desired == 0 {
        return Err(AmmError::InvalidAmount);
    }
    if total_shares == 0 {
        return match checked_mul(amount_a_desired, INITIAL_SHARE_SCALE) {
            Ok(shares_minted) => Ok((shares_minted, amount_a_desired, amount_b_desired)),
            Err(error) => Err(error),
        };
    }
    if reserve_a == 0 || reserve_b == 0 {
        return Err(AmmError::ZeroBalance);
    }
    proof {
        lemma_wide_product_fits(total_shares, amount_a_desired);
        lemma_wide_product_fits(total_shares, amount_b_desired);
    }
    let by_a: u128 = ((total_shares as u128) * (amount_a_desired as u128)) / (reserve_a as u128);
    let by_b: u128 = ((total_shares as u128) * (amount_b_desired as u128)) / (reserve_b as u128);
    let minted: u128 = if by_a <= by_b {
        by_a
    } else {
        by_b
    };
    if minted == 0 {
        return Err(AmmError::InvalidAmount);
    }
    if minted > u64::MAX as u128 {
        return Err(AmmError::Overflow);
    }
    let shares_minted: u64 = minted as u64;
    proof {
        lemma_owed_within_offer(shares_minted, total_shares, amount_a_desired, reserve_a);
        lemma_owed_within_offer(shares_minted, total_shares, amount_b_desired, reserve_b);
    }
    let actual_a = match mul_div_ceil(shares_minted, reserve_a, total_shares) {
        Ok(amount) => amount,
        Err(error) => {
            return Err(error);
        },
    };
    let actual_b = match mul_div_ceil(shares_minted, reserve_b, total_shares) {
        Ok(amount) => amount,
        Err(error) => {
            return Err(error);
        },
    };
    Ok((shares_minted, actual_a, actual_b))
}

/// Computes what burning `shares_to_burn` pays out:
/// `floor(reserve * shares_to_burn / total_shares)` of each asset.
///
/// Fails with `InvalidAmount` when no shares are burned, and with
/// `Insufficientbalance` when more shares are burned than exist or when the
/// shares are worth less than one unit of either asset.
pub fn withdraw(reserve_a: u64, reserve_b: u64, total_shares: u64, shares_to_burn: u64) -> (result:
    Result<(u64, u64), AmmError>)
    ensures
        result == withdraw_outcome(reserve_a, reserve_b, total_shares, shares_to_burn),
        result matches Ok((amount_a, amount_b)) ==> {
            &&& 0 < amount_a <= reserve_a
            &&& 0 < amount_b <= reserve_b
        },
{
    if shares_to_burn == 0 {
        return Err(AmmError::InvalidAmount);
    }
    if shares_to_burn > total_shares {
        return Err(AmmError::Insufficientbalance);
    }
    proof {
        lemma_share_value_within_reserve(reserve_a, shares_to_burn, total_shares);
        lemma_share_value_within_reserve(reserve_b, shares_to_burn, total_shares);
    }
    let amount_a = match mul_div_floor(reserve_a, shares_to_burn, total_shares) {
        Ok(amount) => amount,
        Err(error) => {
            return Err(error);
        },
    };
    let amount_b = match mul_div_floor(reserve_b, shares_to_burn, total_shares) {
        Ok(amount) => amount,
        Err(error) => {
            return Err(error);
        },
    };
    if amount_a == 0 || amount_b == 0 {
        return Err(AmmError::Insufficientbalance);
    }
    Ok((amount_a, amount_b))
}

} // verus!
