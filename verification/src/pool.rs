//! The pool and its operations.
//!
//! A pool that has not been initialized has no `Pool` value yet:
//! `Pool::initialize` creates one, and from then on it is either active or
//! locked. Deposits, swaps and withdrawals are open while it is active;
//! its authority can lock and unlock it and change its fee. Every
//! operation takes the pool by exclusive reference and either commits in
//! full or leaves it as it was.

use vstd::prelude::*;
use crate::curve::{lemma_output_keeps_product, quote, quote_outcome};
use crate::error::AmmError;
use crate::fee::{fee_amount, lemma_fee_within_amount, net_amount, MAX_FEE_BPS};
use crate::identity::Identity;
use crate::liquidity::{
    lemma_new_shares_worth_no_more, lemma_owed_within_offer, lemma_share_value_within_reserve,
    INITIAL_SHARE_SCALE,
};
use crate::math::{checked_add, checked_mul, max_amount};

verus! {

/// Which asset a swap pays in.
#[derive(Clone, Copy, Debug, PartialEq, Eq, Structural)]
pub enum Direction {
    /// Asset A is paid in and asset B is paid out.
    AToB,
    /// Asset B is paid in and asset A is paid out.
    BToA,
}

/// Whether an initialized pool is open for trading.
#[derive(Clone, Copy, Debug, PartialEq, Eq, Structural)]
pub enum PoolState {
    /// Deposits, swaps and withdrawals are accepted.
    Active,
    /// Only updates by the authority are accepted.
    Locked,
}

/// A change that the pool's authority may make.
#[derive(Clone, Copy, Debug, PartialEq, Eq, Structural)]
pub enum PoolUpdate {
    /// Sets the fee rate, in basis points.
    SetFee(u16),
    /// Locks an active pool, or unlocks a locked one.
    ToggleLock,
}

/// The state of one liquidity pool.
#[derive(Clone, Copy, Debug, PartialEq, Eq)]
pub struct Pool {
    /// The amount of asset A held, in its smallest unit.
    pub reserve_a: u64,
    /// The amount of asset B held, in its smallest unit.
    pub reserve_b: u64,
    /// All outstanding claims on the reserves.
    pub total_shares: u64,
    /// The fee rate, in basis points.
    pub fee_bps: u16,
    /// While set, deposits, swaps and withdrawals are refused.
    pub locked: bool,
    /// Who may lock the pool and change its fee.
    pub authority: Identity,
}

impl Pool {
    /// The invariant of a pool: a valid fee rate, and no shares over an
    /// empty reserve.
    pub open spec fn wf(self) -> bool {
        &&& self.fee_bps <= 10_000
        &&& self.total_shares > 0 ==> self.reserve_a > 0 && self.reserve_b > 0
    }

    /// Whether the pool is active or locked.
    pub open spec fn state(self) -> PoolState {
        if self.locked {
            PoolState::Locked
        } else {
            PoolState::Active
        }
    }

    /// The product of the two reserves, which no swap may lower.
    pub open spec fn product(self) -> int {
        self.reserve_a * self.reserve_b
    }

    /// The reserve that a swap in `direction` pays into.
    pub open spec fn reserve_in(self, direction: Direction) -> u64 {
        match direction {
            Direction::AToB => self.reserve_a,
            Direction::BToA => self.reserve_b,
        }
    }

    /// The reserve that a swap in `direction` is paid from.
    pub open spec fn reserve_out(self, direction: Direction) -> u64 {
        match direction {
            Direction::AToB => self.reserve_b,
            Direction::BToA => self.reserve_a,
        }
    }

    /// What `initialize` returns.
    pub open spec fn initialize_outcome(
        authority: Identity,
        amount_a: u64,
        amount_b: u64,
        fee_bps: u16,
    ) -> Result<Pool, AmmError> {
        if amount_a == 0 || amount_b == 0 {
            Err(AmmError::InvalidAmount)
        } else if fee_bps > 10_000 {
            Err(AmmError::InvalidFee)
        } else if amount_a * INITIAL_SHARE_SCALE > max_amount() {
            Err(AmmError::Overflow)
        } else {
            Ok(
                Pool {
                    reserve_a: amount_a,
                    reserve_b: amount_b,
                    total_shares: (amount_a * INITIAL_SHARE_SCALE) as u64,
                    fee_bps,
                    locked: false,
                    authority,
                },
            )
        }
    }

    /// What the curve pays for `amount_in` in `direction` at the pool's
    /// reserves and fee rate.
    pub open spec fn swap_quote(self, amount_in: u64, direction: Direction) -> Result<
        u64,
        AmmError,
    > {
        quote_outcome(
            self.reserve_in(direction),
            self.reserve_out(direction),
            amount_in,
            self.fee_bps,
        )
    }

    /// What `swap` returns.
    pub open spec fn swap_outcome(self, amount_in: u64, direction: Direction, min_amount_out: u64)
        -> Result<u64, AmmError> {
        if self.locked {
            Err(AmmError::PoolLocked)
        } else {
            match self.swap_quote(amount_in, direction) {
                Err(error) => Err(error),
                Ok(amount_out) => if amount_out < min_amount_out {
                    Err(AmmError::SlippageExceeded)
                } else {
                    Ok(amount_out)
                },
            }
        }
    }

    /// The pool once `amount_in` has been paid in and `amount_out` paid
    /// out. The whole input joins its reserve, the fee included.
    pub open spec fn after_swap(self, amount_in: u64, direction: Direction, amount_out: u64)
        -> Pool {
        match direction {
            Direction::AToB => Pool {
                reserve_a: (self.reserve_a + amount_in) as u64,
                reserve_b: (self.reserve_b - amount_out) as u64,
                ..self
            },
            Direction::BToA => Pool {
                reserve_a: (self.reserve_a - amount_out) as u64,
                reserve_b: (self.reserve_b + amount_in) as u64,
                ..self
            },
        }
    }

    /// What the share accounting mints and takes for a deposit at the
    /// pool's reserves: the shares, then the amounts of A and of B.
    pub open spec fn deposit_quote(self, amount_a_desired: u64, amount_b_desired: u64) -> Result<
        (u64, u64, u64),
        AmmError,
    > {
        crate::liquidity::deposit_outcome(
            self.reserve_a,
            self.reserve_b,
            self.total_shares,
            amount_a_desired,
            amount_b_desired,
        )
    }

    /// Whether the pool can hold what a deposit adds.
    pub open spec fn has_room_for(self, shares_minted: u64, actual_a: u64, actual_b: u64) -> bool {
        self.total_shares > 0 ==> {
            &&& self.total_shares + shares_minted <= max_amount()
            &&& self.reserve_a + actual_a <= max_amount()
            &&& self.reserve_b + actual_b <= max_amount()
        }
    }

    /// What `deposit` returns.
    pub open spec fn deposit_outcome(
        self,
        amount_a_desired: u64,
        amount_b_desired: u64,
        min_a: u64,
        min_b: u64,
    ) -> Result<u64, AmmError> {
        if self.locked {
            Err(AmmError::PoolLocked)
        } else {
            match self.deposit_quote(amount_a_desired, amount_b_desired) {
                Err(error) => Err(error),
                Ok((shares_minted, actual_a, actual_b)) => if actual_a < min_a || actual_b
                    < min_b {
                    Err(AmmError::SlippageExceeded)
                } else if !self.has_room_for(shares_minted, actual_a, actual_b) {
                    Err(AmmError::Overflow)
                } else {
                    Ok(shares_minted)
                },
            }
        }
    }

    /// The pool once a deposit has been taken in. A pool without shares
    /// starts over from exactly what was deposited.
    pub open spec fn after_deposit(self, shares_minted: u64, actual_a: u64, actual_b: u64)
        -> Pool {
        if self.total_shares == 0 {
            Pool {
                reserve_a: actual_a,
                reserve_b: actual_b,
                total_shares: shares_minted,
                ..self
            }
        } else {
            Pool {
                reserve_a: (self.reserve_a + actual_a) as u64,
                reserve_b: (self.reserve_b + actual_b) as u64,
                total_shares: (self.total_shares + shares_minted) as u64,
                ..self
            }
        }
    }

    /// What the share accounting pays for `shares_to_burn` at the pool's
    /// reserves.
    pub open spec fn withdraw_quote(self, shares_to_burn: u64) -> Result<(u64, u64), AmmError> {
        crate::liquidity::withdraw_outcome(
            self.reserve_a,
            self.reserve_b,
            self.total_shares,
            shares_to_burn,
        )
    }

    /// What `withdraw` returns.
    pub open spec fn withdraw_outcome(self, shares_to_burn: u64, min_a: u64, min_b: u64) -> Result<
        (u64, u64),
        AmmError,
    > {
        if self.locked {
            Err(AmmError::PoolLocked)
        } else {
            match self.withdraw_quote(shares_to_burn) {
                Err(error) => Err(error),
                Ok((amount_a, amount_b)) => if amount_a < min_a || amount_b < min_b {
                    Err(AmmError::SlippageExceeded)
                } else {
                    Ok((amount_a, amount_b))
                },
            }
        }
    }

    /// The pool once `shares_to_burn` have been burned and paid out.
    pub open spec fn after_withdraw(self, shares_to_burn: u64, amount_a: u64, amount_b: u64)
        -> Pool {
        Pool {
            reserve_a: (self.reserve_a - amount_a) as u64,
            reserve_b: (self.reserve_b - amount_b) as u64,
            total_shares: (self.total_shares - shares_to_burn) as u64,
            ..self
        }
    }

    /// What `update` returns.
    pub open spec fn update_outcome(self, caller: Identity, change: PoolUpdate) -> Result<
        (),
        AmmError,
    > {
        if caller@ != self.authority@ {
            Err(AmmError::InvalidAuthority)
        } else {
            match change {
                PoolUpdate::SetFee(fee_bps) => if fee_bps > 10_000 {
                    Err(AmmError::InvalidFee)
                } else {
                    Ok(())
                },
                PoolUpdate::ToggleLock => Ok(()),
            }
        }
    }

    /// The pool once `change` has been made.
    pub open spec fn after_update(self, change: PoolUpdate) -> Pool {
        match change {
            PoolUpdate::SetFee(fee_bps) => Pool { fee_bps, ..self },
            PoolUpdate::ToggleLock => Pool { locked: !self.locked, ..self },
        }
    }

    /// Creates an active pool from its first deposit.
    ///
    /// The reserves are the two amounts, the shares are
    /// `amount_a * INITIAL_SHARE_SCALE`, and `authority` becomes the pool's
    /// authority. Fails with `InvalidAmount` when an amount is zero, with
    /// `InvalidFee` when the rate is above 10000 basis points, and with
    /// `Overflow` when the shares do not fit.
    pub fn initialize(authority: Identity, amount_a: u64, amount_b: u64, fee_bps: u16) -> (result:
        Result<Pool, AmmError>)
        ensures
            result == Pool::initialize_outcome(authority, amount_a, amount_b, fee_bps),
            result matches Ok(pool) ==> pool.wf() && pool.state() == PoolState::Active
                && pool.total_shares > 0,
    {
        if amount_a == 0 || amount_b == 0 {
            return Err(AmmError::InvalidAmount);
        }
        if fee_bps > MAX_FEE_BPS {
            return Err(AmmError::InvalidFee);
        }
        match checked_mul(amount_a, INITIAL_SHARE_SCALE) {
            Ok(total_shares) => Ok(
                Pool {
                    reserve_a: amount_a,
                    reserve_b: amount_b,
                    total_shares,
                    fee_bps,
                    locked: false,
                    authority,
                },
            ),
            Err(error) => Err(error),
        }
    }

    /// Tells whether the pool is active or locked.
    pub fn current_state(&self) -> (state: PoolState)
        ensures
            state == self.state(),
    {
        if self.locked {
            PoolState::Locked
        } else {
            PoolState::Active
        }
    }

    /// Trades `amount_in` of one asset for the other.
    ///
    /// Fails with `PoolLocked` on a locked pool, with whatever the curve
    /// rejects the trade for, and with `SlippageExceeded` when the output
    /// is below `min_amount_out`. On success both reserves change
    /// together; on failure the pool is as it was. A swap never lowers the
    /// product of the reserves, and raises it whenever a fee was charged.
    pub fn swap(&mut self, amount_in: u64, direction: Direction, min_amount_out: u64) -> (result:
        Result<u64, AmmError>)
        ensures
            result == old(self).swap_outcome(amount_in, direction, min_amount_out),
            result matches Ok(amount_out) ==> *final(self) == old(self).after_swap(
                amount_in,
                direction,
                amount_out,
            ),
            result is Err ==> *final(self) == *old(self),
            old(self).locked ==> result == Err::<u64, AmmError>(AmmError::PoolLocked),
            !old(self).locked && old(self).swap_quote(amount_in, direction) is Ok && old(
                self,
            ).swap_quote(amount_in, direction)->Ok_0 < min_amount_out ==> result == Err::<
                u64,
                AmmError,
            >(AmmError::SlippageExceeded),
            final(self).product() >= old(self).product(),
            result is Ok && fee_amount(amount_in, old(self).fee_bps) > 0 ==> final(self).product()
                > old(self).product(),
            old(self).wf() ==> final(self).wf(),
    {
        if self.locked {
            return Err(AmmError::PoolLocked);
        }
        let (reserve_in, reserve_out) = match direction {
            Direction::AToB => (self.reserve_a, self.reserve_b),
            Direction::BToA => (self.reserve_b, self.reserve_a),
        };
        let amount_out = match quote(reserve_in, reserve_out, amount_in, self.fee_bps) {
            Ok(amount) => amount,
            Err(error) => {
                return Err(error);
            },
        };
        if amount_out < min_amount_out {
            return Err(AmmError::SlippageExceeded);
        }
        proof {
            lemma_swap_raises_product(*self, amount_in, direction, min_amount_out);
        }
        match direction {
            Direction::AToB => {
                self.reserve_a = reserve_in + amount_in;
                self.reserve_b = reserve_out - amount_out;
            },
            Direction::BToA => {
                self.reserve_b = reserve_in + amount_in;
                self.reserve_a = reserve_out - amount_out;
            },
        }
        Ok(amount_out)
    }

    /// Adds liquidity and returns the shares minted for it.
    ///
    /// The pool takes at most the desired amounts, in the ratio of its
    /// reserves. Fails with `PoolLocked` on a locked pool, with whatever
    /// the share accounting rejects the deposit for, with
    /// `SlippageExceeded` when it would take less than `min_a` or `min_b`,
    /// and with `Overflow` when the pool cannot hold the result. On failure
    /// the pool is as it was.
    pub fn deposit(
        &mut self,
        amount_a_desired: u64,
        amount_b_desired: u64,
        min_a: u64,
        min_b: u64,
    ) -> (result: Result<u64, AmmError>)
        ensures
            result == old(self).deposit_outcome(amount_a_desired, amount_b_desired, min_a, min_b),
            result is Ok ==> ({
                let (shares_minted, actual_a, actual_b) = old(self).deposit_quote(
                    amount_a_desired,
                    amount_b_desired,
                )->Ok_0;
                &&& *final(self) == old(self).after_deposit(shares_minted, actual_a, actual_b)
                &&& min_a <= actual_a <= amount_a_desired
                &&& min_b <= actual_b <= amount_b_desired
                &&& 0 < actual_a && 0 < actual_b && 0 < shares_minted
            }),
            result is Err ==> *final(self) == *old(self),
            old(self).locked ==> result == Err::<u64, AmmError>(AmmError::PoolLocked),
            old(self).wf() ==> final(self).wf(),
    {
        if self.locked {
            return Err(AmmError::PoolLocked);
        }
        let (shares_minted, actual_a, actual_b) = match crate::liquidity::deposit(
            self.reserve_a,
            self.reserve_b,
            self.total_shares,
            amount_a_desired,
            amount_b_desired,
        ) {
            Ok(amounts) => amounts,
            Err(error) => {
                return Err(error);
            },
        };
        if actual_a < min_a || actual_b < min_b {
            return Err(AmmError::SlippageExceeded);
        }
        if self.total_shares == 0 {
            self.reserve_a = actual_a;
            self.reserve_b = actual_b;
            self.total_shares = shares_minted;
            return Ok(shares_minted);
        }
        let total_shares = match checked_add(self.total_shares, shares_minted) {
            Ok(sum) => sum,
            Err(error) => {
                return Err(error);
            },
        };
        let reserve_a = match checked_add(self.reserve_a, actual_a) {
            Ok(sum) => sum,
            Err(error) => {
                return Err(error);
            },
        };
        let reserve_b = match checked_add(self.reserve_b, actual_b) {
            Ok(sum) => sum,
            Err(error) => {
                return Err(error);
            },
        };
        self.reserve_a = reserve_a;
        self.reserve_b = reserve_b;
        self.total_shares = total_shares;
        Ok(shares_minted)
    }

    /// Burns shares and returns the amounts of A and B paid out for them.
    ///
    /// Fails with `PoolLocked` on a locked pool, with whatever the share
    /// accounting rejects the withdrawal for, and with `SlippageExceeded`
    /// when it would pay less than `min_a` or `min_b`. On failure the pool
    /// is as it was.
    pub fn withdraw(&mut self, shares_to_burn: u64, min_a: u64, min_b: u64) -> (result: Result<
        (u64, u64),
        AmmError,
    >)
        ensures
            result == old(self).withdraw_outcome(shares_to_burn, min_a, min_b),
            result matches Ok((amount_a, amount_b)) ==> *final(self) == old(self).after_withdraw(
                shares_to_burn,
                amount_a,
                amount_b,
            ),
            result is Err ==> *final(self) == *old(self),
            old(self).locked ==> result == Err::<(u64, u64), AmmError>(AmmError::PoolLocked),
            old(self).wf() ==> final(self).wf(),
    {
        if self.locked {
            return Err(AmmError::PoolLocked);
        }
        let (amount_a, amount_b) = match crate::liquidity::withdraw(
            self.reserve_a,
            self.reserve_b,
            self.total_shares,
            shares_to_burn,
        ) {
            Ok(amounts) => amounts,
            Err(error) => {
                return Err(error);
            },
        };
        if amount_a < min_a || amount_b < min_b {
            return Err(AmmError::SlippageExceeded);
        }
        proof {
            lemma_share_value_within_reserve(self.reserve_a, shares_to_burn, self.total_shares);
            lemma_share_value_within_reserve(self.reserve_b, shares_to_burn, self.total_shares);
        }
        self.reserve_a = self.reserve_a - amount_a;
        self.reserve_b = self.reserve_b - amount_b;
        self.total_shares = self.total_shares - shares_to_burn;
        Ok((amount_a, amount_b))
    }

    /// Locks or unlocks the pool, or changes its fee rate, on behalf of
    /// `caller`.
    ///
    /// Fails with `InvalidAuthority` when `caller` is not the pool's
    /// authority, and with `InvalidFee` when the new rate is above 10000
    /// basis points. Reserves and shares are never touched.
    pub fn update(&mut self, caller: &Identity, change: PoolUpdate) -> (result: Result<
        (),
        AmmError,
    >)
        ensures
            result == old(self).update_outcome(*caller, change),
            result is Ok ==> *final(self) == old(self).after_update(change),
            result is Err ==> *final(self) == *old(self),
            result is Ok && change == PoolUpdate::ToggleLock ==> final(self).state() != old(
                self,
            ).state(),
            old(self).wf() ==> final(self).wf(),
    {
        if !caller.same_as(&self.authority) {
            return Err(AmmError::InvalidAuthority);
        }
        match change {
            PoolUpdate::SetFee(fee_bps) => {
                if fee_bps > MAX_FEE_BPS {
                    return Err(AmmError::InvalidFee);
                }
                self.fee_bps = fee_bps;
            },
            PoolUpdate::ToggleLock => {
                self.locked = !self.locked;
            },
        }
        Ok(())
    }
}

/// Every swap that succeeds leaves the product of the reserves at least as
/// large as it was, keeps both reserves above zero, and leaves the product
/// strictly larger whenever the fee it charged is not zero.
pub proof fn lemma_swap_raises_product(
    pool: Pool,
    amount_in: u64,
    direction: Direction,
    min_amount_out: u64,
)
    requires
        pool.swap_outcome(amount_in, direction, min_amount_out) is Ok,
    ensures
        ({
            let amount_out = pool.swap_outcome(amount_in, direction, min_amount_out)->Ok_0;
            let after = pool.after_swap(amount_in, direction, amount_out);
            &&& after.product() >= pool.product()
            &&& fee_amount(amount_in, pool.fee_bps) > 0 ==> after.product() > pool.product()
            &&& after.product() == pool.product() ==> fee_amount(amount_in, pool.fee_bps) == 0
            &&& after.reserve_in(direction) == pool.reserve_in(direction) + amount_in
            &&& after.reserve_out(direction) == pool.reserve_out(direction) - amount_out
            &&& after.reserve_a > 0 && after.reserve_b > 0
        }),
{
    let amount_out = pool.swap_outcome(amount_in, direction, min_amount_out)->Ok_0;
    let reserve_in = pool.reserve_in(direction);
    let reserve_out = pool.reserve_out(direction);
    let fee = fee_amount(amount_in, pool.fee_bps);
    let net = net_amount(amount_in, pool.fee_bps);
    lemma_fee_within_amount(amount_in, pool.fee_bps);
    lemma_output_keeps_product(reserve_in, reserve_out, net);
    let left = reserve_out - amount_out;
    assert((reserve_in + amount_in) * left >= reserve_in * reserve_out + fee * left
        && fee * left >= fee) by (nonlinear_arith)
        requires
            (reserve_in + net) * left >= reserve_in * reserve_out,
            amount_in == net + fee,
            fee >= 0,
            left >= 1,
    ;
    assert(reserve_in * reserve_out == reserve_out * reserve_in) by (nonlinear_arith);
    assert((reserve_in + amount_in) * left == left * (reserve_in + amount_in))
        by (nonlinear_arith);
}

/// Whoever deposits and then withdraws the shares just minted, with no
/// swap in between, receives no more of either asset than was deposited.
pub proof fn lemma_round_trip_gains_nothing(
    pool: Pool,
    amount_a_desired: u64,
    amount_b_desired: u64,
    deposit_min_a: u64,
    deposit_min_b: u64,
    withdraw_min_a: u64,
    withdraw_min_b: u64,
)
    requires
        pool.deposit_outcome(amount_a_desired, amount_b_desired, deposit_min_a, deposit_min_b)
            is Ok,
    ensures
        ({
            let (shares_minted, actual_a, actual_b) = pool.deposit_quote(
                amount_a_desired,
                amount_b_desired,
            )->Ok_0;
            let after = pool.after_deposit(shares_minted, actual_a, actual_b);
            after.withdraw_outcome(shares_minted, withdraw_min_a, withdraw_min_b) matches Ok(
                (amount_a, amount_b),
            ) ==> amount_a <= actual_a <= amount_a_desired && amount_b <= actual_b
                <= amount_b_desired
        }),
{
    let (shares_minted, actual_a, actual_b) = pool.deposit_quote(
        amount_a_desired,
        amount_b_desired,
    )->Ok_0;
    let after = pool.after_deposit(shares_minted, actual_a, actual_b);
    if pool.total_shares == 0 {
        lemma_share_value_within_reserve(after.reserve_a, shares_minted, after.total_shares);
        lemma_share_value_within_reserve(after.reserve_b, shares_minted, after.total_shares);
    } else {
        lemma_owed_within_offer(
            shares_minted,
            pool.total_shares,
            amount_a_desired,
            pool.reserve_a,
        );
        lemma_owed_within_offer(
            shares_minted,
            pool.total_shares,
            amount_b_desired,
            pool.reserve_b,
        );
        lemma_new_shares_worth_no_more(pool.reserve_a, pool.total_shares, shares_minted);
        lemma_new_shares_worth_no_more(pool.reserve_b, pool.total_shares, shares_minted);
    }
}

/// Burning every share of an unlocked pool pays out both reserves whole,
/// provided that they meet the caller's minimums, and leaves the pool empty.
pub proof fn lemma_full_withdrawal_pays_everything(pool: Pool, min_a: u64, min_b: u64)
    requires
        !pool.locked,
        pool.total_shares > 0,
        pool.reserve_a > 0,
        pool.reserve_b > 0,
        min_a <= pool.reserve_a,
        min_b <= pool.reserve_b,
    ensures
        pool.withdraw_outcome(pool.total_shares, min_a, min_b) == Ok::<(u64, u64), AmmError>(
            (pool.reserve_a, pool.reserve_b),
        ),
        pool.after_withdraw(pool.total_shares, pool.reserve_a, pool.reserve_b).reserve_a == 0,
        pool.after_withdraw(pool.total_shares, pool.reserve_a, pool.reserve_b).reserve_b == 0,
        pool.after_withdraw(pool.total_shares, pool.reserve_a, pool.reserve_b).total_shares == 0,
{
    lemma_share_value_within_reserve(pool.reserve_a, pool.total_shares, pool.total_shares);
    lemma_share_value_within_reserve(pool.reserve_b, pool.total_shares, pool.total_shares);
}

/// A locked pool refuses every deposit, swap and withdrawal.
pub proof fn lemma_locked_pool_refuses(
    pool: Pool,
    amount_a_desired: u64,
    amount_b_desired: u64,
    amount_in: u64,
    direction: Direction,
    min_amount_out: u64,
    shares_to_burn: u64,
    min_a: u64,
    min_b: u64,
)
    requires
        pool.state() == PoolState::Locked,
    ensures
        pool.deposit_outcome(amount_a_desired, amount_b_desired, min_a, min_b) == Err::<
            u64,
            AmmError,
        >(AmmError::PoolLocked),
        pool.swap_outcome(amount_in, direction, min_amount_out) == Err::<u64, AmmError>(
            AmmError::PoolLocked,
        ),
        pool.withdraw_outcome(shares_to_burn, min_a, min_b) == Err::<(u64, u64), AmmError>(
            AmmError::PoolLocked,
        ),
{
}

/// A swap that asks for more than the curve pays is refused for slippage.
pub proof fn lemma_swap_enforces_minimum(
    pool: Pool,
    amount_in: u64,
    direction: Direction,
    min_amount_out: u64,
)
    requires
        !pool.locked,
        pool.swap_quote(amount_in, direction) is Ok,
        min_amount_out > pool.swap_quote(amount_in, direction)->Ok_0,
    ensures
        pool.swap_outcome(amount_in, direction, min_amount_out) == Err::<u64, AmmError>(
            AmmError::SlippageExceeded,
        ),
{
}

} // verus!
