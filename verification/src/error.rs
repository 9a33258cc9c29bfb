//! The error kinds of the pool and of the curve layer below it.

use vstd::prelude::*;

verus! {

/// Why a pool operation was rejected. Every variant aborts the whole
/// operation; no state changes on any of them.
#[derive(Clone, Copy, Debug, PartialEq, Eq, Structural)]
pub enum AmmError {
    /// The operation was attempted while the pool is locked.
    PoolLocked,
    /// The caller is not the pool's authority.
    InvalidAuthority,
    /// A supplied amount is zero or otherwise unusable for the operation.
    InvalidAmount,
    /// An amount cannot be expressed exactly at the requested decimal scale.
    InvalidPrecision,
    /// A value exceeded the representable range.
    Overflow,
    /// A subtraction would have gone below zero.
    Underflow,
    /// The fee rate lies outside `[0, 10000]` basis points.
    InvalidFee,
    /// More shares or reserves were asked for than are available.
    Insufficientbalance,
    /// A reserve or a divisor is zero.
    ZeroBalance,
    /// A computed amount violates the bound that the caller supplied.
    SlippageExceeded,
}

/// The error kinds that a constant-product curve computation reports.
#[derive(Clone, Copy, Debug, PartialEq, Eq, Structural)]
pub enum CurveError {
    InvalidPrecision,
    Overflow,
    Underflow,
    InvalidFeeAmount,
    InsufficientBalance,
    ZeroBalance,
    SlippageLimitExceeded,
}

impl AmmError {
    /// The pool error that stands for a given curve error.
    pub open spec fn of_curve(error: CurveError) -> AmmError {
        match error {
            CurveError::InvalidPrecision => AmmError::InvalidPrecision,
            CurveError::Overflow => AmmError::Overflow,
            CurveError::Underflow => AmmError::Underflow,
            CurveError::InvalidFeeAmount => AmmError::InvalidFee,
            CurveError::InsufficientBalance => AmmError::Insufficientbalance,
            CurveError::ZeroBalance => AmmError::ZeroBalance,
            CurveError::SlippageLimitExceeded => AmmError::SlippageExceeded,
        }
    }

    /// The text shown to a user for each error kind.
    pub open spec fn message_text(self) -> Seq<char> {
        match self {
            AmmError::PoolLocked => "This pool is locked"@,
            AmmError::InvalidAuthority => "Invalid update authority"@,
            AmmError::InvalidAmount => "Invalid Amount"@,
            AmmError::InvalidPrecision => "Invalid precision"@,
            AmmError::Overflow => "Overflow"@,
            AmmError::Underflow => "Underflow"@,
            AmmError::InvalidFee => "Invalid fee"@,
            AmmError::Insufficientbalance => "Insufficient balance"@,
            AmmError::ZeroBalance => "Zero balance"@,
            AmmError::SlippageExceeded => "Slippage exceeded"@,
        }
    }

    /// Returns the user-facing text of this error.
    pub fn message(&self) -> (text: &'static str)
        ensures
            text@ == self.message_text(),
    {
        match self {
            AmmError::PoolLocked => "This pool is locked",
            AmmError::InvalidAuthority => "Invalid update authority",
            AmmError::InvalidAmount => "Invalid Amount",
            AmmError::InvalidPrecision => "Invalid precision",
            AmmError::Overflow => "Overflow",
            AmmError::Underflow => "Underflow",
            AmmError::InvalidFee => "Invalid fee",
            AmmError::Insufficientbalance => "Insufficient balance",
            AmmError::ZeroBalance => "Zero balance",
            AmmError::SlippageExceeded => "Slippage exceeded",
        }
    }
}

impl From<CurveError> for AmmError {
    /// Maps each curve error to the pool error of the same meaning.
    fn from(error: CurveError) -> (result: AmmError) {
        match error {
            CurveError::InvalidPrecision => AmmError::InvalidPrecision,
            CurveError::Overflow => AmmError::Overflow,
            CurveError::Underflow => AmmError::Underflow,
            CurveError::InvalidFeeAmount => AmmError::InvalidFee,
            CurveError::InsufficientBalance => AmmError::Insufficientbalance,
            CurveError::ZeroBalance => AmmError::ZeroBalance,
            CurveError::SlippageLimitExceeded => AmmError::SlippageExceeded,
        }
    }
}

impl vstd::std_specs::convert::FromSpecImpl<CurveError> for AmmError {
    open spec fn obeys_from_spec() -> bool {
        true
    }

    open spec fn from_spec(error: CurveError) -> AmmError {
        AmmError::of_curve(error)
    }
}

/// Distinct curve errors are never merged into one pool error.
pub proof fn lemma_of_curve_injective(first: CurveError, second: CurveError)
    requires
        AmmError::of_curve(first) == AmmError::of_curve(second),
    ensures
        first == second,
{
}

} // verus!
