//! Error taxonomy of the market-maker core.

use vstd::prelude::*;

verus! {

/// Everything that an operation of the core can fail with.
///
/// All variants but `InvariantViolated` are expected conditions that the
/// caller recovers from by retrying with corrected inputs.
/// `InvariantViolated` signals an arithmetic or integration defect: the host
/// transaction must discard every effect of the operation.
#[derive(Clone, Copy, Debug, PartialEq, Eq, Structural)]
pub enum AmmError {
    /// The fee rate is at or above 100% (10000 basis points).
    InvalidFee,
    /// The two asset identifiers were not presented in canonical order.
    OrderingViolation,
    /// A pool for this (market, asset pair) key already exists.
    DuplicatePool,
    /// No pool exists for this (market, asset pair) key.
    NotFound,
    /// A bootstrap deposit is below the permanently locked minimum.
    DepositTooSmall,
    /// A withdrawal asks for more shares than the caller owns.
    InsufficientShares,
    /// The caller's spendable balance does not cover the swap input.
    InsufficientBalance,
    /// The swap output is below the caller's acceptable minimum.
    OutputBelowMinimum,
    /// The reserve product shrank; the whole operation must be rolled back.
    InvariantViolated,
}

impl AmmError {
    /// Whether the caller may treat the failure as recoverable: every error
    /// but `InvariantViolated` is.
    pub fn recoverable(&self) -> (r: bool)
        ensures
            r == !(*self is InvariantViolated),
    {
        !matches!(self, AmmError::InvariantViolated)
    }
}

} // verus!
