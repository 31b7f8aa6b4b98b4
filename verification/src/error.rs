//! The ways in which an operation on a pool fails.

use vstd::prelude::*;

verus! {

/// Why an operation was refused. Every failure is final: the operation has
/// changed nothing, and the caller has to submit it again with other
/// arguments.
#[derive(Clone, Copy, Debug, PartialEq, Eq)]
pub enum AmmError {
    /// An amount given by the caller is zero, or an amount that has to be
    /// positive came out as zero.
    InvalidAmount,
    /// A computed amount is below the minimum that the caller declared.
    SlippageExceeded,
    /// The fee denominator is zero, or the fee is not below one.
    InvalidFee,
    /// A product or a sum of the pricing formula leaves the 128-bit range, or
    /// an amount to mint leaves the 64-bit range.
    ArithmeticOverflow,
    /// The ledger cannot apply the effects to the balances it holds: a vault
    /// balance or the share supply would leave the 64-bit range, or more
    /// shares would be burned than exist.
    LedgerFailure,
}

impl AmmError {
    /// The message shown to the caller for this failure.
    pub open spec fn spec_message(&self) -> Seq<char> {
        match self {
            AmmError::InvalidAmount => "Invalid amount provided"@,
            AmmError::SlippageExceeded => "Slippage tolerance exceeded"@,
            AmmError::InvalidFee => "Invalid fee configuration"@,
            AmmError::ArithmeticOverflow => "Arithmetic overflow"@,
            AmmError::LedgerFailure => "Ledger cannot apply the operation"@,
        }
    }

    /// The message shown to the caller for this failure.
    pub fn message(&self) -> (text: &'static str)
        ensures
            text@ == self.spec_message(),
    {
        match self {
            AmmError::InvalidAmount => "Invalid amount provided",
            AmmError::SlippageExceeded => "Slippage tolerance exceeded",
            AmmError::InvalidFee => "Invalid fee configuration",
            AmmError::ArithmeticOverflow => "Arithmetic overflow",
            AmmError::LedgerFailure => "Ledger cannot apply the operation",
        }
    }
}

} // verus!
