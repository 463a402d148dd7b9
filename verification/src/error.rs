use vstd::prelude::*;

verus! {

/// The ways an instruction of the pool can be refused.
#[derive(Debug, Clone, Copy, PartialEq, Eq)]
pub enum AmmError {
    /// Amount must be greater than zero.
    InvalidAmount,
    /// Pool must be initialized with two different mints.
    IdenticalMints,
    /// Pool does not have enough liquidity for this operation.
    InsufficientLiquidity,
    /// Position does not have enough shares for this withdrawal.
    InsufficientShares,
    /// Calculation overflowed.
    MathOverflow,
}

} // verus!
