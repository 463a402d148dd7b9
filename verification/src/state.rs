use vstd::prelude::*;

verus! {

/// A single constant-product pool for one token pair (mint_a / mint_b).
///
/// Every address is held as its 32 raw bytes. `reserve_a` / `reserve_b`
/// are the pool's bookkeeping of how many tokens are in `vault_a` /
/// `vault_b`; every instruction updates them explicitly.
#[derive(Debug, Clone, Copy, PartialEq, Eq)]
pub struct Pool {
    /// Mint of token A.
    pub mint_a: [u8; 32],
    /// Mint of token B.
    pub mint_b: [u8; 32],
    /// Token account holding the pool's token A, owned by the pool.
    pub vault_a: [u8; 32],
    /// Token account holding the pool's token B, owned by the pool.
    pub vault_b: [u8; 32],
    /// Wallet that owns the treasury vaults and receives protocol fees.
    pub treasury: [u8; 32],
    /// Treasury's token A account: receives the token A side of swap fees.
    pub treasury_vault_a: [u8; 32],
    /// Treasury's token B account: receives the token B side of swap fees.
    pub treasury_vault_b: [u8; 32],
    /// Current token A reserve.
    pub reserve_a: u64,
    /// Current token B reserve.
    pub reserve_b: u64,
    /// Total liquidity shares minted across all providers.
    pub total_shares: u64,
    /// Bump of the pool's program address.
    pub bump: u8,
}

/// One liquidity provider's share of a single pool.
#[derive(Debug, Clone, Copy, PartialEq, Eq)]
pub struct Position {
    /// Pool this position belongs to.
    pub pool: [u8; 32],
    /// Owner of this position.
    pub owner: [u8; 32],
    /// Liquidity shares owned by this user.
    pub shares: u64,
    /// Bump of the position's program address.
    pub bump: u8,
}

impl Pool {
    /// The invariant every instruction keeps: shares are outstanding
    /// exactly when both reserves are non-empty.
    pub open spec fn is_consistent(self) -> bool {
        &&& (self.total_shares == 0) == (self.reserve_a == 0)
        &&& (self.total_shares == 0) == (self.reserve_b == 0)
    }

    /// Outstanding shares are backed by non-empty reserves on both sides
    /// (what a proportional deposit divides by).
    pub open spec fn shares_are_backed(self) -> bool {
        self.total_shares > 0 ==> self.reserve_a > 0 && self.reserve_b > 0
    }

    /// `self` records the same mints, vaults, treasury and bump as `other`:
    /// only the balances may differ.
    pub open spec fn same_accounts(self, other: Pool) -> bool {
        &&& self.mint_a == other.mint_a
        &&& self.mint_b == other.mint_b
        &&& self.vault_a == other.vault_a
        &&& self.vault_b == other.vault_b
        &&& self.treasury == other.treasury
        &&& self.treasury_vault_a == other.treasury_vault_a
        &&& self.treasury_vault_b == other.treasury_vault_b
        &&& self.bump == other.bump
    }
}

} // verus!
