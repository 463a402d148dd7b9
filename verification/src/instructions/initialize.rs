use vstd::prelude::*;

use crate::error::AmmError;
use crate::state::Pool;

verus! {

/// Whether two addresses are the same 32 bytes.
pub fn same_address(a: &[u8; 32], b: &[u8; 32]) -> (same: bool)
    ensures
        same == (a@ == b@),
{
    let mut i: usize = 0;
    while i < 32
        invariant
            0 <= i <= 32,
            a@.len() == 32,
            b@.len() == 32,
            forall|j: int| 0 <= j < i ==> a@[j] == b@[j],
        decreases 32 - i,
    {
        if a[i] != b[i] {
            return false;
        }
        i = i + 1;
    }
    assert(a@ =~= b@);
    true
}

/// The pool that `handle_initialize` creates: the given accounts and bump,
/// with empty reserves and no shares.
pub open spec fn new_pool(
    mint_a: [u8; 32],
    mint_b: [u8; 32],
    vault_a: [u8; 32],
    vault_b: [u8; 32],
    treasury: [u8; 32],
    treasury_vault_a: [u8; 32],
    treasury_vault_b: [u8; 32],
    bump: u8,
) -> Pool {
    Pool {
        mint_a,
        mint_b,
        vault_a,
        vault_b,
        treasury,
        treasury_vault_a,
        treasury_vault_b,
        reserve_a: 0,
        reserve_b: 0,
        total_shares: 0,
        bump,
    }
}

/// Create a new pool for the (mint_a, mint_b) pair with empty reserves.
/// The two mints must differ.
pub fn handle_initialize(
    mint_a: [u8; 32],
    mint_b: [u8; 32],
    vault_a: [u8; 32],
    vault_b: [u8; 32],
    treasury: [u8; 32],
    treasury_vault_a: [u8; 32],
    treasury_vault_b: [u8; 32],
    bump: u8,
) -> (result: Result<Pool, AmmError>)
    ensures
        mint_a@ == mint_b@ ==> result == Err::<Pool, AmmError>(AmmError::IdenticalMints),
        mint_a@ != mint_b@ ==> result == Ok::<Pool, AmmError>(
            new_pool(
                mint_a,
                mint_b,
                vault_a,
                vault_b,
                treasury,
                treasury_vault_a,
                treasury_vault_b,
                bump,
            ),
        ),
        result matches Ok(pool) ==> pool.is_consistent(),
        result is Ok <==> mint_a@ != mint_b@,
        result matches Ok(pool) ==> {
            &&& pool.reserve_a == 0
            &&& pool.reserve_b == 0
            &&& pool.total_shares == 0
            &&& pool.mint_a == mint_a
            &&& pool.mint_b == mint_b
            &&& pool.vault_a == vault_a
            &&& pool.vault_b == vault_b
            &&& pool.treasury == treasury
            &&& pool.treasury_vault_a == treasury_vault_a
            &&& pool.treasury_vault_b == treasury_vault_b
            &&& pool.bump == bump
        },
{
    if same_address(&mint_a, &mint_b) {
        return Err(AmmError::IdenticalMints);
    }
    Ok(
        Pool {
            mint_a,
            mint_b,
            vault_a,
            vault_b,
            treasury,
            treasury_vault_a,
            treasury_vault_b,
            reserve_a: 0,
            reserve_b: 0,
            total_shares: 0,
            bump,
        },
    )
}

} // verus!
