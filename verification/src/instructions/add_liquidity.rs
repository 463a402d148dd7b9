use vstd::arithmetic::mul::*;
use vstd::prelude::*;

use crate::error::AmmError;
use crate::laws::{
    lemma_first_deposit_mints_the_floor_square_root,
    lemma_later_deposit_mints_the_smaller_proportional_side,
};
use crate::math::{floor_sqrt, integer_sqrt};
use crate::state::{Pool, Position};

verus! {

/// How many shares a deposit of `amount_a` and `amount_b` is worth.
///
/// The first deposit sets the initial price: `shares = floor(sqrt(a * b))`.
/// Later deposits mint shares proportional to the pool's current ratio,
/// taking the smaller of the two proportional amounts, so a deposit that
/// does not match the pool ratio is credited only for its limiting side.
pub open spec fn deposit_shares(pool: Pool, amount_a: u64, amount_b: u64) -> int {
    if pool.total_shares == 0 {
        floor_sqrt((amount_a * amount_b) as nat) as int
    } else {
        let shares_a = (amount_a * pool.total_shares) / (pool.reserve_a as int);
        let shares_b = (amount_b * pool.total_shares) / (pool.reserve_b as int);
        if shares_a <= shares_b {
            shares_a
        } else {
            shares_b
        }
    }
}

/// The outcome of quoting a deposit: the shares it mints, or why it is refused.
pub open spec fn add_liquidity_quote(pool: Pool, amount_a: u64, amount_b: u64) -> Result<u64, AmmError> {
    let shares = deposit_shares(pool, amount_a, amount_b);
    if amount_a == 0 || amount_b == 0 {
        Err(AmmError::InvalidAmount)
    } else if shares > u64::MAX {
        Err(AmmError::MathOverflow)
    } else if shares == 0 {
        Err(AmmError::InvalidAmount)
    } else {
        Ok(shares as u64)
    }
}

/// Every counter that a deposit increases stays within a `u64`.
pub open spec fn deposit_fits(
    pool: Pool,
    position: Position,
    amount_a: u64,
    amount_b: u64,
    shares: u64,
) -> bool {
    &&& pool.reserve_a + amount_a <= u64::MAX
    &&& pool.reserve_b + amount_b <= u64::MAX
    &&& pool.total_shares + shares <= u64::MAX
    &&& position.shares + shares <= u64::MAX
}

/// The pool after a deposit of `amount_a` and `amount_b` minting `shares`.
pub open spec fn pool_after_deposit(pool: Pool, amount_a: u64, amount_b: u64, shares: u64) -> Pool {
    Pool {
        reserve_a: (pool.reserve_a + amount_a) as u64,
        reserve_b: (pool.reserve_b + amount_b) as u64,
        total_shares: (pool.total_shares + shares) as u64,
        ..pool
    }
}

/// The depositor's position after a deposit minting `shares`: it records
/// the pool, its owner and its bump, and holds `shares` more.
pub open spec fn position_after_deposit(
    position: Position,
    pool_key: [u8; 32],
    user: [u8; 32],
    position_bump: u8,
    shares: u64,
) -> Position {
    Position {
        pool: pool_key,
        owner: user,
        shares: (position.shares + shares) as u64,
        bump: position_bump,
    }
}

/// Quote a deposit of `amount_a` of token A and `amount_b` of token B:
/// every check that comes before a token moves. Returns the shares minted.
pub fn quote_add_liquidity(pool: &Pool, amount_a: u64, amount_b: u64) -> (result: Result<u64, AmmError>)
    requires
        amount_a > 0 && amount_b > 0 ==> pool.shares_are_backed(),
    ensures
        result == add_liquidity_quote(*pool, amount_a, amount_b),
        amount_a == 0 || amount_b == 0 ==> result == Err::<u64, AmmError>(AmmError::InvalidAmount),
        pool.total_shares > 0 && pool.reserve_a > 0 && pool.reserve_b > 0 ==> ({
            let shares_a = (amount_a * pool.total_shares) / (pool.reserve_a as int);
            let shares_b = (amount_b * pool.total_shares) / (pool.reserve_b as int);
            let minted = if shares_a <= shares_b {
                shares_a
            } else {
                shares_b
            };
            &&& result matches Ok(shares) ==> shares == minted && shares > 0
            &&& (amount_a > 0 && amount_b > 0 && 1 <= minted <= u64::MAX) ==> result is Ok
        }),
        pool.total_shares == 0 && amount_a > 0 && amount_b > 0 ==> (result matches Ok(shares)
            && shares * shares <= amount_a * amount_b && amount_a * amount_b < (shares + 1) * (
        shares + 1)),
{
    proof {
        if pool.total_shares > 0 && pool.reserve_a > 0 && pool.reserve_b > 0 {
            lemma_later_deposit_mints_the_smaller_proportional_side(*pool, amount_a, amount_b);
        }
        if pool.total_shares == 0 && amount_a > 0 && amount_b > 0 {
            lemma_first_deposit_mints_the_floor_square_root(*pool, amount_a, amount_b);
        }
    }
    if !(amount_a > 0 && amount_b > 0) {
        return Err(AmmError::InvalidAmount);
    }
    let shares_wide: u128 = if pool.total_shares == 0 {
        proof {
            lemma_mul_upper_bound(
                amount_a as int,
                u64::MAX as int,
                amount_b as int,
                u64::MAX as int,
            );
        }
        integer_sqrt((amount_a as u128) * (amount_b as u128))
    } else {
        proof {
            lemma_mul_upper_bound(
                amount_a as int,
                u64::MAX as int,
                pool.total_shares as int,
                u64::MAX as int,
            );
            lemma_mul_upper_bound(
                amount_b as int,
                u64::MAX as int,
                pool.total_shares as int,
                u64::MAX as int,
            );
        }
        let shares_a: u128 = (amount_a as u128) * (pool.total_shares as u128) / (
        pool.reserve_a as u128);
        let shares_b: u128 = (amount_b as u128) * (pool.total_shares as u128) / (
        pool.reserve_b as u128);
        if shares_a <= shares_b {
            shares_a
        } else {
            shares_b
        }
    };
    if shares_wide > u64::MAX as u128 {
        return Err(AmmError::MathOverflow);
    }
    let shares: u64 = shares_wide as u64;
    if shares == 0 {
        return Err(AmmError::InvalidAmount);
    }
    Ok(shares)
}

/// Credit a deposit, after both tokens have moved into the vaults: the
/// reserves grow by the deposited amounts, and the pool's total and the
/// position's shares by `shares_minted`. Refused, with nothing changed,
/// when a counter would overflow.
pub fn settle_add_liquidity(
    pool: &mut Pool,
    position: &mut Position,
    pool_key: [u8; 32],
    user: [u8; 32],
    position_bump: u8,
    amount_a: u64,
    amount_b: u64,
    shares_minted: u64,
) -> (result: Result<(), AmmError>)
    ensures
        result is Ok <==> (old(pool).reserve_a + amount_a <= u64::MAX && old(pool).reserve_b
            + amount_b <= u64::MAX && old(pool).total_shares + shares_minted <= u64::MAX && old(
        position).shares + shares_minted <= u64::MAX),
        result is Ok ==> final(pool).reserve_a == old(pool).reserve_a + amount_a
            && final(pool).reserve_b == old(pool).reserve_b + amount_b && final(pool).total_shares
            == old(pool).total_shares + shares_minted && final(position).shares == old(
        position).shares + shares_minted && final(pool).same_accounts(*old(pool))
            && final(position).owner == user && final(position).pool == pool_key
            && final(position).bump == position_bump,
        deposit_fits(*old(pool), *old(position), amount_a, amount_b, shares_minted) ==> result is Ok
            && *final(pool) == pool_after_deposit(*old(pool), amount_a, amount_b, shares_minted)
            && *final(position) == position_after_deposit(
            *old(position),
            pool_key,
            user,
            position_bump,
            shares_minted,
        ),
        !deposit_fits(*old(pool), *old(position), amount_a, amount_b, shares_minted) ==> result
            == Err::<(), AmmError>(AmmError::MathOverflow) && *final(pool) == *old(pool)
            && *final(position) == *old(position),
{
    if amount_a > u64::MAX - pool.reserve_a {
        return Err(AmmError::MathOverflow);
    }
    if amount_b > u64::MAX - pool.reserve_b {
        return Err(AmmError::MathOverflow);
    }
    if shares_minted > u64::MAX - pool.total_shares {
        return Err(AmmError::MathOverflow);
    }
    if shares_minted > u64::MAX - position.shares {
        return Err(AmmError::MathOverflow);
    }
    pool.reserve_a = pool.reserve_a + amount_a;
    pool.reserve_b = pool.reserve_b + amount_b;
    pool.total_shares = pool.total_shares + shares_minted;
    position.pool = pool_key;
    position.owner = user;
    position.shares = position.shares + shares_minted;
    position.bump = position_bump;
    Ok(())
}

/// The whole effect of a deposit on the pool and the depositor's position,
/// given that both transfers go through: quote it, then settle it.
/// Returns the shares minted.
pub fn handle_add_liquidity(
    pool: &mut Pool,
    position: &mut Position,
    pool_key: [u8; 32],
    user: [u8; 32],
    position_bump: u8,
    amount_a: u64,
    amount_b: u64,
) -> (result: Result<u64, AmmError>)
    requires
        amount_a > 0 && amount_b > 0 ==> old(pool).shares_are_backed(),
    ensures
        (match add_liquidity_quote(*old(pool), amount_a, amount_b) {
            Err(e) => result == Err::<u64, AmmError>(e) && *final(pool) == *old(pool)
                && *final(position) == *old(position),
            Ok(shares) => if deposit_fits(*old(pool), *old(position), amount_a, amount_b, shares) {
                result == Ok::<u64, AmmError>(shares) && *final(pool) == pool_after_deposit(
                    *old(pool),
                    amount_a,
                    amount_b,
                    shares,
                ) && *final(position) == position_after_deposit(
                    *old(position),
                    pool_key,
                    user,
                    position_bump,
                    shares,
                )
            } else {
                result == Err::<u64, AmmError>(AmmError::MathOverflow) && *final(pool)
                    == *old(pool) && *final(position) == *old(position)
            },
        }),
        old(pool).is_consistent() && result is Ok ==> final(pool).is_consistent(),
        old(pool).total_shares > 0 && old(pool).reserve_a > 0 && old(pool).reserve_b > 0 ==> ({
            let shares_a = (amount_a * old(pool).total_shares) / (old(pool).reserve_a as int);
            let shares_b = (amount_b * old(pool).total_shares) / (old(pool).reserve_b as int);
            let minted = if shares_a <= shares_b {
                shares_a
            } else {
                shares_b
            };
            result matches Ok(shares) ==> shares == minted && shares > 0
        }),
        old(pool).total_shares == 0 && amount_a > 0 && amount_b > 0 ==> (result matches Ok(shares) ==> shares
            * shares <= amount_a * amount_b && amount_a * amount_b < (shares + 1) * (shares + 1)),
        result matches Ok(shares) ==> {
            &&& final(pool).reserve_a == old(pool).reserve_a + amount_a
            &&& final(pool).reserve_b == old(pool).reserve_b + amount_b
            &&& final(pool).total_shares == old(pool).total_shares + shares
            &&& final(position).shares == old(position).shares + shares
            &&& final(position).owner == user
        },
{
    proof {
        if old(pool).total_shares > 0 && old(pool).reserve_a > 0 && old(pool).reserve_b > 0 {
            lemma_later_deposit_mints_the_smaller_proportional_side(*old(pool), amount_a, amount_b);
        }
        if old(pool).total_shares == 0 && amount_a > 0 && amount_b > 0 {
            lemma_first_deposit_mints_the_floor_square_root(*old(pool), amount_a, amount_b);
        }
    }
    let shares_minted = match quote_add_liquidity(pool, amount_a, amount_b) {
        Ok(s) => s,
        Err(e) => return Err(e),
    };
    match settle_add_liquidity(
        pool,
        position,
        pool_key,
        user,
        position_bump,
        amount_a,
        amount_b,
        shares_minted,
    ) {
        Ok(()) => Ok(shares_minted),
        Err(e) => Err(e),
    }
}

} // verus!
