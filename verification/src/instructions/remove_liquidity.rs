use vstd::arithmetic::div_mod::*;
use vstd::arithmetic::mul::*;
use vstd::prelude::*;

use crate::error::AmmError;
use crate::instructions::initialize::same_address;
use crate::laws::lemma_withdrawal_is_the_burned_fraction;
use crate::state::{Pool, Position};

verus! {

/// The part of `reserve` that burning `shares` out of `total_shares`
/// withdraws: `reserve * shares / total_shares`, rounded down.
pub open spec fn withdrawal(reserve: u64, shares: u64, total_shares: u64) -> int {
    (reserve * shares) / (total_shares as int)
}

/// The outcome of quoting a withdrawal of `shares` from `position` by
/// `user`: the amounts of token A and token B it returns, or why it is refused.
pub open spec fn remove_liquidity_quote(
    pool: Pool,
    position: Position,
    user: [u8; 32],
    shares: u64,
) -> Result<(u64, u64), AmmError> {
    let amount_a = withdrawal(pool.reserve_a, shares, pool.total_shares);
    let amount_b = withdrawal(pool.reserve_b, shares, pool.total_shares);
    if position.owner@ != user@ {
        Err(AmmError::InsufficientShares)
    } else if shares == 0 {
        Err(AmmError::InvalidAmount)
    } else if position.shares < shares {
        Err(AmmError::InsufficientShares)
    } else if pool.total_shares == 0 {
        Err(AmmError::InsufficientLiquidity)
    } else if amount_a > u64::MAX || amount_b > u64::MAX {
        Err(AmmError::MathOverflow)
    } else if amount_a == 0 || amount_b == 0 {
        Err(AmmError::InvalidAmount)
    } else if pool.reserve_a < amount_a || pool.reserve_b < amount_b {
        Err(AmmError::InsufficientLiquidity)
    } else {
        Ok((amount_a as u64, amount_b as u64))
    }
}

/// Every counter that a withdrawal decreases stays non-negative.
pub open spec fn withdrawal_fits(
    pool: Pool,
    position: Position,
    shares: u64,
    amount_a: u64,
    amount_b: u64,
) -> bool {
    &&& amount_a <= pool.reserve_a
    &&& amount_b <= pool.reserve_b
    &&& shares <= pool.total_shares
    &&& shares <= position.shares
}

/// The pool after a withdrawal of `amount_a` and `amount_b` burning `shares`.
pub open spec fn pool_after_withdrawal(pool: Pool, shares: u64, amount_a: u64, amount_b: u64) -> Pool {
    Pool {
        reserve_a: (pool.reserve_a - amount_a) as u64,
        reserve_b: (pool.reserve_b - amount_b) as u64,
        total_shares: (pool.total_shares - shares) as u64,
        ..pool
    }
}

/// The position after `shares` of it are burned.
pub open spec fn position_after_withdrawal(position: Position, shares: u64) -> Position {
    Position { shares: (position.shares - shares) as u64, ..position }
}

/// Quote burning `shares` of `position`, signed by `user`: every check that
/// comes before a token moves. The same fraction of both reserves is
/// withdrawn as the fraction of total shares being burned.
pub fn quote_remove_liquidity(pool: &Pool, position: &Position, user: [u8; 32], shares: u64) -> (result:
    Result<(u64, u64), AmmError>)
    ensures
        result == remove_liquidity_quote(*pool, *position, user, shares),
        position.owner@ != user@ ==> result == Err::<(u64, u64), AmmError>(
            AmmError::InsufficientShares,
        ),
        position.owner@ == user@ && shares == 0 ==> result == Err::<(u64, u64), AmmError>(
            AmmError::InvalidAmount,
        ),
        position.owner@ == user@ && 0 < shares && position.shares < shares ==> result == Err::<
            (u64, u64),
            AmmError,
        >(AmmError::InsufficientShares),
        position.owner@ == user@ && 0 < shares <= position.shares && pool.total_shares == 0
            ==> result == Err::<(u64, u64), AmmError>(AmmError::InsufficientLiquidity),
        result matches Ok((amount_a, amount_b)) ==> {
            &&& amount_a == (pool.reserve_a * shares) / (pool.total_shares as int)
            &&& amount_b == (pool.reserve_b * shares) / (pool.total_shares as int)
            &&& 0 < shares <= position.shares
            &&& 0 < amount_a <= pool.reserve_a
            &&& 0 < amount_b <= pool.reserve_b
        },
        ({
            &&& position.owner@ == user@
            &&& 0 < shares <= position.shares
            &&& shares <= pool.total_shares
            &&& (pool.reserve_a * shares) / (pool.total_shares as int) > 0
            &&& (pool.reserve_b * shares) / (pool.total_shares as int) > 0
        }) ==> result == Ok::<(u64, u64), AmmError>(
            (
                ((pool.reserve_a * shares) / (pool.total_shares as int)) as u64,
                ((pool.reserve_b * shares) / (pool.total_shares as int)) as u64,
            ),
        ),
{
    proof {
        lemma_withdrawal_is_the_burned_fraction(*pool, *position, user, shares);
    }
    if !same_address(&position.owner, &user) {
        return Err(AmmError::InsufficientShares);
    }
    if shares == 0 {
        return Err(AmmError::InvalidAmount);
    }
    if position.shares < shares {
        return Err(AmmError::InsufficientShares);
    }
    if pool.total_shares == 0 {
        return Err(AmmError::InsufficientLiquidity);
    }
    proof {
        lemma_mul_upper_bound(
            pool.reserve_a as int,
            u64::MAX as int,
            shares as int,
            u64::MAX as int,
        );
        lemma_mul_upper_bound(
            pool.reserve_b as int,
            u64::MAX as int,
            shares as int,
            u64::MAX as int,
        );
    }
    let amount_a_wide: u128 = (pool.reserve_a as u128) * (shares as u128) / (
    pool.total_shares as u128);
    if amount_a_wide > u64::MAX as u128 {
        return Err(AmmError::MathOverflow);
    }
    let amount_b_wide: u128 = (pool.reserve_b as u128) * (shares as u128) / (
    pool.total_shares as u128);
    if amount_b_wide > u64::MAX as u128 {
        return Err(AmmError::MathOverflow);
    }
    let amount_a: u64 = amount_a_wide as u64;
    let amount_b: u64 = amount_b_wide as u64;
    if !(amount_a > 0 && amount_b > 0) {
        return Err(AmmError::InvalidAmount);
    }
    if !(pool.reserve_a >= amount_a && pool.reserve_b >= amount_b) {
        return Err(AmmError::InsufficientLiquidity);
    }
    Ok((amount_a, amount_b))
}

/// Debit a withdrawal, after both tokens have moved out of the vaults: the
/// reserves shrink by the withdrawn amounts, and the pool's total and the
/// position's shares by `shares`. Refused, with nothing changed, when a
/// counter would go below zero.
pub fn settle_remove_liquidity(
    pool: &mut Pool,
    position: &mut Position,
    shares: u64,
    amount_a: u64,
    amount_b: u64,
) -> (result: Result<(), AmmError>)
    ensures
        result is Ok <==> (amount_a <= old(pool).reserve_a && amount_b <= old(pool).reserve_b
            && shares <= old(pool).total_shares && shares <= old(position).shares),
        result is Ok ==> final(pool).reserve_a == old(pool).reserve_a - amount_a
            && final(pool).reserve_b == old(pool).reserve_b - amount_b && final(pool).total_shares
            == old(pool).total_shares - shares && final(position).shares == old(position).shares
            - shares && final(pool).same_accounts(*old(pool)) && final(position).owner == old(
        position).owner && final(position).pool == old(position).pool,
        withdrawal_fits(*old(pool), *old(position), shares, amount_a, amount_b) ==> result is Ok
            && *final(pool) == pool_after_withdrawal(*old(pool), shares, amount_a, amount_b)
            && *final(position) == position_after_withdrawal(*old(position), shares),
        !withdrawal_fits(*old(pool), *old(position), shares, amount_a, amount_b) ==> result
            == Err::<(), AmmError>(AmmError::MathOverflow) && *final(pool) == *old(pool)
            && *final(position) == *old(position),
{
    if amount_a > pool.reserve_a || amount_b > pool.reserve_b {
        return Err(AmmError::MathOverflow);
    }
    if shares > pool.total_shares || shares > position.shares {
        return Err(AmmError::MathOverflow);
    }
    pool.reserve_a = pool.reserve_a - amount_a;
    pool.reserve_b = pool.reserve_b - amount_b;
    pool.total_shares = pool.total_shares - shares;
    position.shares = position.shares - shares;
    Ok(())
}

/// Burning part of the shares withdraws less than the whole reserve;
/// burning all of them withdraws exactly the whole reserve.
pub proof fn lemma_withdrawal_bounds(reserve: u64, shares: u64, total_shares: u64)
    requires
        0 < total_shares,
        shares <= total_shares,
    ensures
        0 <= withdrawal(reserve, shares, total_shares) <= reserve,
        shares == total_shares ==> withdrawal(reserve, shares, total_shares) == reserve,
        shares < total_shares && reserve > 0 ==> withdrawal(reserve, shares, total_shares)
            < reserve,
{
    let t = total_shares as int;
    let x = reserve * shares;
    let q = x / t;
    lemma_mul_nonnegative(reserve as int, shares as int);
    lemma_div_pos_is_pos(x, t);
    lemma_fundamental_div_mod(x, t);
    lemma_mod_bound(x, t);
    lemma_mul_inequality(shares as int, t, reserve as int);
    lemma_mul_is_commutative(shares as int, reserve as int);
    lemma_mul_is_commutative(t, reserve as int);
    if q > reserve {
        lemma_mul_inequality(reserve + 1, q, t);
        lemma_mul_is_commutative(q, t);
        lemma_mul_is_distributive_add(t, reserve as int, 1);
        assert(false);
    }
    if shares == total_shares {
        lemma_div_multiples_vanish(reserve as int, t);
        lemma_mul_is_commutative(reserve as int, t);
    }
    if shares < total_shares && reserve > 0 {
        lemma_mul_strict_inequality(shares as int, t, reserve as int);
        if q >= reserve {
            lemma_mul_inequality(reserve as int, q, t);
            lemma_mul_is_commutative(q, t);
            assert(false);
        }
    }
}

/// The whole effect of a withdrawal on the pool and the position, given
/// that both transfers go through: quote it, then settle it. Returns the
/// amounts of token A and token B withdrawn.
pub fn handle_remove_liquidity(pool: &mut Pool, position: &mut Position, user: [u8; 32], shares: u64) -> (result:
    Result<(u64, u64), AmmError>)
    ensures
        (match remove_liquidity_quote(*old(pool), *old(position), user, shares) {
            Err(e) => result == Err::<(u64, u64), AmmError>(e) && *final(pool) == *old(pool)
                && *final(position) == *old(position),
            Ok(amounts) => if withdrawal_fits(
                *old(pool),
                *old(position),
                shares,
                amounts.0,
                amounts.1,
            ) {
                result == Ok::<(u64, u64), AmmError>(amounts) && *final(pool)
                    == pool_after_withdrawal(*old(pool), shares, amounts.0, amounts.1)
                    && *final(position) == position_after_withdrawal(*old(position), shares)
            } else {
                result == Err::<(u64, u64), AmmError>(AmmError::MathOverflow) && *final(pool)
                    == *old(pool) && *final(position) == *old(position)
            },
        }),
        old(pool).is_consistent() && result is Ok ==> final(pool).is_consistent(),
        result matches Ok((amount_a, amount_b)) ==> {
            &&& amount_a == (old(pool).reserve_a * shares) / (old(pool).total_shares as int)
            &&& amount_b == (old(pool).reserve_b * shares) / (old(pool).total_shares as int)
            &&& 0 < shares <= old(position).shares
            &&& 0 < amount_a <= old(pool).reserve_a
            &&& 0 < amount_b <= old(pool).reserve_b
            &&& final(pool).reserve_a == old(pool).reserve_a - amount_a
            &&& final(pool).reserve_b == old(pool).reserve_b - amount_b
            &&& final(pool).total_shares == old(pool).total_shares - shares
            &&& final(position).shares == old(position).shares - shares
        },
        ({
            &&& old(position).owner@ == user@
            &&& 0 < shares <= old(position).shares
            &&& shares <= old(pool).total_shares
            &&& (old(pool).reserve_a * shares) / (old(pool).total_shares as int) > 0
            &&& (old(pool).reserve_b * shares) / (old(pool).total_shares as int) > 0
        }) ==> result == Ok::<(u64, u64), AmmError>(
            (
                ((old(pool).reserve_a * shares) / (old(pool).total_shares as int)) as u64,
                ((old(pool).reserve_b * shares) / (old(pool).total_shares as int)) as u64,
            ),
        ),
{
    proof {
        lemma_withdrawal_is_the_burned_fraction(*old(pool), *old(position), user, shares);
    }
    let (amount_a, amount_b) = match quote_remove_liquidity(pool, position, user, shares) {
        Ok(amounts) => amounts,
        Err(e) => return Err(e),
    };
    if shares <= pool.total_shares {
        proof {
            lemma_withdrawal_bounds(pool.reserve_a, shares, pool.total_shares);
            lemma_withdrawal_bounds(pool.reserve_b, shares, pool.total_shares);
        }
    }
    match settle_remove_liquidity(pool, position, shares, amount_a, amount_b) {
        Ok(()) => Ok((amount_a, amount_b)),
        Err(e) => Err(e),
    }
}

} // verus!
