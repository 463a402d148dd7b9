use vstd::arithmetic::div_mod::*;
use vstd::arithmetic::mul::*;
use vstd::prelude::*;

use crate::constants::{FEE_BPS, FEE_DENOMINATOR};
use crate::error::AmmError;
use crate::laws::lemma_swap_pays_the_constant_product_output;
use crate::state::Pool;

verus! {

/// What a swap moves, computed before any token changes hands.
///
///   fee             = amount_in * FEE_BPS / FEE_DENOMINATOR
///   effective_input = amount_in - fee
///   k               = reserve_in * reserve_out
///   new_reserve_in  = reserve_in + effective_input
///   new_reserve_out = k / new_reserve_in          (floor division)
///   amount_out      = reserve_out - new_reserve_out
///
/// `fee` goes from the user to the treasury, `effective_input` from the user
/// to the pool, and `amount_out` from the pool to the user.
#[derive(Debug, Clone, Copy, PartialEq, Eq)]
pub struct SwapQuote {
    pub fee: u64,
    pub effective_input: u64,
    pub amount_out: u64,
    pub new_reserve_in: u128,
    pub new_reserve_out: u128,
}

/// The protocol fee taken out of `amount_in`.
pub open spec fn swap_fee(amount_in: u64) -> int {
    (amount_in * FEE_BPS) / (FEE_DENOMINATOR as int)
}

/// The reserve the input enters and the reserve the output leaves, in that order.
pub open spec fn swap_reserves(pool: Pool, a_to_b: bool) -> (u64, u64) {
    if a_to_b {
        (pool.reserve_a, pool.reserve_b)
    } else {
        (pool.reserve_b, pool.reserve_a)
    }
}

/// The outcome of quoting a swap of `amount_in` in direction `a_to_b`.
pub open spec fn swap_quote(pool: Pool, amount_in: u64, a_to_b: bool) -> Result<SwapQuote, AmmError> {
    let fee = swap_fee(amount_in);
    let effective_input = amount_in - fee;
    let reserve_in = swap_reserves(pool, a_to_b).0;
    let reserve_out = swap_reserves(pool, a_to_b).1;
    let new_reserve_in = reserve_in + effective_input;
    let new_reserve_out = (reserve_in * reserve_out) / new_reserve_in;
    let amount_out = reserve_out - new_reserve_out;
    if amount_in == 0 {
        Err(AmmError::InvalidAmount)
    } else if pool.reserve_a == 0 || pool.reserve_b == 0 {
        Err(AmmError::InsufficientLiquidity)
    } else if effective_input <= 0 {
        Err(AmmError::InvalidAmount)
    } else if amount_out == 0 {
        Err(AmmError::InvalidAmount)
    } else if amount_out >= reserve_out {
        Err(AmmError::InsufficientLiquidity)
    } else {
        Ok(
            SwapQuote {
                fee: fee as u64,
                effective_input: effective_input as u64,
                amount_out: amount_out as u64,
                new_reserve_in: new_reserve_in as u128,
                new_reserve_out: new_reserve_out as u128,
            },
        )
    }
}

/// The pool after a swap in direction `a_to_b` has set the input reserve to
/// `new_reserve_in` and the output reserve to `new_reserve_out`.
pub open spec fn pool_after_swap(pool: Pool, a_to_b: bool, new_reserve_in: u64, new_reserve_out: u64) -> Pool {
    if a_to_b {
        Pool { reserve_a: new_reserve_in, reserve_b: new_reserve_out, ..pool }
    } else {
        Pool { reserve_a: new_reserve_out, reserve_b: new_reserve_in, ..pool }
    }
}

/// Quote a swap of `amount_in` of one token for the other along the
/// constant-product curve: every check that comes before a token moves.
/// `a_to_b = true` swaps token A -> token B, `false` swaps token B -> token A.
pub fn quote_swap(pool: &Pool, amount_in: u64, a_to_b: bool) -> (result: Result<SwapQuote, AmmError>)
    ensures
        result == swap_quote(*pool, amount_in, a_to_b),
        amount_in == 0 ==> result == Err::<SwapQuote, AmmError>(AmmError::InvalidAmount),
        amount_in > 0 && (pool.reserve_a == 0 || pool.reserve_b == 0) ==> result == Err::<
            SwapQuote,
            AmmError,
        >(AmmError::InsufficientLiquidity),
        ({
            let fee = (amount_in * 30) / 10_000int;
            let effective_input = amount_in - fee;
            let reserve_in = if a_to_b {
                pool.reserve_a
            } else {
                pool.reserve_b
            };
            let reserve_out = if a_to_b {
                pool.reserve_b
            } else {
                pool.reserve_a
            };
            let new_reserve_in = reserve_in + effective_input;
            let new_reserve_out = (reserve_in * reserve_out) / new_reserve_in;
            &&& result matches Ok(q) ==> {
                &&& q.fee == fee
                &&& q.effective_input == effective_input
                &&& q.new_reserve_in == new_reserve_in
                &&& q.new_reserve_out == new_reserve_out
                &&& q.amount_out == reserve_out - new_reserve_out
                &&& 0 < q.amount_out < reserve_out
            }
            &&& (amount_in > 0 && pool.reserve_a > 0 && pool.reserve_b > 0 && new_reserve_out > 0)
                ==> result is Ok
        }),
{
    proof {
        lemma_swap_pays_the_constant_product_output(*pool, amount_in, a_to_b);
    }
    if amount_in == 0 {
        return Err(AmmError::InvalidAmount);
    }
    if !(pool.reserve_a > 0 && pool.reserve_b > 0) {
        return Err(AmmError::InsufficientLiquidity);
    }
    proof {
        lemma_fee_at_most_input(amount_in);
    }
    let fee_wide: u128 = (amount_in as u128) * (FEE_BPS as u128) / (FEE_DENOMINATOR as u128);
    if fee_wide > u64::MAX as u128 {
        return Err(AmmError::MathOverflow);
    }
    let fee: u64 = fee_wide as u64;
    if fee > amount_in {
        return Err(AmmError::MathOverflow);
    }
    let effective_input: u64 = amount_in - fee;
    if effective_input == 0 {
        return Err(AmmError::InvalidAmount);
    }
    let (reserve_in, reserve_out) = if a_to_b {
        (pool.reserve_a, pool.reserve_b)
    } else {
        (pool.reserve_b, pool.reserve_a)
    };
    proof {
        lemma_mul_upper_bound(
            reserve_in as int,
            u64::MAX as int,
            reserve_out as int,
            u64::MAX as int,
        );
    }
    let k: u128 = (reserve_in as u128) * (reserve_out as u128);
    let new_reserve_in: u128 = (reserve_in as u128) + (effective_input as u128);
    let new_reserve_out: u128 = k / new_reserve_in;
    proof {
        lemma_div_is_ordered_by_denominator(k as int, reserve_in as int, new_reserve_in as int);
        lemma_div_multiples_vanish(reserve_out as int, reserve_in as int);
        lemma_mul_is_commutative(reserve_in as int, reserve_out as int);
    }
    let out_wide: u128 = (reserve_out as u128) - new_reserve_out;
    if out_wide > u64::MAX as u128 {
        return Err(AmmError::MathOverflow);
    }
    let amount_out: u64 = out_wide as u64;
    if amount_out == 0 {
        return Err(AmmError::InvalidAmount);
    }
    if amount_out >= reserve_out {
        return Err(AmmError::InsufficientLiquidity);
    }
    Ok(SwapQuote { fee, effective_input, amount_out, new_reserve_in, new_reserve_out })
}

/// Write a quoted swap's new reserves into the pool, after the tokens have
/// moved. Refused when a new reserve does not fit in a `u64`.
pub fn settle_swap(pool: &mut Pool, quote: &SwapQuote, a_to_b: bool) -> (result: Result<(), AmmError>)
    ensures
        result is Ok <==> (quote.new_reserve_in <= u64::MAX && quote.new_reserve_out <= u64::MAX),
        result is Ok && a_to_b ==> final(pool).reserve_a == quote.new_reserve_in
            && final(pool).reserve_b == quote.new_reserve_out,
        result is Ok && !a_to_b ==> final(pool).reserve_b == quote.new_reserve_in
            && final(pool).reserve_a == quote.new_reserve_out,
        final(pool).total_shares == old(pool).total_shares && final(pool).same_accounts(*old(pool)),
        quote.new_reserve_in <= u64::MAX && quote.new_reserve_out <= u64::MAX ==> result is Ok
            && *final(pool) == pool_after_swap(
            *old(pool),
            a_to_b,
            quote.new_reserve_in as u64,
            quote.new_reserve_out as u64,
        ),
        !(quote.new_reserve_in <= u64::MAX && quote.new_reserve_out <= u64::MAX) ==> result
            == Err::<(), AmmError>(AmmError::MathOverflow) && *final(pool) == *old(pool),
{
    if quote.new_reserve_in > u64::MAX as u128 || quote.new_reserve_out > u64::MAX as u128 {
        return Err(AmmError::MathOverflow);
    }
    let new_in = quote.new_reserve_in as u64;
    let new_out = quote.new_reserve_out as u64;
    if a_to_b {
        pool.reserve_a = new_in;
        pool.reserve_b = new_out;
    } else {
        pool.reserve_b = new_in;
        pool.reserve_a = new_out;
    }
    Ok(())
}

/// The whole effect of a swap on the pool, given that its transfers go
/// through: quote it, then settle it. Returns what was moved.
pub fn handle_swap(pool: &mut Pool, amount_in: u64, a_to_b: bool) -> (result: Result<SwapQuote, AmmError>)
    ensures
        (match swap_quote(*old(pool), amount_in, a_to_b) {
            Err(e) => result == Err::<SwapQuote, AmmError>(e) && *final(pool) == *old(pool),
            Ok(q) => if q.new_reserve_in <= u64::MAX {
                result == Ok::<SwapQuote, AmmError>(q) && *final(pool) == pool_after_swap(
                    *old(pool),
                    a_to_b,
                    q.new_reserve_in as u64,
                    q.new_reserve_out as u64,
                )
            } else {
                result == Err::<SwapQuote, AmmError>(AmmError::MathOverflow) && *final(pool)
                    == *old(pool)
            },
        }),
        old(pool).is_consistent() && result is Ok ==> final(pool).is_consistent(),
        ({
            let fee = (amount_in * 30) / 10_000int;
            let effective_input = amount_in - fee;
            let reserve_in = if a_to_b {
                old(pool).reserve_a
            } else {
                old(pool).reserve_b
            };
            let reserve_out = if a_to_b {
                old(pool).reserve_b
            } else {
                old(pool).reserve_a
            };
            let new_reserve_in = reserve_in + effective_input;
            let new_reserve_out = (reserve_in * reserve_out) / new_reserve_in;
            result matches Ok(q) ==> {
                &&& q.fee == fee
                &&& q.effective_input == effective_input
                &&& q.amount_out == reserve_out - new_reserve_out
                &&& a_to_b ==> final(pool).reserve_a == new_reserve_in
                    && final(pool).reserve_b == new_reserve_out
                &&& !a_to_b ==> final(pool).reserve_b == new_reserve_in
                    && final(pool).reserve_a == new_reserve_out
                &&& final(pool).total_shares == old(pool).total_shares
            }
        }),
{
    proof {
        lemma_swap_pays_the_constant_product_output(*old(pool), amount_in, a_to_b);
    }
    let quote = match quote_swap(pool, amount_in, a_to_b) {
        Ok(q) => q,
        Err(e) => return Err(e),
    };
    proof {
        lemma_swap_quote_facts(*pool, amount_in, a_to_b);
    }
    match settle_swap(pool, &quote, a_to_b) {
        Ok(()) => Ok(quote),
        Err(e) => Err(e),
    }
}

/// The fee is a part of the input: `0 <= fee <= amount_in`.
proof fn lemma_fee_at_most_input(amount_in: u64)
    ensures
        0 <= swap_fee(amount_in) <= amount_in,
        amount_in * FEE_BPS <= u64::MAX * FEE_BPS,
{
    assert(FEE_BPS == 30 && FEE_DENOMINATOR == 10_000);
    let scaled = amount_in * FEE_BPS;
    assert(0 <= scaled <= amount_in * FEE_DENOMINATOR);
    lemma_div_pos_is_pos(scaled, FEE_DENOMINATOR as int);
    lemma_div_is_ordered(scaled, amount_in * FEE_DENOMINATOR, FEE_DENOMINATOR as int);
    lemma_div_multiples_vanish(amount_in as int, FEE_DENOMINATOR as int);
    lemma_mul_is_commutative(amount_in as int, FEE_DENOMINATOR as int);
}

/// What every successful swap quote satisfies: the user pays exactly
/// `amount_in`, split into the fee and the effective input; only the
/// effective input enters the input reserve; the output reserve goes down by
/// exactly `amount_out` and is never emptied; and the new output reserve is
/// the floor of `k / new_reserve_in`.
pub proof fn lemma_swap_quote_facts(pool: Pool, amount_in: u64, a_to_b: bool)
    requires
        swap_quote(pool, amount_in, a_to_b) is Ok,
    ensures
        ({
            let q = swap_quote(pool, amount_in, a_to_b)->Ok_0;
            let reserve_in = swap_reserves(pool, a_to_b).0;
            let reserve_out = swap_reserves(pool, a_to_b).1;
            &&& q.fee == swap_fee(amount_in)
            &&& q.fee + q.effective_input == amount_in
            &&& q.new_reserve_in == reserve_in + q.effective_input
            &&& q.new_reserve_out + q.amount_out == reserve_out
            &&& 0 < q.amount_out < reserve_out
            &&& 1 <= q.new_reserve_out < reserve_out
            &&& q.new_reserve_in * q.new_reserve_out <= reserve_in * reserve_out
            &&& reserve_in * reserve_out < q.new_reserve_in * (q.new_reserve_out + 1)
        }),
{
    let fee = swap_fee(amount_in);
    lemma_fee_at_most_input(amount_in);
    let reserve_in = swap_reserves(pool, a_to_b).0;
    let reserve_out = swap_reserves(pool, a_to_b).1;
    let new_in = reserve_in + (amount_in - fee);
    let k = reserve_in * reserve_out;
    lemma_mul_nonnegative(reserve_in as int, reserve_out as int);
    lemma_div_is_ordered_by_denominator(k, reserve_in as int, new_in);
    lemma_div_multiples_vanish(reserve_out as int, reserve_in as int);
    lemma_mul_is_commutative(reserve_in as int, reserve_out as int);
    lemma_div_pos_is_pos(k, new_in);
    lemma_fundamental_div_mod(k, new_in);
    lemma_mod_bound(k, new_in);
    let new_out = k / new_in;
    assert(new_in * new_out <= k);
    assert(k < new_in * (new_out + 1)) by {
        lemma_mul_is_distributive_add(new_in, new_out, 1);
    }
}

} // verus!
