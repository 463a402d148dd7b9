//! Properties that relate several instructions, or hold of every input.

use vstd::arithmetic::div_mod::*;
use vstd::arithmetic::mul::*;
use vstd::prelude::*;

use crate::constants::{FEE_BPS, FEE_DENOMINATOR};
use crate::error::AmmError;
use crate::instructions::add_liquidity::{add_liquidity_quote, pool_after_deposit};
use crate::instructions::remove_liquidity::{
    lemma_withdrawal_bounds, remove_liquidity_quote, withdrawal,
};
use crate::instructions::swap::{swap_fee, swap_quote, SwapQuote};
use crate::math::{floor_sqrt, is_floor_sqrt, lemma_floor_sqrt_exists, lemma_floor_sqrt_of_u64_product_fits};
use crate::state::{Pool, Position};

verus! {

/// A deposit into a pool that already has shares never mints more than its
/// fair share on either side: `shares / total_shares` is at most
/// `amount_a / reserve_a` and at most `amount_b / reserve_b`.
pub proof fn lemma_deposit_never_mints_more_than_fair_share(pool: Pool, amount_a: u64, amount_b: u64)
    requires
        pool.total_shares > 0,
        pool.shares_are_backed(),
        add_liquidity_quote(pool, amount_a, amount_b) is Ok,
    ensures
        ({
            let shares = add_liquidity_quote(pool, amount_a, amount_b)->Ok_0;
            &&& shares * pool.reserve_a <= amount_a * pool.total_shares
            &&& shares * pool.reserve_b <= amount_b * pool.total_shares
        }),
{
    let shares = add_liquidity_quote(pool, amount_a, amount_b)->Ok_0;
    let t = pool.total_shares as int;
    let ra = pool.reserve_a as int;
    let rb = pool.reserve_b as int;
    let shares_a = (amount_a * t) / ra;
    let shares_b = (amount_b * t) / rb;
    assert(shares <= shares_a && shares <= shares_b);
    lemma_fundamental_div_mod(amount_a * t, ra);
    lemma_mod_bound(amount_a * t, ra);
    lemma_fundamental_div_mod(amount_b * t, rb);
    lemma_mod_bound(amount_b * t, rb);
    lemma_mul_inequality(shares as int, shares_a, ra);
    lemma_mul_inequality(shares as int, shares_b, rb);
    lemma_mul_is_commutative(ra, shares_a);
    lemma_mul_is_commutative(rb, shares_b);
}

/// Withdrawing the shares that a deposit just minted never returns more
/// of either token than that deposit put in.
pub proof fn lemma_deposit_then_withdraw_returns_at_most_deposit(
    pool: Pool,
    amount_a: u64,
    amount_b: u64,
)
    requires
        pool.is_consistent(),
        add_liquidity_quote(pool, amount_a, amount_b) is Ok,
        pool.reserve_a + amount_a <= u64::MAX,
        pool.reserve_b + amount_b <= u64::MAX,
        pool.total_shares + add_liquidity_quote(pool, amount_a, amount_b)->Ok_0 <= u64::MAX,
    ensures
        ({
            let shares = add_liquidity_quote(pool, amount_a, amount_b)->Ok_0;
            let after = pool_after_deposit(pool, amount_a, amount_b, shares);
            &&& withdrawal(after.reserve_a, shares, after.total_shares) <= amount_a
            &&& withdrawal(after.reserve_b, shares, after.total_shares) <= amount_b
        }),
{
    let shares = add_liquidity_quote(pool, amount_a, amount_b)->Ok_0;
    let t = pool.total_shares as int;
    let s = shares as int;
    if pool.total_shares > 0 {
        lemma_deposit_never_mints_more_than_fair_share(pool, amount_a, amount_b);
    }
    lemma_withdrawal_at_most_share(pool.reserve_a as int, amount_a as int, t, s);
    lemma_withdrawal_at_most_share(pool.reserve_b as int, amount_b as int, t, s);
}

/// If `s * r <= a * t`, then burning `s` of `t + s` shares from a reserve of
/// `r + a` withdraws at most `a`.
proof fn lemma_withdrawal_at_most_share(r: int, a: int, t: int, s: int)
    requires
        0 <= r,
        0 <= a,
        0 <= t,
        0 < s,
        s * r <= a * t,
    ensures
        ((r + a) * s) / (t + s) <= a,
{
    lemma_mul_is_distributive_add_other_way(s, r, a);
    lemma_mul_is_distributive_add(a, t, s);
    lemma_mul_is_commutative(r + a, s);
    lemma_mul_is_commutative(a, s);
    lemma_mul_is_commutative(s, r);
    assert((r + a) * s <= a * (t + s));
    lemma_div_is_ordered((r + a) * s, a * (t + s), t + s);
    lemma_div_multiples_vanish(a, t + s);
    lemma_mul_is_commutative(a, t + s);
}

/// Burning shares withdraws the same fraction of both reserves as the
/// fraction of all shares burned, rounded down: `reserve * shares /
/// total_shares` on each side. The owner of a position may always burn
/// between one share and all of their shares (and no more than exist) when
/// both rounded-down amounts are positive.
pub proof fn lemma_withdrawal_is_the_burned_fraction(
    pool: Pool,
    position: Position,
    user: [u8; 32],
    shares: u64,
)
    ensures
        remove_liquidity_quote(pool, position, user, shares) matches Ok((amount_a, amount_b))
            ==> {
            &&& position.owner@ == user@
            &&& 0 < shares <= position.shares
            &&& pool.total_shares > 0
            &&& amount_a == (pool.reserve_a * shares) / (pool.total_shares as int)
            &&& amount_b == (pool.reserve_b * shares) / (pool.total_shares as int)
            &&& 0 < amount_a <= pool.reserve_a
            &&& 0 < amount_b <= pool.reserve_b
        },
        ({
            &&& position.owner@ == user@
            &&& 0 < shares <= position.shares
            &&& shares <= pool.total_shares
            &&& (pool.reserve_a * shares) / (pool.total_shares as int) > 0
            &&& (pool.reserve_b * shares) / (pool.total_shares as int) > 0
        }) ==> remove_liquidity_quote(pool, position, user, shares) == Ok::<(u64, u64), AmmError>(
            (
                ((pool.reserve_a * shares) / (pool.total_shares as int)) as u64,
                ((pool.reserve_b * shares) / (pool.total_shares as int)) as u64,
            ),
        ),
{
    if 0 < shares <= pool.total_shares {
        lemma_withdrawal_bounds(pool.reserve_a, shares, pool.total_shares);
        lemma_withdrawal_bounds(pool.reserve_b, shares, pool.total_shares);
    }
}

/// A deposit into a pool that already has shares mints exactly the smaller
/// of `amount_a * total_shares / reserve_a` and
/// `amount_b * total_shares / reserve_b` (rounded down), and it is accepted
/// whenever that amount is between one and `u64::MAX`.
pub proof fn lemma_later_deposit_mints_the_smaller_proportional_side(
    pool: Pool,
    amount_a: u64,
    amount_b: u64,
)
    requires
        pool.total_shares > 0,
        pool.reserve_a > 0,
        pool.reserve_b > 0,
    ensures
        ({
            let shares_a = (amount_a * pool.total_shares) / (pool.reserve_a as int);
            let shares_b = (amount_b * pool.total_shares) / (pool.reserve_b as int);
            let minted = if shares_a <= shares_b {
                shares_a
            } else {
                shares_b
            };
            &&& add_liquidity_quote(pool, amount_a, amount_b) matches Ok(shares) ==> {
                &&& amount_a > 0 && amount_b > 0
                &&& shares == minted
                &&& shares > 0
            }
            &&& (amount_a > 0 && amount_b > 0 && 1 <= minted <= u64::MAX) ==> add_liquidity_quote(
                pool,
                amount_a,
                amount_b,
            ) == Ok::<u64, AmmError>(minted as u64)
        }),
{
}

/// The first deposit into an empty pool always succeeds when both amounts
/// are positive, and mints the floor of the square root of
/// `amount_a * amount_b`, whatever the size of that product.
pub proof fn lemma_first_deposit_mints_the_floor_square_root(pool: Pool, amount_a: u64, amount_b: u64)
    requires
        pool.total_shares == 0,
        amount_a > 0,
        amount_b > 0,
    ensures
        add_liquidity_quote(pool, amount_a, amount_b) matches Ok(shares) && shares * shares
            <= amount_a * amount_b && amount_a * amount_b < (shares + 1) * (shares + 1),
{
    let v = (amount_a * amount_b) as nat;
    lemma_mul_strictly_positive(amount_a as int, amount_b as int);
    lemma_floor_sqrt_exists(v);
    lemma_floor_sqrt_of_u64_product_fits(amount_a, amount_b);
    let r = floor_sqrt(v) as int;
    assert(is_floor_sqrt(r, v as int));
    if r == 0 {
        assert((r + 1) * (r + 1) == 1);
        assert(v >= 1);
    }
    assert(r > 0);
}

/// A swap takes a fee of `amount_in * 30 / 10_000` (rounded down) for the
/// treasury, puts the rest of the input into the input reserve, and pays
/// out the output reserve minus
/// `reserve_in * reserve_out / new_reserve_in` (rounded down). It is
/// accepted whenever the input is positive, both reserves are non-empty and
/// the new output reserve is positive.
pub proof fn lemma_swap_pays_the_constant_product_output(pool: Pool, amount_in: u64, a_to_b: bool)
    ensures
        ({
            let fee = (amount_in * 30) / 10_000int;
            let effective_input = amount_in - fee;
            let reserve_in = if a_to_b {
                pool.reserve_a
            } else {
                pool.reserve_b
            };
            let reserve_out = if a_to_b {
                pool.reserve_b
            } else {
                pool.reserve_a
            };
            let new_reserve_in = reserve_in + effective_input;
            let new_reserve_out = (reserve_in * reserve_out) / new_reserve_in;
            &&& swap_quote(pool, amount_in, a_to_b) matches Ok(q) ==> {
                &&& q.fee == fee
                &&& q.effective_input == effective_input
                &&& q.fee + q.effective_input == amount_in
                &&& q.new_reserve_in == new_reserve_in
                &&& q.new_reserve_out == new_reserve_out
                &&& q.amount_out == reserve_out - new_reserve_out
                &&& 0 < q.amount_out < reserve_out
            }
            &&& (amount_in > 0 && pool.reserve_a > 0 && pool.reserve_b > 0 && new_reserve_out > 0)
                ==> swap_quote(pool, amount_in, a_to_b) is Ok
        }),
{
    assert(FEE_BPS == 30 && FEE_DENOMINATOR == 10_000);
    let fee = (amount_in * 30) / 10_000int;
    if amount_in > 0 && pool.reserve_a > 0 && pool.reserve_b > 0 {
        // the fee is strictly less than the input
        lemma_fundamental_div_mod(amount_in * 30, 10_000);
        lemma_mod_bound(amount_in * 30, 10_000);
        assert(fee < amount_in) by (nonlinear_arith)
            requires
                10_000 * fee <= amount_in * 30,
                amount_in > 0,
        ;
        let reserve_in = if a_to_b {
            pool.reserve_a
        } else {
            pool.reserve_b
        };
        let reserve_out = if a_to_b {
            pool.reserve_b
        } else {
            pool.reserve_a
        };
        let new_in = reserve_in + (amount_in - fee);
        let k = reserve_in * reserve_out;
        let new_out = k / new_in;
        // the new output reserve is strictly below the old one
        lemma_fundamental_div_mod(k, new_in);
        lemma_mod_bound(k, new_in);
        lemma_mul_strict_inequality(reserve_in as int, new_in, reserve_out as int);
        lemma_mul_is_commutative(reserve_in as int, reserve_out as int);
        lemma_mul_is_commutative(new_in, reserve_out as int);
        lemma_mul_is_commutative(new_in, new_out);
        lemma_mul_strict_inequality_converse(new_out, reserve_out as int, new_in);
        lemma_div_pos_is_pos(k, new_in);
    }
}

/// The swap fee rounds down to zero exactly for inputs under 334.
pub proof fn lemma_fee_is_zero_exactly_below_334(amount_in: u64)
    ensures
        swap_fee(amount_in) == 0 <==> amount_in < 334,
{
    assert(FEE_BPS == 30 && FEE_DENOMINATOR == 10_000);
    let scaled = amount_in * FEE_BPS;
    if amount_in < 334 {
        lemma_basic_div(scaled, FEE_DENOMINATOR as int);
    } else {
        lemma_div_is_ordered(10_000, scaled, FEE_DENOMINATOR as int);
        lemma_div_by_self(10_000);
    }
}

} // verus!
