//! The refusals of each instruction, and the properties that relate them.

use amm::{handle_add_liquidity, handle_initialize, handle_remove_liquidity, handle_swap};
use amm::{quote_add_liquidity, quote_remove_liquidity, quote_swap, settle_add_liquidity};
use amm::{settle_remove_liquidity, settle_swap};
use amm::{AmmError, Pool, Position};

const POOL_KEY: [u8; 32] = [8; 32];
const OWNER: [u8; 32] = [9; 32];

fn new_pool() -> Pool {
    handle_initialize([1; 32], [2; 32], [3; 32], [4; 32], [5; 32], [6; 32], [7; 32], 254).unwrap()
}

fn fresh_position() -> Position {
    Position { pool: [0; 32], owner: [0; 32], shares: 0, bump: 0 }
}

fn raw_pool(reserve_a: u64, reserve_b: u64, total_shares: u64) -> Pool {
    Pool { reserve_a, reserve_b, total_shares, ..new_pool() }
}

fn is_consistent(pool: &Pool) -> bool {
    (pool.total_shares == 0) == (pool.reserve_a == 0)
        && (pool.total_shares == 0) == (pool.reserve_b == 0)
}

#[test]
fn initialize_rejects_identical_mints() {
    let res = handle_initialize([10; 32], [10; 32], [3; 32], [4; 32], [5; 32], [6; 32], [7; 32], 1);
    assert_eq!(res, Err(AmmError::IdenticalMints));
}

#[test]
fn initialize_accepts_mints_that_differ_in_one_byte() {
    let mut mint_b = [10u8; 32];
    mint_b[31] = 11;
    let res = handle_initialize([10; 32], mint_b, [3; 32], [4; 32], [5; 32], [6; 32], [7; 32], 1);
    assert!(res.is_ok());
    assert_eq!(res.unwrap().bump, 1);
}

#[test]
fn remove_liquidity_rejects_zero_amount() {
    let mut pool = new_pool();
    let mut position = fresh_position();
    handle_add_liquidity(&mut pool, &mut position, POOL_KEY, OWNER, 1, 1_000, 2_000).unwrap();

    let res = handle_remove_liquidity(&mut pool, &mut position, OWNER, 0);
    assert_eq!(res, Err(AmmError::InvalidAmount));
}

#[test]
fn remove_liquidity_rejects_more_shares_than_owned() {
    let mut pool = new_pool();
    let mut position = fresh_position();
    handle_add_liquidity(&mut pool, &mut position, POOL_KEY, OWNER, 1, 1_000, 2_000).unwrap();

    // The deposit above mints 1_414 shares; ask for far more than that.
    let res = handle_remove_liquidity(&mut pool, &mut position, OWNER, 100_000);
    assert_eq!(res, Err(AmmError::InsufficientShares));
}

#[test]
fn remove_liquidity_rejects_a_position_owned_by_someone_else() {
    let mut pool = new_pool();
    let mut position = fresh_position();
    handle_add_liquidity(&mut pool, &mut position, POOL_KEY, OWNER, 1, 1_000, 2_000).unwrap();
    assert!(position.shares > 0);

    let before = (pool, position);
    let res = handle_remove_liquidity(&mut pool, &mut position, [66; 32], 1);
    assert_eq!(res, Err(AmmError::InsufficientShares));
    assert_eq!((pool, position), before);
}

#[test]
fn swap_rejects_when_pool_has_no_liquidity() {
    let mut pool = new_pool();
    let res = handle_swap(&mut pool, 100, true);
    assert_eq!(res, Err(AmmError::InsufficientLiquidity));
}

#[test]
fn add_liquidity_rejects_negative_ratio_deposit_yielding_zero_shares() {
    let mut pool = new_pool();
    let mut first = fresh_position();
    handle_add_liquidity(&mut pool, &mut first, POOL_KEY, OWNER, 1, 1_000, 2_000).unwrap();

    // A deposit so small, relative to the pool, that the proportional share
    // calculation floors to zero shares minted.
    let mut second = fresh_position();
    let res = handle_add_liquidity(&mut pool, &mut second, POOL_KEY, [77; 32], 2, 1, 1);
    assert_eq!(res, Err(AmmError::InvalidAmount));
}

#[test]
fn lopsided_deposit_is_credited_for_its_limiting_side() {
    let mut pool = new_pool();
    let mut first = fresh_position();
    handle_add_liquidity(&mut pool, &mut first, POOL_KEY, OWNER, 1, 1_000, 2_000).unwrap();
    // min(1000 * 1414 / 1000, 100 * 1414 / 2000) = min(1414, 70) = 70
    assert_eq!(quote_add_liquidity(&pool, 1_000, 100), Ok(70));
}

#[test]
fn add_liquidity_reports_overflowing_share_counts() {
    let pool = raw_pool(1, 1, u64::MAX);
    assert_eq!(quote_add_liquidity(&pool, 2, 2), Err(AmmError::MathOverflow));

    let mut pool = raw_pool(u64::MAX - 1, 10, u64::MAX / 2);
    let mut position = fresh_position();
    let before = (pool, position);
    let res = handle_add_liquidity(&mut pool, &mut position, POOL_KEY, OWNER, 1, 5, 5);
    assert_eq!(res, Err(AmmError::MathOverflow));
    assert_eq!((pool, position), before);
}

#[test]
fn settle_add_liquidity_credits_both_sides() {
    let mut pool = raw_pool(10, 20, 14);
    let mut position = Position { pool: POOL_KEY, owner: OWNER, shares: 14, bump: 1 };
    assert_eq!(
        settle_add_liquidity(&mut pool, &mut position, POOL_KEY, OWNER, 1, 5, 10, 7),
        Ok(())
    );
    assert_eq!((pool.reserve_a, pool.reserve_b, pool.total_shares), (15, 30, 21));
    assert_eq!(position.shares, 21);
}

#[test]
fn remove_liquidity_reports_overflowing_and_underflowing_counts() {
    // More shares than the pool has outstanding: the withdrawal does not fit a u64.
    let pool = raw_pool(u64::MAX, 1, 1);
    let position = Position { pool: POOL_KEY, owner: OWNER, shares: 2, bump: 1 };
    assert_eq!(quote_remove_liquidity(&pool, &position, OWNER, 2), Err(AmmError::MathOverflow));

    // The amounts fit, but burning more than the total underflows it.
    let mut pool = raw_pool(1, 1, 2);
    let mut position = Position { pool: POOL_KEY, owner: OWNER, shares: 3, bump: 1 };
    let before = (pool, position);
    let res = handle_remove_liquidity(&mut pool, &mut position, OWNER, 3);
    assert_eq!(res, Err(AmmError::MathOverflow));
    assert_eq!((pool, position), before);
}

#[test]
fn remove_liquidity_rejects_an_empty_pool_and_tiny_withdrawals() {
    let pool = raw_pool(0, 0, 0);
    let position = Position { pool: POOL_KEY, owner: OWNER, shares: 5, bump: 1 };
    assert_eq!(
        quote_remove_liquidity(&pool, &position, OWNER, 1),
        Err(AmmError::InsufficientLiquidity)
    );

    // 10 * 1 / 1000 floors to zero.
    let pool = raw_pool(10, 10_000, 1_000);
    assert_eq!(quote_remove_liquidity(&pool, &position, OWNER, 1), Err(AmmError::InvalidAmount));
}

#[test]
fn settle_remove_liquidity_debits_both_sides() {
    let mut pool = raw_pool(10, 20, 14);
    let mut position = Position { pool: POOL_KEY, owner: OWNER, shares: 14, bump: 1 };
    assert_eq!(settle_remove_liquidity(&mut pool, &mut position, 7, 5, 10), Ok(()));
    assert_eq!((pool.reserve_a, pool.reserve_b, pool.total_shares), (5, 10, 7));
    assert_eq!(position.shares, 7);
    assert_eq!(
        settle_remove_liquidity(&mut pool, &mut position, 8, 1, 1),
        Err(AmmError::MathOverflow)
    );
}

#[test]
fn burning_every_share_empties_the_pool() {
    let mut pool = new_pool();
    let mut position = fresh_position();
    handle_add_liquidity(&mut pool, &mut position, POOL_KEY, OWNER, 1, 1_000, 2_000).unwrap();
    let res = handle_remove_liquidity(&mut pool, &mut position, OWNER, 1_414);
    assert_eq!(res, Ok((1_000, 2_000)));
    assert_eq!((pool.reserve_a, pool.reserve_b, pool.total_shares), (0, 0, 0));
    assert!(is_consistent(&pool));
}

#[test]
fn deposit_then_withdraw_never_returns_more_than_was_deposited() {
    let mut pool = new_pool();
    let mut first = fresh_position();
    handle_add_liquidity(&mut pool, &mut first, POOL_KEY, OWNER, 1, 1_000, 2_000).unwrap();

    let mut second = fresh_position();
    let shares =
        handle_add_liquidity(&mut pool, &mut second, POOL_KEY, [77; 32], 2, 333, 1_000).unwrap();
    let (back_a, back_b) =
        handle_remove_liquidity(&mut pool, &mut second, [77; 32], shares).unwrap();
    assert!(back_a <= 333);
    assert!(back_b <= 1_000);
    assert!(is_consistent(&pool));
}

#[test]
fn swap_never_drains_the_output_reserve() {
    // k = 100; new_in = 100, new_out = 1: everything but one unit is paid out.
    let mut pool = raw_pool(10, 10, 10);
    let quote = handle_swap(&mut pool, 90, true).unwrap();
    assert_eq!(quote.amount_out, 9);
    assert_eq!(pool.reserve_b, 1);
    assert!(is_consistent(&pool));
}

#[test]
fn swap_rejects_a_product_that_would_empty_the_output_side() {
    // k = 1 * 1 = 1; new_in = 3, new_out = 0, amount_out = 1 == reserve_out.
    let pool = raw_pool(1, 1, 1);
    assert_eq!(quote_swap(&pool, 2, true), Err(AmmError::InsufficientLiquidity));
}

#[test]
fn swap_keeps_the_product_within_one_input_unit() {
    let mut pool = raw_pool(1_000, 2_000, 1_414);
    let quote = handle_swap(&mut pool, 100, true).unwrap();
    let k = 1_000u128 * 2_000;
    assert!(quote.new_reserve_in * quote.new_reserve_out <= k);
    assert!(k < quote.new_reserve_in * (quote.new_reserve_out + 1));
    // The floor division rounds the payout up: the product shrinks slightly.
    assert_eq!(quote.new_reserve_in * quote.new_reserve_out, 1_999_800);
}

#[test]
fn swap_reports_an_input_reserve_that_overflows() {
    let mut pool = raw_pool(u64::MAX - 10, 2, 5);
    let before = pool;
    assert!(quote_swap(&pool, 1_000, true).is_ok());
    assert_eq!(handle_swap(&mut pool, 1_000, true), Err(AmmError::MathOverflow));
    assert_eq!(pool, before);
}

#[test]
fn settle_swap_writes_both_reserves() {
    let mut pool = raw_pool(1_000, 2_000, 1_414);
    let quote = quote_swap(&pool, 200, false).unwrap();
    assert_eq!(settle_swap(&mut pool, &quote, false), Ok(()));
    assert_eq!((pool.reserve_a, pool.reserve_b), (909, 2_200));
}

#[test]
fn integer_sqrt_of_the_largest_accepted_value() {
    assert_eq!(amm::integer_sqrt(u128::MAX - 1), u64::MAX as u128);
    assert_eq!(amm::integer_sqrt(1), 1);
    assert_eq!(amm::integer_sqrt(15), 3);
    assert_eq!(amm::integer_sqrt(16), 4);
}
