//! Happy-path and basic validation coverage for the four instructions
//! (initialize, add_liquidity, remove_liquidity, swap), run on the pool's
//! state. Token balances are followed through the amounts that each
//! instruction reports it moves.

use amm::{handle_add_liquidity, handle_initialize, handle_remove_liquidity, handle_swap};
use amm::{AmmError, Pool, Position};

const MINT_A: [u8; 32] = [1; 32];
const MINT_B: [u8; 32] = [2; 32];
const VAULT_A: [u8; 32] = [3; 32];
const VAULT_B: [u8; 32] = [4; 32];
const TREASURY: [u8; 32] = [5; 32];
const TREASURY_VAULT_A: [u8; 32] = [6; 32];
const TREASURY_VAULT_B: [u8; 32] = [7; 32];
const POOL_KEY: [u8; 32] = [8; 32];

fn new_pool() -> Pool {
    handle_initialize(
        MINT_A,
        MINT_B,
        VAULT_A,
        VAULT_B,
        TREASURY,
        TREASURY_VAULT_A,
        TREASURY_VAULT_B,
        254,
    )
    .expect("initialize should succeed")
}

fn fresh_position() -> Position {
    Position { pool: [0; 32], owner: [0; 32], shares: 0, bump: 0 }
}

fn user(n: u8) -> [u8; 32] {
    [100 + n; 32]
}

#[test]
fn initialize_creates_pool_with_zero_reserves() {
    let pool = new_pool();

    assert_eq!(pool.mint_a, MINT_A);
    assert_eq!(pool.mint_b, MINT_B);
    assert_eq!(pool.vault_a, VAULT_A);
    assert_eq!(pool.vault_b, VAULT_B);
    assert_eq!(pool.reserve_a, 0);
    assert_eq!(pool.reserve_b, 0);
    assert_eq!(pool.total_shares, 0);
    assert_eq!(pool.treasury, TREASURY);
    assert_eq!(pool.treasury_vault_a, TREASURY_VAULT_A);
    assert_eq!(pool.treasury_vault_b, TREASURY_VAULT_B);
}

#[test]
fn add_liquidity_first_deposit_mints_sqrt_shares() {
    let mut pool = new_pool();
    let mut position = fresh_position();
    let (user_a, user_b) = (10_000u64, 10_000u64);

    let res = handle_add_liquidity(&mut pool, &mut position, POOL_KEY, user(1), 253, 1_000, 2_000);
    assert!(res.is_ok(), "add_liquidity failed: {res:?}");

    // First deposit mints shares = floor(sqrt(1000 * 2000)) = floor(sqrt(2_000_000)) = 1414.
    assert_eq!(pool.reserve_a, 1_000);
    assert_eq!(pool.reserve_b, 2_000);
    assert_eq!(pool.total_shares, 1_414);

    assert_eq!(position.shares, 1_414);
    assert_eq!(position.owner, user(1));
    assert_eq!(position.pool, POOL_KEY);
    assert_eq!(position.bump, 253);

    // The deposit moves amount_a and amount_b from the user into the vaults.
    assert_eq!(user_a - 1_000, 10_000 - 1_000);
    assert_eq!(user_b - 2_000, 10_000 - 2_000);
    assert_eq!(pool.reserve_a, 1_000);
    assert_eq!(pool.reserve_b, 2_000);
}

#[test]
fn add_liquidity_second_deposit_is_proportional_to_the_pool() {
    let mut pool = new_pool();
    let mut first = fresh_position();
    handle_add_liquidity(&mut pool, &mut first, POOL_KEY, user(1), 253, 1_000, 2_000).unwrap();

    let mut second = fresh_position();
    // Same 1:2 ratio as the pool, so both sides are the limiting factor.
    let res = handle_add_liquidity(&mut pool, &mut second, POOL_KEY, user(2), 252, 500, 1_000);
    assert!(res.is_ok(), "add_liquidity failed: {res:?}");

    // shares = min(500 * 1414 / 1000, 1000 * 1414 / 2000) = 707
    assert_eq!(pool.reserve_a, 1_500);
    assert_eq!(pool.reserve_b, 3_000);
    assert_eq!(pool.total_shares, 1_414 + 707);

    assert_eq!(second.shares, 707);
    assert_eq!(res, Ok(707));
}

#[test]
fn remove_liquidity_returns_proportional_reserves() {
    let mut pool = new_pool();
    let mut position = fresh_position();
    let (mut user_a, mut user_b) = (10_000u64, 10_000u64);
    handle_add_liquidity(&mut pool, &mut position, POOL_KEY, user(1), 253, 1_000, 2_000).unwrap();
    user_a -= 1_000;
    user_b -= 2_000;

    // Withdraw exactly half of the 1414 shares minted on deposit.
    let res = handle_remove_liquidity(&mut pool, &mut position, user(1), 707);
    assert!(res.is_ok(), "remove_liquidity failed: {res:?}");
    let (amount_a, amount_b) = res.unwrap();
    user_a += amount_a;
    user_b += amount_b;

    // amount = reserve * shares / total_shares
    // a: 1000 * 707 / 1414 = 500, b: 2000 * 707 / 1414 = 1000
    assert_eq!(pool.reserve_a, 500);
    assert_eq!(pool.reserve_b, 1_000);
    assert_eq!(pool.total_shares, 1_414 - 707);

    assert_eq!(position.shares, 1_414 - 707);

    assert_eq!(user_a, 10_000 - 1_000 + 500);
    assert_eq!(user_b, 10_000 - 2_000 + 1_000);
}

#[test]
fn swap_a_to_b_follows_constant_product_formula() {
    let mut pool = new_pool();
    let mut lp = fresh_position();
    handle_add_liquidity(&mut pool, &mut lp, POOL_KEY, user(1), 253, 1_000, 2_000).unwrap();

    let (mut trader_a, mut trader_b) = (1_000u64, 0u64);
    let res = handle_swap(&mut pool, 100, true);
    assert!(res.is_ok(), "swap failed: {res:?}");
    let quote = res.unwrap();
    trader_a -= quote.fee + quote.effective_input;
    trader_b += quote.amount_out;

    // k = 1000 * 2000 = 2_000_000; new_x = 1100; new_y = 2_000_000 / 1100 = 1818
    // amount_out = 2000 - 1818 = 182
    assert_eq!(pool.reserve_a, 1_100);
    assert_eq!(pool.reserve_b, 1_818);

    assert_eq!(trader_a, 1_000 - 100);
    assert_eq!(trader_b, 182);
}

#[test]
fn swap_b_to_a_follows_constant_product_formula() {
    let mut pool = new_pool();
    let mut lp = fresh_position();
    handle_add_liquidity(&mut pool, &mut lp, POOL_KEY, user(1), 253, 1_000, 2_000).unwrap();

    let (mut trader_a, mut trader_b) = (0u64, 1_000u64);
    let res = handle_swap(&mut pool, 200, false);
    assert!(res.is_ok(), "swap failed: {res:?}");
    let quote = res.unwrap();
    trader_b -= quote.fee + quote.effective_input;
    trader_a += quote.amount_out;

    // k = 2_000_000; new_y (reserve_b) = 2200; new_x = 2_000_000 / 2200 = 909
    // amount_out = 1000 - 909 = 91
    assert_eq!(pool.reserve_b, 2_200);
    assert_eq!(pool.reserve_a, 909);

    assert_eq!(trader_b, 1_000 - 200);
    assert_eq!(trader_a, 91);
}

#[test]
fn add_liquidity_rejects_zero_amount() {
    let mut pool = new_pool();
    let mut position = fresh_position();

    let res = handle_add_liquidity(&mut pool, &mut position, POOL_KEY, user(1), 253, 0, 500);
    assert_eq!(res, Err(AmmError::InvalidAmount));
}

#[test]
fn swap_rejects_zero_amount_in() {
    let mut pool = new_pool();
    let mut lp = fresh_position();
    handle_add_liquidity(&mut pool, &mut lp, POOL_KEY, user(1), 253, 1_000, 2_000).unwrap();

    let res = handle_swap(&mut pool, 0, true);
    assert_eq!(res, Err(AmmError::InvalidAmount));
}
