//! A constant-product automated market maker: the arithmetic and the
//! state transitions of a single two-token pool, with their contracts.

pub mod constants;
pub mod error;
pub mod instructions;
pub mod laws;
pub mod math;
pub mod state;

pub use constants::{FEE_BPS, FEE_DENOMINATOR};
pub use error::AmmError;
pub use instructions::add_liquidity::{handle_add_liquidity, quote_add_liquidity, settle_add_liquidity};
pub use instructions::initialize::handle_initialize;
pub use instructions::remove_liquidity::{
    handle_remove_liquidity, quote_remove_liquidity, settle_remove_liquidity,
};
pub use instructions::swap::{handle_swap, quote_swap, settle_swap, SwapQuote};
pub use math::integer_sqrt;
pub use state::{Pool, Position};
