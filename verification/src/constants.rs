use vstd::prelude::*;

verus! {

/// Swap fee, expressed in basis points (1 bps = 0.01%).
///
/// `FEE_BPS = 30` means a 0.30% fee, i.e. `fee = amount_in * 30 / 10_000`.
/// This is a fixed, protocol-wide fee (not configurable per pool).
pub const FEE_BPS: u64 = 30;

/// Denominator that `FEE_BPS` is measured against (10_000 bps = 100%).
pub const FEE_DENOMINATOR: u64 = 10_000;

} // verus!
