//! Shared constants of the fixed-point representation and of the pool rules.

use vstd::prelude::*;

verus! {

/// The fixed-point unit: the integer that represents 1.0.  Every balance,
/// weight, fee, share amount and price is an integer scaled by this unit,
/// giving seven fractional decimal digits.
pub const BONE: i128 = 10_000_000;

/// A pool can be finalized only with strictly more than this many tokens.
pub const MIN_BOUND_TOKENS: u32 = 2;

/// No token can be bound once this many tokens are bound.
pub const MAX_BOUND_TOKENS: u32 = 3;

/// Least admissible swap fee.
pub const MIN_FEE: i128 = 10;

/// Greatest admissible swap fee.
pub const MAX_FEE: i128 = 1_000_000;

/// Flat fee taken from the share amount when liquidity leaves the pool.
pub const EXIT_FEE: i128 = 0;

/// Least admissible denormalized weight of a bound token.
pub const MIN_WEIGHT: i128 = BONE;

/// Greatest admissible denormalized weight of a bound token.
pub const MAX_WEIGHT: i128 = BONE * 50;

/// Greatest admissible sum of all denormalized weights.
pub const MAX_TOTAL_WEIGHT: i128 = BONE * 50;

/// Least admissible balance of a bound token.
pub const MIN_BALANCE: i128 = 10;

/// Liquidity-share supply minted to the controller when the pool is finalized.
pub const INIT_POOL_SUPPLY: i128 = BONE * 100;

/// Least base accepted by the fractional power function.
pub const MIN_CPOW_BASE: i128 = 1;

/// Greatest base accepted by the fractional power function.
pub const MAX_CPOW_BASE: i128 = 2 * BONE - 1;

/// Stopping threshold handed to the power series by [`crate::c_num::c_pow`].
pub const CPOW_PRECISION: i128 = 10;

/// Hard ceiling on the number of power-series iterations, so that the series
/// cannot loop without bound on inputs near the edge of its domain.
pub const CPOW_MAX_ITERATIONS: i128 = 1000;

/// A swap may take in at most this fraction of the in-token balance.
pub const MAX_IN_RATIO: i128 = 5_000_000;

/// A swap may pay out at most this fraction of the out-token balance.
pub const MAX_OUT_RATIO: i128 = 3_333_334;

} // verus!
