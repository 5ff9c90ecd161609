//! Pricing and liquidity-accounting core of a constant-product automated
//! market maker: pool creation and lookup for a pair of fungible assets,
//! deposit and withdrawal share accounting, and fee-adjusted swap quoting
//! that preserves the product of the reserves.
//!
//! Custody of balances, authority checks and persistent storage are external
//! collaborators: every function here is a pure computation over the current
//! reserve and supply figures, and returns the amounts that the host must
//! move or mint as one atomic unit.

use vstd::prelude::*;

pub mod errors;
pub mod ids;
pub mod liquidity;
pub mod market;
pub mod math;
pub mod registry;
pub mod swap;

verus! {

/// Liquidity shares permanently locked by the first deposit into a pool,
/// so that the pool can never be fully drained and the first depositor
/// cannot manipulate the share price.
pub const MINIMUM_LIQUIDITY: u64 = 100;

/// Fee rates are in basis points; a pool's fee must be strictly below this.
pub const MAX_FEE_BASIS_POINTS: u16 = 10000;

} // verus!
