use vstd::prelude::*;

verus! {

/// Maximum number of decimals allowed for shared liquidity tokens
pub const MAX_SHARED_LIQUIDITY_DECIMALS: u8 = 9;

/// Minimum supply required for shared liquidity tokens
pub const MIN_SHARED_LIQUIDITY_SUPPLY: u64 = 1_000_000;

/// Maximum supply allowed for shared liquidity tokens
pub const MAX_SHARED_LIQUIDITY_SUPPLY: u64 = 1_000_000_000_000;

/// Maximum number of ranges per position
pub const MAX_RANGES_PER_POSITION: u8 = 10;

/// Minimum range width in basis points (0.01%)
pub const MIN_RANGE_WIDTH: u32 = 1;

/// Maximum range width in basis points (100%)
pub const MAX_RANGE_WIDTH: u32 = 10000;

/// Maximum number of hops for multi-hop swaps
pub const MAX_HOPS: usize = 5;

/// Minimum output amount threshold for swap paths
pub const MIN_OUTPUT_AMOUNT_THRESHOLD: u64 = 100;

/// Fixed-point scale of pool prices (reserve ratios)
pub const PRICE_PRECISION: u64 = 1_000_000;

/// Number of price points kept in a pool's price history
pub const MAX_HISTORY_LENGTH: usize = 1440;

/// Denominator of basis-point rates
pub const BASIS_POINTS: u64 = 10_000;

/// Flash loan fee of a new pool, in basis points (0.09%)
pub const DEFAULT_FLASH_LOAN_FEE: u16 = 9;

/// Largest flash loan of a new pool, as a percentage of its reserve
pub const DEFAULT_MAX_FLASH_LOAN_PERCENTAGE: u8 = 50;

/// Lowest swap fee of a pool, in basis points
pub const MIN_POOL_FEE: u64 = 1;

/// Highest swap fee of a pool, in basis points
pub const MAX_POOL_FEE: u64 = 100;

} // verus!
