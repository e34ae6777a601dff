use crate::key::Pubkey;
use vstd::prelude::*;

verus! {

/// IBC channel configuration for cross-chain token transfers
#[derive(Debug, Clone, PartialEq)]
pub struct IbcChannel {
    /// Source chain identifier
    pub source_chain: String,
    /// Destination chain identifier
    pub destination_chain: String,
    /// Channel ID for the IBC connection
    pub channel_id: String,
    /// Port ID for the IBC connection
    pub port_id: String,
    /// Whether the channel is active
    pub is_active: bool,
}

/// Wrapped token configuration for cross-chain compatibility
#[derive(Debug, Clone, PartialEq)]
pub struct WrappedTokenConfig {
    /// Original token's chain identifier
    pub original_chain: String,
    /// Original token's contract address
    pub original_address: String,
    /// Wrapped token's decimals
    pub decimals: u8,
    /// Whether the wrapped token is active
    pub is_active: bool,
}

/// Price oracle configuration for a liquidity pool
#[derive(Debug, Clone, Copy, PartialEq, Eq)]
pub struct PriceOracle {
    /// Last observed price of token A in terms of token B
    pub last_price: u64,
    /// Timestamp of last price update
    pub last_update: i64,
    /// Minimum time between price updates (in seconds)
    pub min_update_interval: i64,
    /// Maximum allowed price deviation (in basis points)
    pub max_price_deviation: u16,
    /// Whether the oracle is active
    pub is_active: bool,
}

/// A staker's stake in a pool's liquidity mining program
#[derive(Debug, Clone, Copy, PartialEq, Eq)]
pub struct StakingAccount {
    /// The staker
    pub staker: Pubkey,
    /// Amount staked
    pub amount: u64,
    /// Time of the last stake
    pub start_time: i64,
    /// Time of the last reward claim
    pub last_claim_time: i64,
    /// Rewards claimed so far
    pub accumulated_rewards: u64,
}

/// Summary of a staker's stake
#[derive(Debug, Clone, Copy, PartialEq, Eq)]
pub struct StakingInfo {
    pub staked_amount: u64,
    pub start_time: i64,
    pub last_claim_time: i64,
    pub accumulated_rewards: u64,
    pub current_rewards: u64,
    pub total_staked: u64,
    pub reward_rate: u64,
    pub staking_period: i64,
}

/// Liquidity mining configuration
#[derive(Debug, Clone, PartialEq)]
pub struct LiquidityMining {
    /// Token paid out as reward
    pub reward_token: Pubkey,
    /// Rewards paid per staking period
    pub reward_rate: u64,
    /// Minimum staking duration in seconds
    pub staking_period: i64,
    /// Sum of all stakes
    pub total_staked: u64,
    /// Time of the last configuration of the program
    pub last_reward_update: i64,
    /// Rewards accumulated by the program
    pub accumulated_rewards: u64,
    /// The stakes, one per staker
    pub staking_accounts: Vec<StakingAccount>,
}

/// Liquidity provider position
#[derive(Debug, Clone, Copy, PartialEq, Eq)]
pub struct LiquidityPosition {
    /// Provider's share of the pool
    pub shares: u64,
    /// Last reward claim timestamp
    pub last_claim_time: i64,
    /// Accumulated rewards
    pub accumulated_rewards: u64,
    /// Position owner
    pub owner: Pubkey,
    /// Position ID
    pub id: u64,
}

/// Emergency pause configuration
#[derive(Debug, Clone, Copy, PartialEq, Eq)]
pub struct EmergencyPause {
    /// Whether the pool is paused
    pub is_paused: bool,
    /// Timestamp when the pool was paused
    pub pause_timestamp: i64,
    /// Maximum pause duration in seconds
    pub max_pause_duration: i64,
    /// Administrator public key
    pub admin: Pubkey,
}

/// Concentrated liquidity range
#[derive(Debug, Clone, Copy, PartialEq, Eq)]
pub struct LiquidityRange {
    /// Lower price bound in basis points
    pub lower_price: u32,
    /// Upper price bound in basis points
    pub upper_price: u32,
    /// Liquidity amount in this range
    pub liquidity: u64,
    /// Amount of token A held in this range: what was deposited into it, or
    /// what its liquidity stands for when a rebalance created it
    pub token_a_amount: u64,
    /// Amount of token B held in this range, in the same way
    pub token_b_amount: u64,
    /// Fees collected in this range
    pub fees_collected: u64,
    /// Last update timestamp
    pub last_update: i64,
}

/// Enhanced liquidity position with ranges
#[derive(Debug, Clone, PartialEq)]
pub struct EnhancedLiquidityPosition {
    /// Base position data
    pub base_position: LiquidityPosition,
    /// Active liquidity ranges
    pub ranges: Vec<LiquidityRange>,
    /// Position ID
    pub position_id: u64,
    /// Creation timestamp
    pub created_at: i64,
    /// Last update timestamp
    pub updated_at: i64,
}

/// Liquidity pool of two tokens, with its positions and its oracle, mining,
/// and pause configuration
#[derive(Debug, Clone, PartialEq)]
pub struct SharedLiquidityPool {
    /// Token A's mint address
    pub token_a_mint: Pubkey,
    /// Token B's mint address
    pub token_b_mint: Pubkey,
    /// Pool's token A reserve
    pub reserve_a: u64,
    /// Pool's token B reserve
    pub reserve_b: u64,
    /// Pool's swap fee in basis points (e.g., 30 = 0.3%)
    pub fee: u64,
    /// Pool administrator
    pub admin: Pubkey,
    /// Whether the pool is active
    pub is_active: bool,
    /// Flash loan fee in basis points (e.g., 9 = 0.09%)
    pub flash_loan_fee: u16,
    /// Maximum flash loan amount as percentage of pool balance (e.g., 50 = 50%)
    pub max_flash_loan_percentage: u8,
    /// Price oracle configuration
    pub price_oracle: PriceOracle,
    /// Liquidity mining configuration
    pub liquidity_mining: LiquidityMining,
    /// Emergency pause configuration
    pub emergency_pause: EmergencyPause,
    /// Liquidity provider positions
    pub positions: Vec<LiquidityPosition>,
    /// Enhanced (concentrated) liquidity positions, at most one per id: a new
    /// position replaces the one with its id, and every other operation keeps
    /// the ids (see `position_ids_unique` and the laws that keep it)
    pub enhanced_positions: Vec<EnhancedLiquidityPosition>,
    /// Next position ID
    pub next_position_id: u64,
    /// Current price in basis points
    pub current_price: u32,
    /// Price history for range calculations: (timestamp, price)
    pub price_history: Vec<(i64, u32)>,
}

/// What a swap path records of a pool it goes through
#[derive(Debug, Clone, Copy, PartialEq, Eq)]
pub struct PoolSnapshot {
    pub token_a_mint: Pubkey,
    pub token_b_mint: Pubkey,
    pub reserve_a: u64,
    pub reserve_b: u64,
    pub fee: u64,
}

/// Swap path for multi-hop swaps
#[derive(Debug, Clone, PartialEq)]
pub struct SwapPath {
    /// The pools of the path, in order, as they were when the path was found
    pub pools: Vec<PoolSnapshot>,
    /// Where the pools of the path stand in the pool list that the path was
    /// found in, in order: hop `k` runs in pool `pool_indices[k]`
    pub pool_indices: Vec<usize>,
    /// Expected output amount
    pub expected_output: u64,
    /// Price impact in basis points
    pub price_impact: u64,
}

/// Mathematical model of a liquidity mining program.
#[verifier::ext_equal]
pub struct MiningView {
    pub reward_token: Pubkey,
    pub reward_rate: u64,
    pub staking_period: i64,
    pub total_staked: u64,
    pub last_reward_update: i64,
    pub accumulated_rewards: u64,
    pub staking_accounts: Seq<StakingAccount>,
}

impl View for LiquidityMining {
    type V = MiningView;

    open spec fn view(&self) -> MiningView {
        MiningView {
            reward_token: self.reward_token,
            reward_rate: self.reward_rate,
            staking_period: self.staking_period,
            total_staked: self.total_staked,
            last_reward_update: self.last_reward_update,
            accumulated_rewards: self.accumulated_rewards,
            staking_accounts: self.staking_accounts@,
        }
    }
}

/// Mathematical model of an enhanced liquidity position.
#[verifier::ext_equal]
pub struct PositionView {
    pub base_position: LiquidityPosition,
    pub ranges: Seq<LiquidityRange>,
    pub position_id: u64,
    pub created_at: i64,
    pub updated_at: i64,
}

impl View for EnhancedLiquidityPosition {
    type V = PositionView;

    open spec fn view(&self) -> PositionView {
        PositionView {
            base_position: self.base_position,
            ranges: self.ranges@,
            position_id: self.position_id,
            created_at: self.created_at,
            updated_at: self.updated_at,
        }
    }
}

/// Mathematical model of a pool.
#[verifier::ext_equal]
pub struct PoolView {
    pub token_a_mint: Pubkey,
    pub token_b_mint: Pubkey,
    pub reserve_a: u64,
    pub reserve_b: u64,
    pub fee: u64,
    pub admin: Pubkey,
    pub is_active: bool,
    pub flash_loan_fee: u16,
    pub max_flash_loan_percentage: u8,
    pub price_oracle: PriceOracle,
    pub liquidity_mining: MiningView,
    pub emergency_pause: EmergencyPause,
    pub positions: Seq<LiquidityPosition>,
    pub enhanced_positions: Seq<PositionView>,
    pub next_position_id: u64,
    pub current_price: u32,
    pub price_history: Seq<(i64, u32)>,
}

pub open spec fn position_views(s: Seq<EnhancedLiquidityPosition>) -> Seq<PositionView> {
    s.map_values(|p: EnhancedLiquidityPosition| p@)
}

impl View for SharedLiquidityPool {
    type V = PoolView;

    open spec fn view(&self) -> PoolView {
        PoolView {
            token_a_mint: self.token_a_mint,
            token_b_mint: self.token_b_mint,
            reserve_a: self.reserve_a,
            reserve_b: self.reserve_b,
            fee: self.fee,
            admin: self.admin,
            is_active: self.is_active,
            flash_loan_fee: self.flash_loan_fee,
            max_flash_loan_percentage: self.max_flash_loan_percentage,
            price_oracle: self.price_oracle,
            liquidity_mining: self.liquidity_mining@,
            emergency_pause: self.emergency_pause,
            positions: self.positions@,
            enhanced_positions: position_views(self.enhanced_positions@),
            next_position_id: self.next_position_id,
            current_price: self.current_price,
            price_history: self.price_history@,
        }
    }
}

} // verus!
