use crate::clock::{clock_reading, current_timestamp};
use crate::concentrated::{
    add_range_outcome, create_position_outcome, remove_range_outcome, ConcentratedLiquidityManager,
};
use crate::constants::{BASIS_POINTS, MAX_HOPS, MAX_POOL_FEE, MIN_POOL_FEE};
use crate::emergency::{initialize_pause_outcome, pause_outcome, resume_outcome, EmergencyManager};
use crate::error::{mi_err, or_err, ErrorCode, MiningError, OracleError};
use crate::key::Pubkey;
use crate::mining::{initialize_mining_outcome, LiquidityMiningManager};
use crate::oracle::{initialize_oracle_outcome, update_price_outcome, PriceOracleManager};
use crate::pool::{add_liquidity_outcome, new_pool, remove_liquidity_outcome};
use crate::routing::{best_path_outcome, lemma_route_fees_valid, multi_hop, pool_views};
use crate::swap::{swap_effect, SwapManager};
use crate::types::{SharedLiquidityPool, SwapPath};
use vstd::prelude::*;

verus! {

/// Main struct for shared liquidity operations. The operations that depend
/// on the time read the runtime's clock; their contracts hold for the reading
/// that the clock gave.
pub struct SharedLiquidityChecker;

impl SharedLiquidityChecker {
    /// Create a new liquidity pool
    pub fn create_liquidity_pool(token_a_mint: Pubkey, token_b_mint: Pubkey, fee: u64, admin: Pubkey) -> (r:
        Result<SharedLiquidityPool, ErrorCode>)
        ensures
            fee < MIN_POOL_FEE || fee > MAX_POOL_FEE ==> r == Err::<SharedLiquidityPool, ErrorCode>(
                ErrorCode::InvalidArgument,
            ),
            MIN_POOL_FEE <= fee <= MAX_POOL_FEE ==> (r matches Ok(p) && p@ == new_pool(
                token_a_mint,
                token_b_mint,
                fee,
                admin,
            )),
    {
        SharedLiquidityPool::create_pool(token_a_mint, token_b_mint, fee, admin)
    }

    /// Add liquidity to a pool
    pub fn add_liquidity(pool: &mut SharedLiquidityPool, amount_a: u64, amount_b: u64, owner: Pubkey) -> (r:
        Result<(), ErrorCode>)
        ensures
            exists|now: Result<i64, ErrorCode>|
                clock_reading(now) && #[trigger] add_liquidity_outcome(
                    *old(pool),
                    *final(pool),
                    r,
                    amount_a,
                    amount_b,
                    owner,
                    now,
                ),
    {
        let now = current_timestamp();
        pool.add_liquidity(amount_a, amount_b, owner, now)
    }

    /// Remove liquidity from a pool
    pub fn remove_liquidity(pool: &mut SharedLiquidityPool, position_id: u64, shares: u64) -> (r: Result<
        (u64, u64),
        ErrorCode,
    >)
        ensures
            remove_liquidity_outcome(*old(pool), *final(pool), r, position_id, shares),
    {
        pool.remove_liquidity(position_id, shares)
    }

    /// Create a concentrated liquidity position
    pub fn create_concentrated_position(
        pool: &mut SharedLiquidityPool,
        owner: Pubkey,
        amount_a: u64,
        amount_b: u64,
        lower_price: u64,
        upper_price: u64,
    ) -> (r: Result<u64, ErrorCode>)
        ensures
            exists|now: Result<i64, ErrorCode>|
                clock_reading(now) && #[trigger] create_position_outcome(
                    *old(pool),
                    *final(pool),
                    r,
                    owner,
                    amount_a,
                    amount_b,
                    lower_price,
                    upper_price,
                    now,
                ),
    {
        let now = current_timestamp();
        ConcentratedLiquidityManager::create_position(
            pool,
            owner,
            amount_a,
            amount_b,
            lower_price,
            upper_price,
            now,
        )
    }

    /// Add a range to a concentrated position
    pub fn add_range_to_position(
        pool: &mut SharedLiquidityPool,
        position_id: u64,
        amount_a: u64,
        amount_b: u64,
        lower_price: u64,
        upper_price: u64,
    ) -> (r: Result<(), ErrorCode>)
        ensures
            exists|now: Result<i64, ErrorCode>|
                clock_reading(now) && #[trigger] add_range_outcome(
                    *old(pool),
                    *final(pool),
                    r,
                    position_id,
                    amount_a,
                    amount_b,
                    lower_price,
                    upper_price,
                    now,
                ),
    {
        let now = current_timestamp();
        ConcentratedLiquidityManager::add_range(
            pool,
            position_id,
            amount_a,
            amount_b,
            lower_price,
            upper_price,
            now,
        )
    }

    /// Remove a range from a concentrated position
    pub fn remove_range_from_position(
        pool: &mut SharedLiquidityPool,
        position_id: u64,
        range_index: usize,
    ) -> (r: Result<(u64, u64), ErrorCode>)
        ensures
            exists|now: Result<i64, ErrorCode>|
                clock_reading(now) && #[trigger] remove_range_outcome(
                    *old(pool),
                    *final(pool),
                    r,
                    position_id,
                    range_index,
                    now,
                ),
    {
        let now = current_timestamp();
        ConcentratedLiquidityManager::remove_range(pool, position_id, range_index, now)
    }

    /// Initialize liquidity mining for the period from `start_time` to
    /// `end_time` at `reward_rate`. The rewards are paid in the pool's token
    /// A, and the staking period is the length of that time span. The mining
    /// state keeps no total of rewards nor a start time, so `total_rewards`
    /// and the start itself are not recorded.
    pub fn initialize_mining(
        pool: &mut SharedLiquidityPool,
        total_rewards: u64,
        start_time: i64,
        end_time: i64,
        reward_rate: u64,
    ) -> (r: Result<(), ErrorCode>)
        ensures
            end_time - start_time < i64::MIN || end_time - start_time > i64::MAX ==> r == Err::<
                (),
                ErrorCode,
            >(mi_err(MiningError::ArithmeticOverflow)) && final(pool)@ == old(pool)@,
            i64::MIN <= end_time - start_time <= i64::MAX ==> exists|now: Result<i64, ErrorCode>|
                clock_reading(now) && #[trigger] initialize_mining_outcome(
                    *old(pool),
                    *final(pool),
                    r,
                    old(pool).token_a_mint,
                    reward_rate,
                    (end_time - start_time) as i64,
                    now,
                ),
    {
        let staking_period = match end_time.checked_sub(start_time) {
            Some(d) => d,
            None => return Err(MiningError::ArithmeticOverflow.into()),
        };
        let reward_token = pool.token_a_mint;
        let now = current_timestamp();
        LiquidityMiningManager::initialize_mining(pool, reward_token, reward_rate, staking_period, now)
    }

    /// Initialize price oracle. A deviation above 10000 basis points is
    /// refused as the oracle itself refuses it, after the interval check.
    pub fn initialize_oracle(
        pool: &mut SharedLiquidityPool,
        min_update_interval: i64,
        max_price_deviation: u64,
    ) -> (r: Result<(), ErrorCode>)
        ensures
            max_price_deviation > BASIS_POINTS ==> final(pool)@ == old(pool)@ && r == Err::<
                (),
                ErrorCode,
            >(
                if min_update_interval <= 0 {
                    or_err(OracleError::InvalidUpdateInterval)
                } else {
                    or_err(OracleError::InvalidPriceDeviation)
                },
            ),
            max_price_deviation <= BASIS_POINTS ==> exists|now: Result<i64, ErrorCode>|
                clock_reading(now) && #[trigger] initialize_oracle_outcome(
                    *old(pool),
                    *final(pool),
                    r,
                    min_update_interval,
                    max_price_deviation as u16,
                    now,
                ),
    {
        if max_price_deviation > BASIS_POINTS {
            if min_update_interval <= 0 {
                return Err(OracleError::InvalidUpdateInterval.into());
            }
            return Err(OracleError::InvalidPriceDeviation.into());
        }
        let now = current_timestamp();
        PriceOracleManager::initialize_oracle(
            pool,
            min_update_interval,
            max_price_deviation as u16,
            now,
        )
    }

    /// Update oracle price
    pub fn update_oracle_price(pool: &mut SharedLiquidityPool, new_price: u64) -> (r: Result<
        (),
        ErrorCode,
    >)
        ensures
            exists|now: Result<i64, ErrorCode>|
                clock_reading(now) && #[trigger] update_price_outcome(
                    *old(pool),
                    *final(pool),
                    r,
                    new_price,
                    now,
                ),
    {
        let now = current_timestamp();
        PriceOracleManager::update_price(pool, new_price, now)
    }

    /// Initialize emergency pause
    pub fn initialize_emergency_pause(
        pool: &mut SharedLiquidityPool,
        max_pause_duration: i64,
        admin_pubkey: Pubkey,
    ) -> (r: Result<(), ErrorCode>)
        ensures
            initialize_pause_outcome(*old(pool), *final(pool), r, max_pause_duration, admin_pubkey),
    {
        EmergencyManager::initialize_pause(pool, max_pause_duration, admin_pubkey)
    }

    /// Pause pool operations
    pub fn pause_pool(pool: &mut SharedLiquidityPool, admin_pubkey: Pubkey) -> (r: Result<(), ErrorCode>)
        ensures
            exists|now: Result<i64, ErrorCode>|
                clock_reading(now) && #[trigger] pause_outcome(
                    *old(pool),
                    *final(pool),
                    r,
                    admin_pubkey,
                    now,
                ),
    {
        let now = current_timestamp();
        EmergencyManager::pause_pool(pool, admin_pubkey, now)
    }

    /// Resume pool operations
    pub fn resume_pool(pool: &mut SharedLiquidityPool, admin_pubkey: Pubkey) -> (r: Result<
        (),
        ErrorCode,
    >)
        ensures
            resume_outcome(*old(pool), *final(pool), r, admin_pubkey),
    {
        EmergencyManager::resume_pool(pool, admin_pubkey)
    }

    /// Execute a swap
    pub fn execute_swap(
        pool: &mut SharedLiquidityPool,
        input_amount: u64,
        min_output_amount: u64,
        is_token_a_to_b: bool,
    ) -> (r: Result<u64, ErrorCode>)
        requires
            old(pool).fee <= 10000,
        ensures
            exists|now: Result<i64, ErrorCode>|
                clock_reading(now) && (final(pool)@, r) == #[trigger] swap_effect(
                    old(pool)@,
                    input_amount,
                    min_output_amount,
                    is_token_a_to_b,
                    now,
                ),
    {
        let now = current_timestamp();
        SwapManager::execute_swap(pool, input_amount, min_output_amount, is_token_a_to_b, now)
    }

    /// Find best swap path
    pub fn find_best_swap_path(
        pools: &[SharedLiquidityPool],
        input_token: Pubkey,
        output_token: Pubkey,
        input_amount: u64,
        min_output_amount: u64,
    ) -> (r: Result<Option<SwapPath>, ErrorCode>)
        requires
            forall|i: int| 0 <= i < pools@.len() ==> #[trigger] pools@[i].fee <= 10000,
        ensures
            exists|now: Result<i64, ErrorCode>|
                clock_reading(now) && #[trigger] best_path_outcome(
                    pools@,
                    r,
                    input_token,
                    output_token,
                    input_amount,
                    min_output_amount,
                    now,
                ),
    {
        let now = current_timestamp();
        proof {
            assert forall|i: int| 0 <= i < pool_views(pools@).len() implies #[trigger] pool_views(
                pools@,
            )[i].fee <= 10000 by {
                assert(pool_views(pools@)[i] == pools@[i]@);
            }
            lemma_route_fees_valid(
                pool_views(pools@),
                now,
                input_token@,
                output_token@,
                MAX_HOPS as nat,
            );
        }
        SwapManager::find_best_swap_path(
            pools,
            input_token,
            output_token,
            input_amount,
            min_output_amount,
            now,
        )
    }

    /// Execute a multi-hop swap
    pub fn execute_multi_hop_swap(
        pools: &mut Vec<SharedLiquidityPool>,
        path: &SwapPath,
        input_amount: u64,
        min_output_amount: u64,
    ) -> (r: Result<u64, ErrorCode>)
        requires
            path.pool_indices@.len() == path.pools@.len(),
            forall|k: int|
                0 <= k < path.pool_indices@.len() ==> #[trigger] path.pool_indices@[k] < old(
                    pools,
                )@.len(),
            forall|k: int|
                0 <= k < path.pool_indices@.len() ==> old(pools)@[#[trigger] path.pool_indices@[k] as int].fee
                    <= 10000,
        ensures
            exists|now: Result<i64, ErrorCode>|
                clock_reading(now) && (pool_views(final(pools)@), r) == #[trigger] multi_hop(
                    pool_views(old(pools)@),
                    path.pools@,
                    path.pool_indices@,
                    input_amount,
                    min_output_amount,
                    now,
                    path.pools@.len(),
                ),
    {
        let now = current_timestamp();
        SwapManager::execute_multi_hop_swap(pools, path, input_amount, min_output_amount, now)
    }
}

} // verus!
