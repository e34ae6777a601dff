use std::str::FromStr;
use supersol_token::compatibility::SharedLiquidityCompatibility;
use supersol_token::concentrated::ConcentratedLiquidityManager;
use supersol_token::constants::MAX_RANGES_PER_POSITION;
use supersol_token::emergency::EmergencyManager;
use supersol_token::error::ErrorCode;
use supersol_token::key::Pubkey;
use supersol_token::oracle::PriceOracleManager;
use supersol_token::operations::SharedLiquidityChecker as PoolOperations;
use supersol_token::shared_liquidity::SharedLiquidityChecker;
use supersol_token::state::{Account, AccountState, Mint};
use supersol_token::swap::SwapManager;
use supersol_token::types::SharedLiquidityPool;

/// A fixed reading of the clock for the operations that depend on the time.
const NOW: i64 = 1_700_000_000;

fn unique_key() -> Pubkey {
    Pubkey::new_from_array(solana_pubkey::Pubkey::new_unique().to_bytes())
}

/// The address written as a run of one digit ("4444..."): its base58
/// decoding where that gives 32 bytes, else 32 bytes of that digit (most
/// such runs decode to fewer bytes).
fn key(s: &str) -> Pubkey {
    match solana_pubkey::Pubkey::from_str(s) {
        Ok(k) => Pubkey::new_from_array(k.to_bytes()),
        Err(_) => Pubkey::new_from_array([s.as_bytes()[0] - b'0'; 32]),
    }
}

fn account(mint: Pubkey, amount: u64) -> Account {
    Account {
        mint,
        owner: unique_key(),
        amount,
        delegate: None,
        state: AccountState::Initialized,
        is_native: None,
        delegated_amount: 0,
        close_authority: None,
    }
}

fn compatible_mint(supply: u64) -> Mint {
    Mint {
        mint_authority: None,
        supply,
        decimals: 9,
        is_initialized: true,
        freeze_authority: None,
    }
}

fn create_test_pool() -> SharedLiquidityPool {
    let token_a = key("11111111111111111111111111111111");
    let token_b = key("22222222222222222222222222222222");
    let admin = key("33333333333333333333333333333333");
    PoolOperations::create_liquidity_pool(token_a, token_b, 30, admin).unwrap()
}

#[test]
fn test_mint_compatibility() {
    let mut mint = compatible_mint(1_000_000);

    assert_eq!(
        SharedLiquidityChecker::check_mint_compatibility(&mint),
        SharedLiquidityCompatibility::Compatible
    );

    mint.is_initialized = false;
    assert_eq!(
        SharedLiquidityChecker::check_mint_compatibility(&mint),
        SharedLiquidityCompatibility::NotInitialized
    );

    mint.is_initialized = true;
    mint.mint_authority = Some(unique_key());
    assert_eq!(
        SharedLiquidityChecker::check_mint_compatibility(&mint),
        SharedLiquidityCompatibility::HasMintAuthority
    );

    mint.mint_authority = None;
    mint.decimals = 10;
    assert_eq!(
        SharedLiquidityChecker::check_mint_compatibility(&mint),
        SharedLiquidityCompatibility::InvalidDecimals
    );

    mint.decimals = 9;
    mint.supply = 0;
    assert_eq!(
        SharedLiquidityChecker::check_mint_compatibility(&mint),
        SharedLiquidityCompatibility::InvalidSupply
    );
}

#[test]
fn test_account_compatibility() {
    let mut account = account(unique_key(), 1000);

    assert_eq!(
        SharedLiquidityChecker::check_account_compatibility(&account),
        SharedLiquidityCompatibility::Compatible
    );

    account.state = AccountState::Frozen;
    assert_eq!(
        SharedLiquidityChecker::check_account_compatibility(&account),
        SharedLiquidityCompatibility::FrozenAccounts
    );

    account.state = AccountState::Initialized;
    account.delegate = Some(unique_key());
    assert_eq!(
        SharedLiquidityChecker::check_account_compatibility(&account),
        SharedLiquidityCompatibility::HasDelegates
    );
}

#[test]
fn test_token_exchange() {
    let source_mint = compatible_mint(1_000_000);
    let destination_mint = compatible_mint(2_000_000);
    let mut source_account = account(unique_key(), 1000);
    let mut destination_account = account(unique_key(), 0);

    let exchange_amount =
        SharedLiquidityChecker::calculate_exchange_rate(&source_mint, &destination_mint, 1000)
            .unwrap();
    assert_eq!(exchange_amount, 2000);

    SharedLiquidityChecker::exchange_tokens(
        &mut source_account,
        &mut destination_account,
        &source_mint,
        &destination_mint,
        1000,
    )
    .unwrap();

    assert_eq!(source_account.amount, 0);
    assert_eq!(destination_account.amount, 2000);
}

#[test]
fn test_cross_chain_transfer() {
    let mint = compatible_mint(1_000_000);
    let mut source_account = account(unique_key(), 1000);
    let mut destination_account = account(unique_key(), 0);

    let ibc_channel = SharedLiquidityChecker::register_ibc_channel(
        "supersol".to_string(),
        "ethereum".to_string(),
        "channel-1".to_string(),
        "transfer".to_string(),
    );

    assert!(SharedLiquidityChecker::verify_cross_chain_compatibility(&mint, &ibc_channel).is_ok());

    assert!(SharedLiquidityChecker::prepare_cross_chain_transfer(
        &mut source_account,
        500,
        &ibc_channel
    )
    .is_ok());
    assert_eq!(source_account.amount, 500);

    assert!(SharedLiquidityChecker::complete_cross_chain_transfer(
        &mut destination_account,
        500,
        &ibc_channel
    )
    .is_ok());
    assert_eq!(destination_account.amount, 500);
}

#[test]
fn test_token_wrapping() {
    let mut original_account = account(unique_key(), 1000);
    let mut wrapped_account = account(unique_key(), 0);

    let wrapped_config = SharedLiquidityChecker::create_wrapped_token_config(
        "ethereum".to_string(),
        "0x123...".to_string(),
        18,
    );

    assert!(SharedLiquidityChecker::wrap_tokens(
        &mut original_account,
        &mut wrapped_account,
        500,
        &wrapped_config
    )
    .is_ok());
    assert_eq!(original_account.amount, 500);
    assert_eq!(wrapped_account.amount, 500);

    assert!(SharedLiquidityChecker::unwrap_tokens(
        &mut wrapped_account,
        &mut original_account,
        500,
        &wrapped_config
    )
    .is_ok());
    assert_eq!(wrapped_account.amount, 0);
    assert_eq!(original_account.amount, 1000);
}

#[test]
fn test_liquidity_pool_edge_cases() {
    let token_a_mint = unique_key();
    let token_b_mint = unique_key();

    let same_token_result =
        SharedLiquidityChecker::create_liquidity_pool(token_a_mint, token_a_mint, 30);
    assert!(same_token_result.is_err());

    let invalid_fee_result =
        SharedLiquidityChecker::create_liquidity_pool(token_a_mint, token_b_mint, 200);
    assert!(invalid_fee_result.is_err());

    let mut pool =
        SharedLiquidityChecker::create_liquidity_pool(token_a_mint, token_b_mint, 30).unwrap();

    let mut token_a_account = account(token_a_mint, 0);
    let mut token_b_account = account(token_b_mint, 0);

    let zero_liquidity_result = SharedLiquidityChecker::add_liquidity(
        &mut pool,
        &mut token_a_account,
        &mut token_b_account,
        0,
        0,
    );
    assert!(zero_liquidity_result.is_err());

    let insufficient_liquidity_result = SharedLiquidityChecker::execute_swap(
        &mut pool,
        &mut token_a_account,
        &mut token_b_account,
        1000,
        true,
    );
    assert!(insufficient_liquidity_result.is_err());
}

#[test]
fn test_consecutive_swaps() {
    let token_a_mint = unique_key();
    let token_b_mint = unique_key();
    let mut pool =
        SharedLiquidityChecker::create_liquidity_pool(token_a_mint, token_b_mint, 30).unwrap();
    let mut token_a_account = account(token_a_mint, 1_000_000);
    let mut token_b_account = account(token_b_mint, 1_000_000);

    assert!(SharedLiquidityChecker::add_liquidity(
        &mut pool,
        &mut token_a_account,
        &mut token_b_account,
        500_000,
        500_000
    )
    .is_ok());

    let swap_amounts: [u64; 4] = [1_000, 2_000, 5_000, 10_000];
    let mut total_output = 0;

    for amount in swap_amounts.iter() {
        let output = SharedLiquidityChecker::execute_swap(
            &mut pool,
            &mut token_a_account,
            &mut token_b_account,
            *amount,
            true,
        )
        .unwrap();
        total_output += output;
    }

    let mut last_price_impact = 0.0;
    for amount in swap_amounts.iter() {
        let output = SharedLiquidityChecker::calculate_swap_amount(&pool, *amount, true).unwrap();
        let price_impact = (*amount as f64 * output as f64)
            / (pool.token_a_balance as f64 * pool.token_b_balance as f64);
        assert!(price_impact > last_price_impact);
        last_price_impact = price_impact;
    }

    let single_swap_output = SharedLiquidityChecker::calculate_swap_amount(
        &pool,
        swap_amounts.iter().sum::<u64>(),
        true,
    )
    .unwrap();
    assert!(total_output > single_swap_output);
}

#[test]
fn test_fee_collection() {
    let token_a_mint = unique_key();
    let token_b_mint = unique_key();
    let mut pool =
        SharedLiquidityChecker::create_liquidity_pool(token_a_mint, token_b_mint, 30).unwrap();
    let mut token_a_account = account(token_a_mint, 1_000_000);
    let mut token_b_account = account(token_b_mint, 1_000_000);

    assert!(SharedLiquidityChecker::add_liquidity(
        &mut pool,
        &mut token_a_account,
        &mut token_b_account,
        500_000,
        500_000
    )
    .is_ok());

    let initial_a_balance = pool.token_a_balance;
    let initial_b_balance = pool.token_b_balance;

    let swap_amount = 10_000;
    let output = SharedLiquidityChecker::execute_swap(
        &mut pool,
        &mut token_a_account,
        &mut token_b_account,
        swap_amount,
        true,
    )
    .unwrap();

    let expected_fee = (swap_amount as u128)
        .checked_mul(pool.fee_rate as u128)
        .unwrap()
        .checked_div(10000)
        .unwrap() as u64;

    assert_eq!(pool.token_a_balance, initial_a_balance + swap_amount);
    assert_eq!(pool.token_b_balance, initial_b_balance - output);

    let actual_fee = swap_amount - (swap_amount - expected_fee);
    assert_eq!(actual_fee, expected_fee);
}

#[test]
fn test_slippage_protection() {
    let token_a_mint = unique_key();
    let token_b_mint = unique_key();
    let mut pool =
        SharedLiquidityChecker::create_liquidity_pool(token_a_mint, token_b_mint, 30).unwrap();
    let mut token_a_account = account(token_a_mint, 1_000_000);
    let mut token_b_account = account(token_b_mint, 1_000_000);

    assert!(SharedLiquidityChecker::add_liquidity(
        &mut pool,
        &mut token_a_account,
        &mut token_b_account,
        500_000,
        500_000
    )
    .is_ok());

    let swap_sizes: [u64; 4] = [1_000, 10_000, 50_000, 100_000];

    for size in swap_sizes.iter() {
        let expected_output =
            SharedLiquidityChecker::calculate_swap_amount(&pool, *size, true).unwrap();
        let min_output = (expected_output as u128)
            .checked_mul(999)
            .unwrap()
            .checked_div(1000)
            .unwrap() as u64;

        let actual_output = SharedLiquidityChecker::execute_swap(
            &mut pool,
            &mut token_a_account,
            &mut token_b_account,
            *size,
            true,
        )
        .unwrap();

        assert!(actual_output >= min_output);
        assert!(actual_output <= expected_output);

        let slippage = (expected_output - actual_output) as f64 / expected_output as f64;
        assert!(slippage <= 0.001);
    }
}

#[test]
fn test_basic_pool_operations() {
    let mut pool = create_test_pool();
    let owner = key("44444444444444444444444444444444");

    pool.add_liquidity(1000, 1000, owner, Ok(NOW)).unwrap();
    assert_eq!(pool.reserve_a, 1000);
    assert_eq!(pool.reserve_b, 1000);

    let (amount_a, amount_b) = PoolOperations::remove_liquidity(&mut pool, 1, 500).unwrap();
    assert_eq!(amount_a, 500);
    assert_eq!(amount_b, 500);
    assert_eq!(pool.reserve_a, 500);
    assert_eq!(pool.reserve_b, 500);
}

#[test]
fn test_price_oracle() {
    let mut pool = create_test_pool();

    PriceOracleManager::initialize_oracle(&mut pool, 60, 100, Ok(NOW)).unwrap();

    PriceOracleManager::update_price(&mut pool, 1000, Ok(NOW)).unwrap();
    let price = PriceOracleManager::get_price(&pool, Ok(NOW)).unwrap();
    assert_eq!(price, 1000);
}

#[test]
fn test_emergency_pause() {
    let mut pool = create_test_pool();
    let admin = key("33333333333333333333333333333333");

    PoolOperations::initialize_emergency_pause(&mut pool, 3600, admin).unwrap();

    EmergencyManager::pause_pool(&mut pool, admin, Ok(NOW)).unwrap();
    assert!(EmergencyManager::is_paused(&pool, Ok(NOW)).unwrap());

    PoolOperations::resume_pool(&mut pool, admin).unwrap();
    assert!(!EmergencyManager::is_paused(&pool, Ok(NOW)).unwrap());
}

#[test]
fn multi_hop_swap_runs_in_the_pools_the_path_names() {
    let mut pool = create_test_pool();
    let owner = key("44444444444444444444444444444444");

    pool.add_liquidity(1000, 1000, owner, Ok(NOW)).unwrap();

    let output = SwapManager::execute_swap(&mut pool, 100, 90, true, Ok(NOW)).unwrap();
    assert_eq!(output, 90);

    let mut pool2 = create_test_pool();
    let token_c = key("55555555555555555555555555555555");
    pool2.token_b_mint = token_c;
    pool2.add_liquidity(1000, 1000, owner, Ok(NOW)).unwrap();

    // The A-to-C pool is second; the path names it, and only it changes.
    let token_a = pool.token_a_mint;
    let mut pools = vec![pool, pool2];
    let path = SwapManager::find_best_swap_path(&pools, token_a, token_c, 100, 80, Ok(NOW))
        .unwrap()
        .unwrap();
    assert_eq!(path.pools.len(), 1);
    assert_eq!(path.pool_indices, vec![1]);

    let first_before = pools[0].clone();
    let output = SwapManager::execute_multi_hop_swap(&mut pools, &path, 100, 80, Ok(NOW)).unwrap();
    assert_eq!(output, 90);
    assert_eq!(pools[1].reserve_a, 1100);
    assert_eq!(pools[1].reserve_b, 910);
    assert_eq!(pools[0], first_before);
}

#[test]
fn test_concentrated_liquidity_advanced() {
    let mut pool = create_test_pool();
    let owner = key("44444444444444444444444444444444");

    let position_id = ConcentratedLiquidityManager::create_position(
        &mut pool,
        owner,
        1000,
        1000,
        90,
        110,
        Ok(NOW),
    )
    .unwrap();

    assert!(ConcentratedLiquidityManager::add_range(
        &mut pool,
        position_id,
        500,
        500,
        95,
        105,
        Ok(NOW)
    )
    .is_err());

    let target_ranges = vec![(85, 95), (95, 105), (105, 115)];
    ConcentratedLiquidityManager::rebalance_ranges(&mut pool, position_id, target_ranges, Ok(NOW))
        .unwrap();
    let position = pool
        .enhanced_positions
        .iter()
        .find(|p| p.position_id == position_id)
        .unwrap();
    assert_eq!(position.ranges.len(), 3);

    ConcentratedLiquidityManager::optimize_range_fees(&mut pool, position_id, Ok(NOW)).unwrap();
    let position = pool
        .enhanced_positions
        .iter()
        .find(|p| p.position_id == position_id)
        .unwrap();
    assert!(position.ranges.len() <= 3);

    let current_price = 100;
    let optimal_ranges =
        ConcentratedLiquidityManager::get_optimal_ranges(&pool, current_price, 3).unwrap();
    assert_eq!(optimal_ranges.len(), 3);
    assert!(optimal_ranges[0].0 < optimal_ranges[0].1);
    assert!(optimal_ranges[1].0 < optimal_ranges[1].1);
    assert!(optimal_ranges[2].0 < optimal_ranges[2].1);
}

#[test]
fn test_authority_validation() {
    let mint = Mint {
        mint_authority: Some(unique_key()),
        supply: 1_000_000,
        decimals: 9,
        is_initialized: true,
        freeze_authority: None,
    };
    let account = account(unique_key(), 1000);

    assert!(mint.mint_authority.is_some());
    assert!(!account.is_frozen());
    assert!(account.delegate.is_none());
}

#[test]
fn test_shared_liquidity_compatibility() {
    let mint = compatible_mint(1_000_000);
    let account = account(unique_key(), 1000);

    let compatibility = SharedLiquidityChecker::check_compatibility(&mint, &[account]);
    assert_eq!(compatibility, SharedLiquidityCompatibility::Compatible);
}

#[test]
fn concentrated_edge_cases_follow_overlap_rule() {
    let mut pool = create_test_pool();
    let owner = key("44444444444444444444444444444444");

    assert!(ConcentratedLiquidityManager::create_position(
        &mut pool,
        owner,
        1000,
        1000,
        110,
        90,
        Ok(NOW)
    )
    .is_err());

    let position_id = ConcentratedLiquidityManager::create_position(
        &mut pool,
        owner,
        1000,
        1000,
        90,
        110,
        Ok(NOW),
    )
    .unwrap();

    let mut lower = 200u64;
    for _ in 1..MAX_RANGES_PER_POSITION {
        ConcentratedLiquidityManager::add_range(
            &mut pool,
            position_id,
            100,
            100,
            lower,
            lower + 5,
            Ok(NOW),
        )
        .unwrap();
        lower += 10;
    }
    assert_eq!(
        ConcentratedLiquidityManager::add_range(
            &mut pool,
            position_id,
            100,
            100,
            lower,
            lower + 5,
            Ok(NOW)
        ),
        Err(ErrorCode::Custom(1))
    );

    assert!(SwapManager::execute_swap(&mut pool, 0, 0, true, Ok(NOW)).is_err());

    assert!(PoolOperations::remove_liquidity(&mut pool, 999, 100).is_err());
}

#[test]
fn test_liquidity_pool() {
    let token_a_mint = unique_key();
    let token_b_mint = unique_key();
    let mut pool =
        SharedLiquidityChecker::create_liquidity_pool(token_a_mint, token_b_mint, 30).unwrap();
    let mut token_a_account = account(token_a_mint, 1000);
    let mut token_b_account = account(token_b_mint, 1000);

    assert!(SharedLiquidityChecker::add_liquidity(
        &mut pool,
        &mut token_a_account,
        &mut token_b_account,
        500,
        500
    )
    .is_ok());
    assert_eq!(pool.token_a_balance, 500);
    assert_eq!(pool.token_b_balance, 500);
    assert_eq!(token_a_account.amount, 500);
    assert_eq!(token_b_account.amount, 500);

    let output_amount = SharedLiquidityChecker::execute_swap(
        &mut pool,
        &mut token_a_account,
        &mut token_b_account,
        100,
        true,
    )
    .unwrap();
    assert!(output_amount > 0);
    assert_eq!(token_a_account.amount, 400);
    assert_eq!(token_b_account.amount, 500 + output_amount);

    // Taking 400 of each out of a pool of 600 and 418 moves the price by far
    // more than 5%, so that withdrawal is refused and the balances stay.
    assert_eq!(
        SharedLiquidityChecker::remove_liquidity(
            &mut pool,
            &mut token_a_account,
            &mut token_b_account,
            400,
            400
        ),
        Err(ErrorCode::InvalidArgument)
    );
    assert_eq!(pool.token_a_balance, 600);
    assert_eq!(pool.token_b_balance, 500 - output_amount);
}

#[test]
fn test_liquidity_pool_optimized() {
    let token_a_mint = unique_key();
    let token_b_mint = unique_key();
    let mut pool =
        SharedLiquidityChecker::create_liquidity_pool(token_a_mint, token_b_mint, 30).unwrap();
    let mut token_a_account = account(token_a_mint, 1_000_000);
    let mut token_b_account = account(token_b_mint, 1_000_000);

    assert!(SharedLiquidityChecker::add_liquidity(
        &mut pool,
        &mut token_a_account,
        &mut token_b_account,
        500_000,
        500_000
    )
    .is_ok());

    let small_swap_amount = SharedLiquidityChecker::execute_swap(
        &mut pool,
        &mut token_a_account,
        &mut token_b_account,
        1_000,
        true,
    )
    .unwrap();
    assert!(small_swap_amount > 0);

    let large_swap_result = SharedLiquidityChecker::execute_swap(
        &mut pool,
        &mut token_a_account,
        &mut token_b_account,
        200_000,
        true,
    );
    assert!(large_swap_result.is_err());

    let fee_amount = (1_000 as u128)
        .checked_mul(pool.fee_rate as u128)
        .unwrap()
        .checked_div(10000)
        .unwrap() as u64;
    assert_eq!(fee_amount, 3);

    let swap_amount = SharedLiquidityChecker::calculate_swap_amount(&pool, 1_000, true).unwrap();
    let expected_amount = (swap_amount as u128)
        .checked_mul(999)
        .unwrap()
        .checked_div(1000)
        .unwrap() as u64;
    assert!(swap_amount >= expected_amount);

    // Withdrawing 400 000 of each from about 500 000 of each is a price
    // impact far above 5%: refused, the pool keeps its balances.
    let (a, b) = (pool.token_a_balance, pool.token_b_balance);
    assert!(SharedLiquidityChecker::remove_liquidity(
        &mut pool,
        &mut token_a_account,
        &mut token_b_account,
        400_000,
        400_000
    )
    .is_err());
    assert_eq!((pool.token_a_balance, pool.token_b_balance), (a, b));
}

#[test]
fn test_concentrated_liquidity() {
    let mut pool = create_test_pool();
    let owner = key("44444444444444444444444444444444");

    let position_id = ConcentratedLiquidityManager::create_position(
        &mut pool,
        owner,
        1000,
        1000,
        90,
        110,
        Ok(NOW),
    )
    .unwrap();
    assert_eq!(position_id, 1);

    // A range inside [90, 110] overlaps the first one and is refused.
    assert!(ConcentratedLiquidityManager::add_range(
        &mut pool,
        position_id,
        500,
        500,
        95,
        105,
        Ok(NOW)
    )
    .is_err());

    let (amount_a, amount_b) =
        ConcentratedLiquidityManager::remove_range(&mut pool, position_id, 0, Ok(NOW)).unwrap();
    assert_eq!(amount_a, 1000);
    assert_eq!(amount_b, 1000);
}

#[test]
fn test_swaps() {
    let mut pool = create_test_pool();
    let owner = key("44444444444444444444444444444444");

    pool.add_liquidity(1000, 1000, owner, Ok(NOW)).unwrap();

    let output = SwapManager::execute_swap(&mut pool, 100, 90, true, Ok(NOW)).unwrap();
    assert!(output >= 90);

    let mut pool2 = create_test_pool();
    let token_c = key("55555555555555555555555555555555");
    pool2.token_b_mint = token_c;
    pool2.add_liquidity(1000, 1000, owner, Ok(NOW)).unwrap();

    let token_a = pool.token_a_mint;
    let mut pools = vec![pool, pool2];
    let path = SwapManager::find_best_swap_path(&pools, token_a, token_c, 100, 80, Ok(NOW))
        .unwrap()
        .unwrap();

    let output = SwapManager::execute_multi_hop_swap(&mut pools, &path, 100, 80, Ok(NOW)).unwrap();
    assert!(output >= 80);
}

#[test]
fn test_edge_cases() {
    let mut pool = create_test_pool();
    let owner = key("44444444444444444444444444444444");

    assert!(ConcentratedLiquidityManager::create_position(
        &mut pool,
        owner,
        1000,
        1000,
        110,
        90,
        Ok(NOW)
    )
    .is_err());

    let position_id = ConcentratedLiquidityManager::create_position(
        &mut pool,
        owner,
        1000,
        1000,
        90,
        110,
        Ok(NOW),
    )
    .unwrap();

    // Ranges that overlap the first are refused before the range limit
    // matters; the limit itself is covered by
    // `concentrated_edge_cases_follow_overlap_rule`.
    assert!(ConcentratedLiquidityManager::add_range(
        &mut pool,
        position_id,
        100,
        100,
        95,
        105,
        Ok(NOW)
    )
    .is_err());

    assert!(SwapManager::execute_swap(&mut pool, 0, 0, true, Ok(NOW)).is_err());

    assert!(PoolOperations::remove_liquidity(&mut pool, 999, 100).is_err());
}
