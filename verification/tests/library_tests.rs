use supersol_token::compatibility::{SharedLiquidityChecker as Compatibility, SharedLiquidityCompatibility};
use supersol_token::concentrated::ConcentratedLiquidityManager;
use supersol_token::emergency::EmergencyManager;
use supersol_token::error::{ConcentratedLiquidityError, EmergencyError, ErrorCode, MiningError, OracleError};
use supersol_token::flash_loan::FlashLoanManager;
use supersol_token::key::Pubkey;
use supersol_token::mining::LiquidityMiningManager;
use supersol_token::operations::SharedLiquidityChecker as PoolOperations;
use supersol_token::oracle::PriceOracleManager;
use supersol_token::shared_liquidity::SharedLiquidityChecker;
use supersol_token::state::{Account, AccountState, Mint};
use supersol_token::swap::SwapManager;
use supersol_token::types::{LiquidityPosition, LiquidityRange, SharedLiquidityPool};

const T0: i64 = 1_700_000_000;

fn k(byte: u8) -> Pubkey {
    Pubkey::new_from_array([byte; 32])
}

fn account(mint: Pubkey, amount: u64) -> Account {
    Account {
        mint,
        owner: k(200),
        amount,
        delegate: None,
        state: AccountState::Initialized,
        is_native: None,
        delegated_amount: 0,
        close_authority: None,
    }
}

fn mint(supply: u64) -> Mint {
    Mint { mint_authority: None, supply, decimals: 6, is_initialized: true, freeze_authority: None }
}

fn pool() -> SharedLiquidityPool {
    SharedLiquidityPool::create_pool(k(1), k(2), 30, k(3)).unwrap()
}

fn cl(e: ConcentratedLiquidityError) -> ErrorCode {
    e.into()
}

// ---- compatibility -------------------------------------------------------

#[test]
fn compatibility_results_map_to_errors() {
    assert_eq!(SharedLiquidityCompatibility::Compatible.to_program_result(), Ok(()));
    assert_eq!(
        SharedLiquidityCompatibility::NotInitialized.to_program_result(),
        Err(ErrorCode::UninitializedAccount)
    );
    assert_eq!(
        SharedLiquidityCompatibility::HasMintAuthority.to_program_result(),
        Err(ErrorCode::InvalidAccountData)
    );
    assert_eq!(
        SharedLiquidityCompatibility::InvalidDecimals.to_program_result(),
        Err(ErrorCode::InvalidArgument)
    );
    assert_eq!(
        SharedLiquidityCompatibility::InvalidSupply.to_program_result(),
        Err(ErrorCode::InvalidArgument)
    );
    assert_eq!(
        SharedLiquidityCompatibility::FrozenAccounts.to_program_result(),
        Err(ErrorCode::InvalidAccountData)
    );
    assert_eq!(
        SharedLiquidityCompatibility::HasDelegates.to_program_result(),
        Err(ErrorCode::InvalidAccountData)
    );
}

#[test]
fn compatibility_reports_first_failing_account() {
    let m = mint(1_000_000);
    let ok = account(k(9), 1);
    let mut frozen = account(k(9), 1);
    frozen.state = AccountState::Frozen;
    let mut delegated = account(k(9), 1);
    delegated.delegate = Some(k(8));
    assert_eq!(
        Compatibility::check_compatibility(&m, &[ok, delegated, frozen]),
        SharedLiquidityCompatibility::HasDelegates
    );
    assert_eq!(
        Compatibility::check_compatibility(&m, &[ok, frozen, delegated]),
        SharedLiquidityCompatibility::FrozenAccounts
    );
    assert_eq!(Compatibility::check_compatibility(&m, &[]), SharedLiquidityCompatibility::Compatible);
    let mut bad = m;
    bad.supply = 1_000_000_000_001;
    assert_eq!(
        Compatibility::check_compatibility(&bad, &[frozen]),
        SharedLiquidityCompatibility::InvalidSupply
    );
}

// ---- exchange, cross-chain, wrapping -----------------------------------------

#[test]
fn exchange_rate_rounds_down_and_saturates() {
    assert_eq!(
        SharedLiquidityChecker::calculate_exchange_rate(&mint(3_000_000), &mint(1_000_000), 10),
        Ok(3)
    );
    assert_eq!(
        SharedLiquidityChecker::calculate_exchange_rate(
            &mint(1_000_000),
            &mint(1_000_000_000_000),
            u64::MAX
        ),
        Ok(u64::MAX)
    );
    assert_eq!(
        SharedLiquidityChecker::calculate_exchange_rate(&mint(10), &mint(1_000_000), 10),
        Err(ErrorCode::InvalidAccountData)
    );
}

#[test]
fn exchange_errors() {
    let sm = mint(1_000_000);
    let dm = mint(2_000_000);
    let mut frozen = account(k(9), 100);
    frozen.state = AccountState::Frozen;
    let mut dst = account(k(9), 0);
    assert_eq!(
        SharedLiquidityChecker::exchange_tokens(&mut frozen, &mut dst, &sm, &dm, 10),
        Err(ErrorCode::InvalidAccountData)
    );
    let mut src = account(k(9), 5);
    assert_eq!(
        SharedLiquidityChecker::exchange_tokens(&mut src, &mut dst, &sm, &dm, 10),
        Err(ErrorCode::InsufficientFunds)
    );
    let mut full = account(k(9), u64::MAX);
    assert_eq!(
        SharedLiquidityChecker::exchange_tokens(&mut src, &mut full, &sm, &dm, 5),
        Err(ErrorCode::ArithmeticOverflow)
    );
    // The source is debited before the credit overflows.
    assert_eq!(src.amount, 0);
    assert_eq!(full.amount, u64::MAX);
}

#[test]
fn cross_chain_errors() {
    let mut channel = SharedLiquidityChecker::register_ibc_channel(
        "a".to_string(),
        "b".to_string(),
        "c".to_string(),
        "d".to_string(),
    );
    assert_eq!(channel.source_chain, "a");
    assert_eq!(channel.port_id, "d");
    let mut m = mint(1_000_000);
    m.is_initialized = false;
    assert_eq!(
        SharedLiquidityChecker::verify_cross_chain_compatibility(&m, &channel),
        Err(ErrorCode::UninitializedAccount)
    );
    m.is_initialized = true;
    m.decimals = 10;
    assert_eq!(
        SharedLiquidityChecker::verify_cross_chain_compatibility(&m, &channel),
        Err(ErrorCode::InvalidArgument)
    );
    m.decimals = 9;
    channel.is_active = false;
    assert_eq!(
        SharedLiquidityChecker::verify_cross_chain_compatibility(&m, &channel),
        Err(ErrorCode::InvalidAccountData)
    );
    let mut a = account(k(9), 10);
    assert_eq!(
        SharedLiquidityChecker::complete_cross_chain_transfer(&mut a, 5, &channel),
        Err(ErrorCode::InvalidAccountData)
    );
    assert_eq!(a.amount, 10);
    assert_eq!(
        SharedLiquidityChecker::prepare_cross_chain_transfer(&mut a, 11, &channel),
        Err(ErrorCode::InsufficientFunds)
    );
    channel.is_active = true;
    let mut full = account(k(9), u64::MAX);
    assert_eq!(
        SharedLiquidityChecker::complete_cross_chain_transfer(&mut full, 1, &channel),
        Err(ErrorCode::ArithmeticOverflow)
    );
}

#[test]
fn unwrap_gives_back_what_wrap_took() {
    let config =
        SharedLiquidityChecker::create_wrapped_token_config("eth".to_string(), "0x1".to_string(), 8);
    assert_eq!(config.decimals, 8);
    let mut original = account(k(9), 777);
    let mut wrapped = account(k(8), 23);
    let before = (original, wrapped);
    SharedLiquidityChecker::wrap_tokens(&mut original, &mut wrapped, 700, &config).unwrap();
    assert_eq!(original.amount + wrapped.amount, 800);
    SharedLiquidityChecker::unwrap_tokens(&mut wrapped, &mut original, 700, &config).unwrap();
    assert_eq!((original, wrapped), before);
}

#[test]
fn wrap_errors() {
    let mut config =
        SharedLiquidityChecker::create_wrapped_token_config("eth".to_string(), "0x1".to_string(), 8);
    let mut a = account(k(9), 10);
    let mut b = account(k(8), u64::MAX);
    assert_eq!(
        SharedLiquidityChecker::wrap_tokens(&mut a, &mut b, 11, &config),
        Err(ErrorCode::InsufficientFunds)
    );
    assert_eq!(
        SharedLiquidityChecker::wrap_tokens(&mut a, &mut b, 10, &config),
        Err(ErrorCode::ArithmeticOverflow)
    );
    assert_eq!(a.amount, 0);
    config.is_active = false;
    assert_eq!(
        SharedLiquidityChecker::unwrap_tokens(&mut b, &mut a, 1, &config),
        Err(ErrorCode::InvalidAccountData)
    );
}

// ---- the simple pool -----------------------------------------------------------

#[test]
fn simple_pool_swap_quote_and_product() {
    let (a, b) = (k(1), k(2));
    let mut p = SharedLiquidityChecker::create_liquidity_pool(a, b, 30).unwrap();
    let mut acc_a = account(a, 1000);
    let mut acc_b = account(b, 1000);
    SharedLiquidityChecker::add_liquidity(&mut p, &mut acc_a, &mut acc_b, 500, 500).unwrap();
    assert_eq!((p.token_a_balance, p.token_b_balance), (500, 500));
    // fee 0, output 500 * 100 / 600 = 83, less 0.1%: 82
    assert_eq!(SharedLiquidityChecker::calculate_swap_amount(&p, 100, true), Ok(82));
    let product = p.token_a_balance as u128 * p.token_b_balance as u128;
    let out = SharedLiquidityChecker::execute_swap(&mut p, &mut acc_a, &mut acc_b, 100, true).unwrap();
    assert_eq!(out, 82);
    assert_eq!((p.token_a_balance, p.token_b_balance), (600, 418));
    assert_eq!((acc_a.amount, acc_b.amount), (400, 582));
    assert!(p.token_a_balance as u128 * p.token_b_balance as u128 >= product);
    // The same swap in the other direction: fee 0, 600 * 100 / 518 = 115, less 0.1%: 114
    assert_eq!(SharedLiquidityChecker::calculate_swap_amount(&p, 100, false), Ok(114));
}

#[test]
fn simple_pool_errors() {
    let (a, b) = (k(1), k(2));
    let mut p = SharedLiquidityChecker::create_liquidity_pool(a, b, 30).unwrap();
    let mut acc_a = account(a, 1_000_000);
    let mut acc_b = account(b, 1_000_000);
    let mut wrong = account(k(7), 1_000_000);
    assert_eq!(
        SharedLiquidityChecker::add_liquidity(&mut p, &mut wrong, &mut acc_b, 10, 10),
        Err(ErrorCode::InvalidAccountData)
    );
    // An empty first deposit is refused, after the balance check.
    assert_eq!(
        SharedLiquidityChecker::add_liquidity(&mut p, &mut acc_a, &mut acc_b, 0, 0),
        Err(ErrorCode::InvalidArgument)
    );
    let mut poor_b = account(b, 5);
    assert_eq!(
        SharedLiquidityChecker::add_liquidity(&mut p, &mut acc_a, &mut poor_b, 0, 10),
        Err(ErrorCode::InsufficientFunds)
    );
    assert_eq!(
        SharedLiquidityChecker::add_liquidity(&mut p, &mut acc_a, &mut acc_b, 2_000_000, 10),
        Err(ErrorCode::InsufficientFunds)
    );
    SharedLiquidityChecker::add_liquidity(&mut p, &mut acc_a, &mut acc_b, 1000, 2000).unwrap();
    // The ratio is 1:2; 100 of A must come with 198..=202 of B.
    assert_eq!(
        SharedLiquidityChecker::add_liquidity(&mut p, &mut acc_a, &mut acc_b, 100, 197),
        Err(ErrorCode::InvalidArgument)
    );
    SharedLiquidityChecker::add_liquidity(&mut p, &mut acc_a, &mut acc_b, 100, 202).unwrap();
    assert_eq!((p.token_a_balance, p.token_b_balance), (1100, 2202));
    // An empty deposit into a pool that holds tokens changes nothing.
    SharedLiquidityChecker::add_liquidity(&mut p, &mut acc_a, &mut acc_b, 0, 0).unwrap();
    assert_eq!((p.token_a_balance, p.token_b_balance), (1100, 2202));
    // Taking out 300 and 500 is an impact of 150000 / 2422200, above 5%.
    assert_eq!(
        SharedLiquidityChecker::remove_liquidity(&mut p, &mut acc_a, &mut acc_b, 300, 500),
        Err(ErrorCode::InvalidArgument)
    );
    assert_eq!(
        SharedLiquidityChecker::remove_liquidity(&mut p, &mut acc_a, &mut acc_b, 2000, 1),
        Err(ErrorCode::InsufficientFunds)
    );
    SharedLiquidityChecker::remove_liquidity(&mut p, &mut acc_a, &mut acc_b, 100, 200).unwrap();
    assert_eq!((p.token_a_balance, p.token_b_balance), (1000, 2002));
    // A large swap moves the price by more than 5%.
    assert_eq!(
        SharedLiquidityChecker::calculate_swap_amount(&p, 300, true),
        Err(ErrorCode::InvalidArgument)
    );
    p.is_active = false;
    assert_eq!(
        SharedLiquidityChecker::calculate_swap_amount(&p, 10, true),
        Err(ErrorCode::InvalidAccountData)
    );
}

// ---- the shared pool -------------------------------------------------------------

#[test]
fn first_deposit_mints_square_root_shares_and_can_be_taken_back() {
    let mut p = pool();
    p.add_liquidity(2, 8, k(4), Ok(T0)).unwrap();
    assert_eq!(p.positions.len(), 1);
    assert_eq!(p.positions[0].shares, 4);
    assert_eq!(p.positions[0].id, 1);
    assert_eq!(p.positions[0].last_claim_time, T0);
    assert_eq!(p.remove_liquidity(1, 4), Ok((2, 8)));
    assert_eq!((p.reserve_a, p.reserve_b), (0, 0));
    // Later deposits mint the smaller of the two amounts.
    p.add_liquidity(5, 3, k(4), Ok(T0)).unwrap();
    assert_eq!(p.positions[1].shares, 3);
}

#[test]
fn shared_pool_errors_and_price() {
    let mut p = pool();
    assert_eq!(
        SharedLiquidityPool::create_pool(k(1), k(2), 101, k(3)).err(),
        Some(ErrorCode::InvalidArgument)
    );
    assert_eq!(p.get_price(), Err(ErrorCode::InvalidAccountData));
    p.add_liquidity(3_000, 1_000, k(4), Ok(T0)).unwrap();
    assert_eq!(p.get_price(), Ok(3_000_000));
    assert_eq!(p.get_tvl(), Ok(6_000));
    assert_eq!(p.remove_liquidity(7, 1), Err(ErrorCode::InvalidAccountData));
    assert_eq!(p.remove_liquidity(1, 10_000), Err(ErrorCode::InvalidArgument));
    // Off-chain the clock cannot be read: the deposit is refused after the
    // reserves have been updated.
    assert_eq!(
        PoolOperations::add_liquidity(&mut p, 1, 1, k(4)),
        Err(ErrorCode::UnsupportedSysvar)
    );
    assert_eq!((p.reserve_a, p.reserve_b), (3_001, 1_001));
}

#[test]
fn constant_product_swap_keeps_product() {
    let mut p = pool();
    p.add_liquidity(10_000, 40_000, k(4), Ok(T0)).unwrap();
    assert_eq!(SwapManager::calculate_swap_output(10_000, 40_000, 1_000, 30), Ok(3_626));
    let before = p.reserve_a as u128 * p.reserve_b as u128;
    let out = SwapManager::execute_swap(&mut p, 1_000, 3_000, true, Ok(T0)).unwrap();
    assert_eq!(out, 3_626);
    assert_eq!((p.reserve_a, p.reserve_b), (11_000, 36_374));
    assert!(p.reserve_a as u128 * p.reserve_b as u128 >= before);
    assert_eq!(
        SwapManager::execute_swap(&mut p, 1_000, 10_000, false, Ok(T0)),
        Err(ErrorCode::Custom(9))
    );
}

#[test]
fn best_path_prefers_the_highest_output() {
    // Direct A-C pool with little liquidity, and a deep A-B-C route.
    let mut direct = SharedLiquidityPool::create_pool(k(1), k(3), 30, k(9)).unwrap();
    direct.add_liquidity(100, 100, k(4), Ok(T0)).unwrap();
    let mut ab = SharedLiquidityPool::create_pool(k(1), k(2), 30, k(9)).unwrap();
    ab.add_liquidity(100_000, 100_000, k(4), Ok(T0)).unwrap();
    let mut bc = SharedLiquidityPool::create_pool(k(2), k(3), 30, k(9)).unwrap();
    bc.add_liquidity(100_000, 100_000, k(4), Ok(T0)).unwrap();
    let pools = vec![ab, bc, direct];
    let path = SwapManager::find_best_swap_path(&pools, k(1), k(3), 50, 1, Ok(T0)).unwrap().unwrap();
    assert_eq!(path.pools.len(), 2);
    assert_eq!(SwapManager::simulate_swap_path(&pools, &path, 50), Ok(46));
    assert_eq!(
        SwapManager::find_best_swap_path(&pools, k(1), k(3), 50, 47, Ok(T0)).err(),
        Some(ErrorCode::Custom(9))
    );
}

// ---- pause -----------------------------------------------------------------------

#[test]
fn resume_undoes_pause() {
    let mut p = pool();
    EmergencyManager::initialize_pause(&mut p, 3600, k(3)).unwrap();
    let before = p.clone();
    EmergencyManager::pause_pool(&mut p, k(3), Ok(T0)).unwrap();
    assert_eq!(EmergencyManager::is_paused(&p, Ok(T0 + 10)), Ok(true));
    assert_eq!(EmergencyManager::get_remaining_pause_time(&p, Ok(T0 + 600)), Ok(3000));
    assert_eq!(EmergencyManager::is_paused(&p, Ok(T0 + 3601)), Ok(false));
    assert_eq!(
        EmergencyManager::pause_pool(&mut p, k(3), Ok(T0)),
        Err(EmergencyError::AlreadyPaused.into())
    );
    assert_eq!(
        EmergencyManager::resume_pool(&mut p, k(5)),
        Err(EmergencyError::UnauthorizedAdmin.into())
    );
    EmergencyManager::resume_pool(&mut p, k(3)).unwrap();
    assert_eq!(p, before);
    assert_eq!(
        EmergencyManager::resume_pool(&mut p, k(3)),
        Err(EmergencyError::AlreadyResumed.into())
    );
    assert_eq!(
        EmergencyManager::initialize_pause(&mut p, 0, k(3)),
        Err(EmergencyError::InvalidPauseDuration.into())
    );
}

// ---- oracle ----------------------------------------------------------------------

#[test]
fn oracle_reads_back_updates_and_bounds_history() {
    let mut p = pool();
    assert_eq!(
        PriceOracleManager::initialize_oracle(&mut p, 60, 0, Ok(T0)),
        Err(OracleError::InvalidPriceDeviation.into())
    );
    PriceOracleManager::initialize_oracle(&mut p, 60, 500, Ok(T0)).unwrap();
    // The first price is taken at once; later ones wait for the interval.
    PriceOracleManager::update_price(&mut p, 1000, Ok(T0)).unwrap();
    assert_eq!(
        PriceOracleManager::update_price(&mut p, 1000, Ok(T0 + 59)),
        Err(OracleError::UpdateTooSoon.into())
    );
    PriceOracleManager::update_price(&mut p, 1000, Ok(T0 + 60)).unwrap();
    assert_eq!(PriceOracleManager::get_price(&p, Ok(T0 + 60)), Ok(1000));
    // 5% of 1000 is 50: 1051 moves too far, 1050 does not.
    assert_eq!(
        PriceOracleManager::update_price(&mut p, 1051, Ok(T0 + 120)),
        Err(OracleError::PriceDeviationTooHigh.into())
    );
    PriceOracleManager::update_price(&mut p, 1050, Ok(T0 + 120)).unwrap();
    assert_eq!(
        PriceOracleManager::get_price(&p, Ok(T0 + 241)),
        Err(OracleError::PriceStale.into())
    );
    for i in 0..1500 {
        PriceOracleManager::update_price_history(&mut p, Ok(T0 + i)).unwrap();
    }
    assert_eq!(p.price_history.len(), 1440);
    assert_eq!(p.price_history[1439].0, T0 + 1499);
}

// ---- concentrated liquidity ---------------------------------------------------------

#[test]
fn ranges_stay_apart() {
    let mut p = pool();
    let id = ConcentratedLiquidityManager::create_position(&mut p, k(4), 1000, 1000, 90, 110, Ok(T0))
        .unwrap();
    assert_eq!(
        ConcentratedLiquidityManager::add_range(&mut p, id, 10, 10, 110, 120, Ok(T0)),
        Err(cl(ConcentratedLiquidityError::RangeOverlap))
    );
    ConcentratedLiquidityManager::add_range(&mut p, id, 10, 10, 111, 120, Ok(T0)).unwrap();
    assert_eq!(
        ConcentratedLiquidityManager::add_range(&mut p, 99, 10, 10, 200, 300, Ok(T0)),
        Err(cl(ConcentratedLiquidityError::PositionNotFound))
    );
    let ranges = &p.enhanced_positions[0].ranges;
    assert_eq!(ranges.len(), 2);
    assert!(ranges[0].upper_price < ranges[1].lower_price);
    assert_eq!(
        ConcentratedLiquidityManager::remove_range(&mut p, id, 5, Ok(T0)),
        Err(cl(ConcentratedLiquidityError::InvalidRangeIndex))
    );
}

#[test]
fn optimize_sorts_ranges_by_fees() {
    let mut p = pool();
    let id = ConcentratedLiquidityManager::create_position(&mut p, k(4), 1000, 1000, 10, 20, Ok(T0))
        .unwrap();
    ConcentratedLiquidityManager::add_range(&mut p, id, 1000, 1000, 30, 40, Ok(T0)).unwrap();
    ConcentratedLiquidityManager::add_range(&mut p, id, 1000, 1000, 50, 60, Ok(T0)).unwrap();
    let fees = [5u64, 20, 10];
    for (range, fee) in p.enhanced_positions[0].ranges.iter_mut().zip(fees.iter()) {
        range.fees_collected = *fee;
    }
    let total: u64 = p.enhanced_positions[0].ranges.iter().map(|r| r.liquidity).sum();
    ConcentratedLiquidityManager::optimize_range_fees(&mut p, id, Ok(T0 + 5)).unwrap();
    let ranges: Vec<LiquidityRange> = p.enhanced_positions[0].ranges.clone();
    let sorted: Vec<u64> = ranges.iter().map(|r| r.fees_collected).collect();
    assert_eq!(sorted, vec![20, 10, 5]);
    assert_eq!(ranges[0].lower_price, 30);
    assert!(ranges.iter().all(|r| r.liquidity == total / 3));
    assert_eq!(p.enhanced_positions[0].updated_at, T0 + 5);
}

#[test]
fn optimal_ranges_are_evenly_spaced() {
    let p = pool();
    let ranges = ConcentratedLiquidityManager::get_optimal_ranges(&p, 100, 4).unwrap();
    assert_eq!(ranges, vec![(75, 125), (50, 150), (25, 175), (0, 200)]);
    assert_eq!(
        ConcentratedLiquidityManager::get_optimal_ranges(&p, 100, 0),
        Err(ConcentratedLiquidityError::RangeLimitExceeded)
    );
    assert_eq!(
        ConcentratedLiquidityManager::check_range_overlap(
            &[LiquidityRange {
                lower_price: 10,
                upper_price: 20,
                liquidity: 1,
                token_a_amount: 1,
                token_b_amount: 1,
                fees_collected: 0,
                last_update: 0
            }],
            20,
            30
        ),
        Err(ConcentratedLiquidityError::RangeOverlap)
    );
}

// ---- flash loans and fees ------------------------------------------------------------

#[test]
fn flash_loan_fee_is_shared_in_proportion() {
    let mut p = pool();
    p.reserve_a = 10_000;
    p.reserve_b = 10_000;
    p.positions.push(LiquidityPosition { owner: k(4), shares: 1, last_claim_time: 0, accumulated_rewards: 0, id: 1 });
    p.positions.push(LiquidityPosition { owner: k(5), shares: 2, last_claim_time: 0, accumulated_rewards: 7, id: 2 });
    assert_eq!(FlashLoanManager::get_flash_loan_limits(&p), (5_000, 5_000));
    assert_eq!(FlashLoanManager::calculate_fee(&p, 5_000), Ok(4));
    // The fee is at least one token.
    assert_eq!(FlashLoanManager::calculate_fee(&p, 100), Ok(1));
    assert_eq!(FlashLoanManager::calculate_fee(&p, u64::MAX), Err(ErrorCode::ArithmeticOverflow));
    let borrower = Account { owner: k(1), ..account(k(1), 0) };
    assert_eq!(
        FlashLoanManager::start_flash_loan(&mut p, &borrower, 5_001),
        Err(ErrorCode::InvalidArgument)
    );
    let reserve_before = p.reserve_a;
    let fee = FlashLoanManager::start_flash_loan(&mut p, &borrower, 5_000).unwrap();
    assert_eq!(fee, 4);
    assert_eq!(p.reserve_a, 5_000);
    // A loan that was not repaid is refused, and no fee is paid out.
    assert_eq!(
        FlashLoanManager::finish_flash_loan(&mut p, &borrower, reserve_before, fee),
        Err(ErrorCode::InvalidAccountData)
    );
    // Repaying the amount without the fee is not enough either.
    p.reserve_a += 5_000;
    assert_eq!(
        FlashLoanManager::finish_flash_loan(&mut p, &borrower, reserve_before, fee),
        Err(ErrorCode::InvalidAccountData)
    );
    assert_eq!(p.positions[0].accumulated_rewards, 0);
    p.reserve_a += 4;
    FlashLoanManager::finish_flash_loan(&mut p, &borrower, reserve_before, fee).unwrap();
    // 4 * 1 / 3 = 1 and 4 * 2 / 3 = 2.
    assert_eq!(p.positions[0].accumulated_rewards, 1);
    assert_eq!(p.positions[1].accumulated_rewards, 9);
    FlashLoanManager::distribute_fees(&mut p, 10).unwrap();
    // 10 * 1 / 3 = 3 and 10 * 2 / 3 = 6: 9 of the 10 are handed out.
    assert_eq!(p.positions[0].accumulated_rewards, 4);
    assert_eq!(p.positions[1].accumulated_rewards, 15);
}

// ---- mining -------------------------------------------------------------------------

#[test]
fn staking_keeps_the_books() {
    let mut p = pool();
    assert_eq!(
        LiquidityMiningManager::initialize_mining(&mut p, k(1), 0, 100, Ok(T0)),
        Err(MiningError::InvalidRewardRate.into())
    );
    LiquidityMiningManager::initialize_mining(&mut p, k(1), 10, 100, Ok(T0)).unwrap();
    LiquidityMiningManager::stake_tokens(&mut p, &k(4), 100, Ok(T0)).unwrap();
    LiquidityMiningManager::stake_tokens(&mut p, &k(5), 30, Ok(T0)).unwrap();
    LiquidityMiningManager::stake_tokens(&mut p, &k(4), 50, Ok(T0 + 1)).unwrap();
    let sum: u64 = p.liquidity_mining.staking_accounts.iter().map(|s| s.amount).sum();
    assert_eq!(p.liquidity_mining.total_staked, 180);
    assert_eq!(sum, 180);
    assert_eq!(p.liquidity_mining.staking_accounts.len(), 2);
    assert_eq!(
        LiquidityMiningManager::unstake_tokens(&mut p, &k(4), 150, Ok(T0 + 50)),
        Err(MiningError::StakingPeriodNotEnded.into())
    );
    assert_eq!(
        LiquidityMiningManager::unstake_tokens(&mut p, &k(4), 151, Ok(T0 + 200)),
        Err(MiningError::InsufficientStake.into())
    );
    LiquidityMiningManager::unstake_tokens(&mut p, &k(4), 150, Ok(T0 + 200)).unwrap();
    assert_eq!(p.liquidity_mining.total_staked, 30);
    assert_eq!(p.liquidity_mining.staking_accounts.len(), 1);
    assert_eq!(
        LiquidityMiningManager::unstake_tokens(&mut p, &k(4), 1, Ok(T0 + 200)),
        Err(MiningError::StakeNotFound.into())
    );
}

#[test]
fn range_liquidity_is_exact_or_overflows() {
    assert_eq!(ConcentratedLiquidityManager::calculate_range_liquidity(1000, 1000, 90, 110), Ok(4500));
    assert_eq!(
        ConcentratedLiquidityManager::calculate_range_liquidity(u64::MAX, u64::MAX, 1, 2),
        Ok(u64::MAX)
    );
    assert_eq!(
        ConcentratedLiquidityManager::calculate_range_liquidity(u64::MAX, u64::MAX, 2, 3),
        Err(ConcentratedLiquidityError::ArithmeticOverflow)
    );
    let mut p = pool();
    assert_eq!(
        ConcentratedLiquidityManager::create_position(&mut p, k(4), u64::MAX, u64::MAX, 2, 3, Ok(T0)),
        Err(cl(ConcentratedLiquidityError::ArithmeticOverflow))
    );
    assert!(p.enhanced_positions.is_empty());
}

#[test]
fn removing_a_range_gives_back_its_deposit() {
    let mut p = pool();
    let first = ConcentratedLiquidityManager::create_position(&mut p, k(4), 700, 300, 10, 20, Ok(T0))
        .unwrap();
    let second = ConcentratedLiquidityManager::create_position(&mut p, k(5), 1, 2, 10, 20, Ok(T0))
        .unwrap();
    assert_eq!((first, second), (1, 2));
    ConcentratedLiquidityManager::add_range(&mut p, first, 55, 66, 30, 40, Ok(T0)).unwrap();
    let ids: Vec<u64> = p.enhanced_positions.iter().map(|q| q.position_id).collect();
    assert_eq!(ids, vec![1, 2]);
    assert_eq!(ConcentratedLiquidityManager::remove_range(&mut p, first, 1, Ok(T0 + 1)), Ok((55, 66)));
    assert_eq!(ConcentratedLiquidityManager::remove_range(&mut p, first, 0, Ok(T0 + 2)), Ok((700, 300)));
    assert!(p.enhanced_positions[0].ranges.is_empty());
    assert_eq!(p.enhanced_positions[0].updated_at, T0 + 2);
}

#[test]
fn larger_swaps_are_quoted_no_less() {
    let (a, b) = (k(1), k(2));
    let mut p = SharedLiquidityChecker::create_liquidity_pool(a, b, 30).unwrap();
    let mut acc_a = account(a, 100_000);
    let mut acc_b = account(b, 100_000);
    SharedLiquidityChecker::add_liquidity(&mut p, &mut acc_a, &mut acc_b, 50_000, 50_000).unwrap();
    let mut last = 0;
    for amount in [0u64, 1, 2, 10, 99, 100, 101, 500, 1_000, 2_000] {
        let quote = SharedLiquidityChecker::calculate_swap_amount(&p, amount, true).unwrap();
        assert!(quote >= last);
        last = quote;
    }
}

#[test]
fn loan_reserve_follows_the_borrowed_token() {
    let mut p = pool();
    p.reserve_a = 700;
    p.reserve_b = 300;
    let borrows_a = Account { owner: k(1), ..account(k(1), 0) };
    let borrows_b = Account { owner: k(9), ..account(k(2), 0) };
    assert_eq!(FlashLoanManager::reserve_for_loan(&p, &borrows_a), 700);
    assert_eq!(FlashLoanManager::reserve_for_loan(&p, &borrows_b), 300);
}

#[test]
fn position_owner_is_found_by_id() {
    let mut p = pool();
    p.positions.push(LiquidityPosition { owner: k(4), shares: 1, last_claim_time: 0, accumulated_rewards: 0, id: 7 });
    p.positions.push(LiquidityPosition { owner: k(5), shares: 2, last_claim_time: 0, accumulated_rewards: 0, id: 8 });
    assert_eq!(LiquidityMiningManager::position_owner(&p, 8), Some(k(5)));
    assert_eq!(LiquidityMiningManager::position_owner(&p, 7), Some(k(4)));
    assert_eq!(LiquidityMiningManager::position_owner(&p, 9), None);
}
