use crate::compatibility::{
    account_compatibility, compatibility, compatibility_error, mint_compatibility,
    SharedLiquidityChecker as CompatibilityChecker, SharedLiquidityCompatibility,
};
use crate::constants::MAX_SHARED_LIQUIDITY_DECIMALS;
use crate::constants::{MAX_SHARED_LIQUIDITY_SUPPLY, MIN_SHARED_LIQUIDITY_SUPPLY};
use crate::error::ErrorCode;
use crate::key::Pubkey;
use crate::math::{lemma_product_after_swap, lemma_scale_down, lemma_u64_product_fits};
use crate::state::{Account, Mint};
use crate::types::{IbcChannel, WrappedTokenConfig};
use vstd::prelude::*;

verus! {

/// Liquidity pool configuration for shared liquidity tokens
#[derive(Debug, Clone, PartialEq)]
pub struct LiquidityPool {
    /// Token A's mint address
    pub token_a_mint: Pubkey,
    /// Token B's mint address
    pub token_b_mint: Pubkey,
    /// Pool's token A balance
    pub token_a_balance: u64,
    /// Pool's token B balance
    pub token_b_balance: u64,
    /// Pool's fee rate in basis points (e.g., 30 = 0.3%)
    pub fee_rate: u16,
    /// Whether the pool is active
    pub is_active: bool,
}

/// `account` holding `amount` tokens, all else unchanged.
pub open spec fn with_balance(account: Account, amount: int) -> Account {
    Account { amount: amount as u64, ..account }
}

/// `x` cut off at `u64::MAX`.
pub open spec fn saturating_u64(x: int) -> u64 {
    if x > u64::MAX {
        u64::MAX
    } else {
        x as u64
    }
}

/// Amount of destination tokens for `source_amount` source tokens: the
/// amount scaled by the ratio of the two supplies, rounded down and capped at
/// `u64::MAX`. Both mints must be compatible.
pub open spec fn exchange_rate(source_mint: Mint, destination_mint: Mint, source_amount: u64) -> Result<
    u64,
    ErrorCode,
> {
    if mint_compatibility(source_mint) != SharedLiquidityCompatibility::Compatible
        || mint_compatibility(destination_mint) != SharedLiquidityCompatibility::Compatible {
        Err(ErrorCode::InvalidAccountData)
    } else {
        Ok(saturating_u64(source_amount * destination_mint.supply / (source_mint.supply as int)))
    }
}

/// Result and accounts after an exchange of `amount` source tokens.
pub open spec fn exchange_effect(
    source: Account,
    destination: Account,
    source_mint: Mint,
    destination_mint: Mint,
    amount: u64,
) -> (Result<(), ErrorCode>, Account, Account) {
    if account_compatibility(source) != SharedLiquidityCompatibility::Compatible
        || account_compatibility(destination) != SharedLiquidityCompatibility::Compatible {
        (Err(ErrorCode::InvalidAccountData), source, destination)
    } else if source.amount < amount {
        (Err(ErrorCode::InsufficientFunds), source, destination)
    } else {
        match exchange_rate(source_mint, destination_mint, amount) {
            Err(e) => (Err(e), source, destination),
            Ok(d) => if destination.amount + d > u64::MAX {
                (
                    Err(ErrorCode::ArithmeticOverflow),
                    with_balance(source, source.amount - amount),
                    destination,
                )
            } else {
                (
                    Ok(()),
                    with_balance(source, source.amount - amount),
                    with_balance(destination, destination.amount + d),
                )
            },
        }
    }
}

/// Result of the cross-chain check of a mint over a channel: the mint's
/// compatibility error, else `InvalidAccountData` for an inactive channel.
pub open spec fn cross_chain_check(mint: Mint, channel_active: bool) -> Result<(), ErrorCode> {
    match compatibility_error(mint_compatibility(mint)) {
        Some(e) => Err(e),
        None => if !channel_active {
            Err(ErrorCode::InvalidAccountData)
        } else {
            Ok(())
        },
    }
}

/// Result and accounts after moving `amount` tokens out of `from` (locked or
/// burnt) and into `to` (minted or unlocked), under a configuration that must
/// be active.
pub open spec fn transfer_effect(from: Account, to: Account, amount: u64, active: bool) -> (
    Result<(), ErrorCode>,
    Account,
    Account,
) {
    if !active {
        (Err(ErrorCode::InvalidAccountData), from, to)
    } else if from.amount < amount {
        (Err(ErrorCode::InsufficientFunds), from, to)
    } else if to.amount + amount > u64::MAX {
        (Err(ErrorCode::ArithmeticOverflow), with_balance(from, from.amount - amount), to)
    } else {
        (
            Ok(()),
            with_balance(from, from.amount - amount),
            with_balance(to, to.amount + amount),
        )
    }
}

/// `pool` holding `balance_a` and `balance_b`, all else unchanged.
pub open spec fn with_pool_balances(pool: LiquidityPool, balance_a: int, balance_b: int) -> LiquidityPool {
    LiquidityPool { token_a_balance: balance_a as u64, token_b_balance: balance_b as u64, ..pool }
}

/// The two accounts hold the pool's token A and token B.
pub open spec fn accounts_match_pool(pool: LiquidityPool, a: Account, b: Account) -> bool {
    a.mint@ == pool.token_a_mint@ && b.mint@ == pool.token_b_mint@
}

/// The price impact `(x * y) / (big_x * big_y)` is above 5%.
pub open spec fn exceeds_impact_limit(x: int, y: int, big_x: int, big_y: int) -> bool {
    20 * (x * y) > big_x * big_y
}

/// Token B amount that matches `amount_a` at the pool's ratio, rounded down
/// and capped at `u64::MAX`; with no token A in the pool it is `u64::MAX`,
/// or 0 where `amount_a * balance_b` is 0.
pub open spec fn expected_token_b(amount_a: u64, balance_a: u64, balance_b: u64) -> int {
    if balance_a == 0 {
        if amount_a * balance_b == 0 {
            0
        } else {
            u64::MAX as int
        }
    } else {
        saturating_u64(amount_a * balance_b / (balance_a as int)) as int
    }
}

/// An addition of liquidity passes every check before the ratio check, on
/// a pool that already holds tokens.
pub open spec fn reaches_ratio_check(
    pool: LiquidityPool,
    a: Account,
    b: Account,
    amount_a: u64,
    amount_b: u64,
) -> bool {
    &&& pool.is_active
    &&& accounts_match_pool(pool, a, b)
    &&& a.amount >= amount_a && b.amount >= amount_b
    &&& !(pool.token_a_balance == 0 && pool.token_b_balance == 0)
}

/// Result, pool and accounts after adding `amount_a` and `amount_b`: the first
/// deposit sets the ratio and must not be empty; later ones must be within 1%
/// of the ratio.
pub open spec fn add_liquidity_effect(
    pool: LiquidityPool,
    a: Account,
    b: Account,
    amount_a: u64,
    amount_b: u64,
) -> (Result<(), ErrorCode>, LiquidityPool, Account, Account) {
    if !pool.is_active || !accounts_match_pool(pool, a, b) {
        (Err(ErrorCode::InvalidAccountData), pool, a, b)
    } else if a.amount < amount_a || b.amount < amount_b {
        (Err(ErrorCode::InsufficientFunds), pool, a, b)
    } else if pool.token_a_balance == 0 && pool.token_b_balance == 0 && amount_a == 0
        && amount_b == 0 {
        (Err(ErrorCode::InvalidArgument), pool, a, b)
    } else if pool.token_a_balance == 0 && pool.token_b_balance == 0 {
        (
            Ok(()),
            with_pool_balances(pool, amount_a as int, amount_b as int),
            with_balance(a, a.amount - amount_a),
            with_balance(b, b.amount - amount_b),
        )
    } else {
        let expected = expected_token_b(amount_a, pool.token_a_balance, pool.token_b_balance);
        if amount_b < expected * 99 / 100 || amount_b > expected * 101 / 100 {
            (Err(ErrorCode::InvalidArgument), pool, a, b)
        } else if pool.token_a_balance + amount_a > u64::MAX {
            (Err(ErrorCode::ArithmeticOverflow), pool, a, b)
        } else if pool.token_b_balance + amount_b > u64::MAX {
            (
                Err(ErrorCode::ArithmeticOverflow),
                with_pool_balances(
                    pool,
                    pool.token_a_balance + amount_a,
                    pool.token_b_balance as int,
                ),
                a,
                b,
            )
        } else {
            (
                Ok(()),
                with_pool_balances(
                    pool,
                    pool.token_a_balance + amount_a,
                    pool.token_b_balance + amount_b,
                ),
                with_balance(a, a.amount - amount_a),
                with_balance(b, b.amount - amount_b),
            )
        }
    }
}

/// Result, pool and accounts after taking `amount_a` and `amount_b` out of
/// the pool; a withdrawal whose price impact is above 5% is refused.
pub open spec fn remove_liquidity_effect(
    pool: LiquidityPool,
    a: Account,
    b: Account,
    amount_a: u64,
    amount_b: u64,
) -> (Result<(), ErrorCode>, LiquidityPool, Account, Account) {
    if !pool.is_active || !accounts_match_pool(pool, a, b) {
        (Err(ErrorCode::InvalidAccountData), pool, a, b)
    } else if pool.token_a_balance < amount_a || pool.token_b_balance < amount_b {
        (Err(ErrorCode::InsufficientFunds), pool, a, b)
    } else if exceeds_impact_limit(
        amount_a as int,
        amount_b as int,
        pool.token_a_balance as int,
        pool.token_b_balance as int,
    ) {
        (Err(ErrorCode::InvalidArgument), pool, a, b)
    } else {
        let drained = with_pool_balances(
            pool,
            pool.token_a_balance - amount_a,
            pool.token_b_balance - amount_b,
        );
        if a.amount + amount_a > u64::MAX {
            (Err(ErrorCode::ArithmeticOverflow), drained, a, b)
        } else if b.amount + amount_b > u64::MAX {
            (Err(ErrorCode::ArithmeticOverflow), drained, with_balance(a, a.amount + amount_a), b)
        } else {
            (
                Ok(()),
                drained,
                with_balance(a, a.amount + amount_a),
                with_balance(b, b.amount + amount_b),
            )
        }
    }
}

/// Balances of the pool on the input and on the output side of a swap.
pub open spec fn swap_sides(pool: LiquidityPool, is_token_a_to_b: bool) -> (u64, u64) {
    if is_token_a_to_b {
        (pool.token_a_balance, pool.token_b_balance)
    } else {
        (pool.token_b_balance, pool.token_a_balance)
    }
}

/// Fee on `input_amount` at `fee_rate` basis points, rounded down (and cut
/// to 64 bits).
pub open spec fn flat_swap_fee(input_amount: u64, fee_rate: u16) -> u64 {
    (input_amount * fee_rate / 10000int) as u64
}

/// Constant-product output of a swap, before the slippage margin.
pub open spec fn flat_swap_output(input_balance: u64, output_balance: u64, input_after_fee: int) -> int {
    output_balance * input_after_fee / (input_balance + input_after_fee)
}

/// Quoted output of a swap of `input_amount`: the constant-product output
/// after the fee, less a 0.1% slippage margin; a swap whose price impact is
/// above 5% is refused.
pub open spec fn swap_quote(pool: LiquidityPool, input_amount: u64, is_token_a_to_b: bool) -> Result<
    u64,
    ErrorCode,
> {
    let (input_balance, output_balance) = swap_sides(pool, is_token_a_to_b);
    let fee = flat_swap_fee(input_amount, pool.fee_rate);
    if !pool.is_active {
        Err(ErrorCode::InvalidAccountData)
    } else if input_balance == 0 || output_balance == 0 {
        Err(ErrorCode::InsufficientFunds)
    } else if input_amount < fee {
        Err(ErrorCode::ArithmeticOverflow)
    } else {
        let after_fee = input_amount - fee;
        let output = flat_swap_output(input_balance, output_balance, after_fee);
        if exceeds_impact_limit(after_fee, output, input_balance as int, output_balance as int) {
            Err(ErrorCode::InvalidArgument)
        } else {
            Ok((output * 999 / 1000) as u64)
        }
    }
}

/// The input and output accounts hold the tokens of the swap's two sides.
pub open spec fn swap_accounts_match(
    pool: LiquidityPool,
    input: Account,
    output: Account,
    is_token_a_to_b: bool,
) -> bool {
    if is_token_a_to_b {
        input.mint@ == pool.token_a_mint@ && output.mint@ == pool.token_b_mint@
    } else {
        input.mint@ == pool.token_b_mint@ && output.mint@ == pool.token_a_mint@
    }
}

/// `pool` after a swap that takes in `input_amount` and gives out `output_amount`.
pub open spec fn swapped_pool(
    pool: LiquidityPool,
    input_amount: u64,
    output_amount: u64,
    is_token_a_to_b: bool,
) -> LiquidityPool {
    if is_token_a_to_b {
        with_pool_balances(
            pool,
            pool.token_a_balance + input_amount,
            pool.token_b_balance - output_amount,
        )
    } else {
        with_pool_balances(
            pool,
            pool.token_a_balance - output_amount,
            pool.token_b_balance + input_amount,
        )
    }
}

/// Result, pool and accounts after a swap of `input_amount` at the quoted
/// output.
pub open spec fn swap_effect(
    pool: LiquidityPool,
    input: Account,
    output: Account,
    input_amount: u64,
    is_token_a_to_b: bool,
) -> (Result<u64, ErrorCode>, LiquidityPool, Account, Account) {
    let (input_balance, output_balance) = swap_sides(pool, is_token_a_to_b);
    match swap_quote(pool, input_amount, is_token_a_to_b) {
        Err(e) => (Err(e), pool, input, output),
        Ok(out) => if !swap_accounts_match(pool, input, output, is_token_a_to_b) {
            (Err(ErrorCode::InvalidAccountData), pool, input, output)
        } else if input.amount < input_amount {
            (Err(ErrorCode::InsufficientFunds), pool, input, output)
        } else if input_balance + input_amount > u64::MAX {
            (Err(ErrorCode::ArithmeticOverflow), pool, input, output)
        } else {
            let swapped = swapped_pool(pool, input_amount, out, is_token_a_to_b);
            let debited = with_balance(input, input.amount - input_amount);
            if output.amount + out > u64::MAX {
                (Err(ErrorCode::ArithmeticOverflow), swapped, debited, output)
            } else {
                (Ok(out), swapped, debited, with_balance(output, output.amount + out))
            }
        },
    }
}

/// `20 * p > q` exactly when `p` is above the quotient of `q` by 20.
proof fn lemma_twentieth(p: int, q: int)
    requires
        0 <= p,
        0 <= q,
    ensures
        (20 * p > q) == (p > q / 20),
{
    vstd::arithmetic::div_mod::lemma_fundamental_div_mod(q, 20);
}

/// Whether the price impact `(x * y) / (big_x * big_y)` is above 5%, computed
/// exactly on integers.
fn impact_exceeds_limit(x: u64, y: u64, big_x: u64, big_y: u64) -> (r: bool)
    ensures
        r == exceeds_impact_limit(x as int, y as int, big_x as int, big_y as int),
{
    proof {
        lemma_u64_product_fits(x, y);
        lemma_u64_product_fits(big_x, big_y);
        lemma_twentieth(x * y, big_x * big_y);
    }
    let p: u128 = (x as u128) * (y as u128);
    let q: u128 = (big_x as u128) * (big_y as u128);
    p > q / 20
}

/// Unwrapping the tokens that a successful wrap has just moved, under the same
/// configuration, gives both accounts back as they were.
pub proof fn law_unwrap_undoes_wrap(source: Account, destination: Account, amount: u64, active: bool)
    requires
        transfer_effect(source, destination, amount, active).0 is Ok,
    ensures
        ({
            let wrapped = transfer_effect(source, destination, amount, active);
            transfer_effect(wrapped.2, wrapped.1, amount, active) == (
                Ok::<(), ErrorCode>(()),
                destination,
                source,
            )
        }),
{
    let wrapped = transfer_effect(source, destination, amount, active);
    assert(with_balance(wrapped.2, wrapped.2.amount - amount) == destination);
    assert(with_balance(wrapped.1, wrapped.1.amount + amount) == source);
}

/// A wrap or an unwrap moves tokens and creates none: the two balances add
/// up to the same total before and after, whatever the outcome short of an
/// overflow of the receiving account.
pub proof fn law_transfer_conserves_tokens(from: Account, to: Account, amount: u64, active: bool)
    requires
        !(transfer_effect(from, to, amount, active).0 matches Err(e) && e
            == ErrorCode::ArithmeticOverflow),
    ensures
        ({
            let moved = transfer_effect(from, to, amount, active);
            moved.1.amount + moved.2.amount == from.amount + to.amount
        }),
{
}

/// A successful swap never drains the output side beyond its balance and
/// never lowers the product of the two balances (the constant-product
/// invariant, which the fee and the slippage margin can only raise).
pub proof fn law_swap_keeps_product(
    pool: LiquidityPool,
    input: Account,
    output: Account,
    input_amount: u64,
    is_token_a_to_b: bool,
)
    requires
        swap_effect(pool, input, output, input_amount, is_token_a_to_b).0 is Ok,
    ensures
        ({
            let swapped = swap_effect(pool, input, output, input_amount, is_token_a_to_b);
            &&& swapped.0.unwrap() <= swap_sides(pool, is_token_a_to_b).1
            &&& swapped.1.token_a_balance * swapped.1.token_b_balance >= pool.token_a_balance
                * pool.token_b_balance
        }),
{
    let (i, o) = swap_sides(pool, is_token_a_to_b);
    let fee = flat_swap_fee(input_amount, pool.fee_rate);
    let after = input_amount - fee;
    let y = flat_swap_output(i, o, after);
    lemma_scale_down(o as int, after, i + after);
    lemma_scale_down(y, 999, 1000);
    let out = swap_quote(pool, input_amount, is_token_a_to_b).unwrap();
    assert(out == y * 999 / 1000);
    lemma_product_after_swap(i as int, o as int, input_amount as int, after, out as int);
    let swapped = swap_effect(pool, input, output, input_amount, is_token_a_to_b);
    assert(swapped.0 == Ok::<u64, ErrorCode>(out));
    assert(i + input_amount <= u64::MAX);
    if is_token_a_to_b {
        assert(swapped.1.token_a_balance == i + input_amount);
        assert(swapped.1.token_b_balance == o - out);
    } else {
        assert(swapped.1.token_b_balance == i + input_amount);
        assert(swapped.1.token_a_balance == o - out);
        assert((o - out) * (i + input_amount) == (i + input_amount) * (o - out)) by (
        nonlinear_arith);
        assert(o * i == i * o) by (nonlinear_arith);
    }
    assert(swapped.1.token_a_balance * swapped.1.token_b_balance >= pool.token_a_balance
        * pool.token_b_balance);
}

/// Removing the fee never turns a larger input into a smaller one, for fee
/// rates of at most 100%.
proof fn lemma_after_fee_monotone(a1: u64, a2: u64, f: u16)
    requires
        a1 <= a2,
        f <= 10000,
    ensures
        flat_swap_fee(a1, f) <= a1,
        flat_swap_fee(a2, f) <= a2,
        a1 - flat_swap_fee(a1, f) <= a2 - flat_swap_fee(a2, f),
{
    let q1 = a1 * f / 10000int;
    let q2 = a2 * f / 10000int;
    assert(0 <= q1 <= a1 && q1 * 10000 <= a1 * f < (q1 + 1) * 10000) by (nonlinear_arith)
        requires
            q1 == a1 * f / 10000int,
            f <= 10000,
            0 <= a1,
            0 <= f,
    ;
    assert(0 <= q2 <= a2 && q2 * 10000 <= a2 * f < (q2 + 1) * 10000) by (nonlinear_arith)
        requires
            q2 == a2 * f / 10000int,
            f <= 10000,
            0 <= a2,
            0 <= f,
    ;
    assert(q2 - q1 <= a2 - a1) by (nonlinear_arith)
        requires
            q2 * 10000 <= a2 * f,
            a1 * f < (q1 + 1) * 10000,
            a1 <= a2,
            f <= 10000,
    ;
}

/// The constant-product output grows with what goes in.
proof fn lemma_output_monotone(big_x: int, big_y: int, t1: int, t2: int)
    requires
        0 < big_x,
        0 <= big_y,
        0 <= t1 <= t2,
    ensures
        big_y * t1 / (big_x + t1) <= big_y * t2 / (big_x + t2),
{
    let d1 = big_x + t1;
    let d2 = big_x + t2;
    let q1 = big_y * t1 / d1;
    let q2 = big_y * t2 / d2;
    assert(q1 * d1 <= big_y * t1) by (nonlinear_arith)
        requires
            q1 == big_y * t1 / d1,
            d1 > 0,
    ;
    assert(big_y * t2 < (q2 + 1) * d2) by (nonlinear_arith)
        requires
            q2 == big_y * t2 / d2,
            d2 > 0,
    ;
    assert(big_y * t1 * d2 <= big_y * t2 * d1) by (nonlinear_arith)
        requires
            d1 == big_x + t1,
            d2 == big_x + t2,
            0 <= big_y,
            0 <= t1 <= t2,
            0 < big_x,
    ;
    assert(q1 <= q2) by (nonlinear_arith)
        requires
            q1 * d1 <= big_y * t1,
            big_y * t2 < (q2 + 1) * d2,
            big_y * t1 * d2 <= big_y * t2 * d1,
            d1 > 0,
            d2 > 0,
    ;
}

/// Of two quotes on one pool and direction that both succeed, the larger
/// input is quoted at least as much, for fee rates of at most 100%.
pub proof fn law_quote_grows_with_input(
    pool: LiquidityPool,
    amount_1: u64,
    amount_2: u64,
    is_token_a_to_b: bool,
)
    requires
        pool.fee_rate <= 10000,
        amount_1 <= amount_2,
        swap_quote(pool, amount_1, is_token_a_to_b) is Ok,
        swap_quote(pool, amount_2, is_token_a_to_b) is Ok,
    ensures
        swap_quote(pool, amount_1, is_token_a_to_b).unwrap() <= swap_quote(
            pool,
            amount_2,
            is_token_a_to_b,
        ).unwrap(),
{
    let (i, o) = swap_sides(pool, is_token_a_to_b);
    lemma_after_fee_monotone(amount_1, amount_2, pool.fee_rate);
    let t1 = amount_1 - flat_swap_fee(amount_1, pool.fee_rate);
    let t2 = amount_2 - flat_swap_fee(amount_2, pool.fee_rate);
    lemma_output_monotone(i as int, o as int, t1, t2);
    let y1 = flat_swap_output(i, o, t1);
    let y2 = flat_swap_output(i, o, t2);
    lemma_scale_down(o as int, t1, i + t1);
    lemma_scale_down(o as int, t2, i + t2);
    lemma_scale_down(y1, 999, 1000);
    lemma_scale_down(y2, 999, 1000);
    assert(y1 * 999 / 1000 <= y2 * 999 / 1000) by (nonlinear_arith)
        requires
            0 <= y1 <= y2,
    ;
}

/// Enhanced shared liquidity compatibility checks and token exchange functionality
pub struct SharedLiquidityChecker;

impl SharedLiquidityChecker {
    /// Check if a mint is compatible with shared liquidity
    pub fn check_mint_compatibility(mint: &Mint) -> (r: SharedLiquidityCompatibility)
        ensures
            r == mint_compatibility(*mint),
    {
        CompatibilityChecker::check_mint_compatibility(mint)
    }

    /// Check if an account is compatible with shared liquidity
    pub fn check_account_compatibility(account: &Account) -> (r: SharedLiquidityCompatibility)
        ensures
            r == account_compatibility(*account),
    {
        CompatibilityChecker::check_account_compatibility(account)
    }

    /// Comprehensive check for shared liquidity compatibility
    pub fn check_compatibility(mint: &Mint, accounts: &[Account]) -> (r:
        SharedLiquidityCompatibility)
        ensures
            r == compatibility(*mint, accounts@),
    {
        CompatibilityChecker::check_compatibility(mint, accounts)
    }

    /// Calculate exchange rate between two compatible tokens: the amount of
    /// destination tokens for a given amount of source tokens, by the ratio
    /// of the supplies. The quotient is taken exactly on integers.
    pub fn calculate_exchange_rate(
        source_mint: &Mint,
        destination_mint: &Mint,
        source_amount: u64,
    ) -> (r: Result<u64, ErrorCode>)
        ensures
            r == exchange_rate(*source_mint, *destination_mint, source_amount),
    {
        if Self::check_mint_compatibility(source_mint) != SharedLiquidityCompatibility::Compatible
            || Self::check_mint_compatibility(destination_mint)
            != SharedLiquidityCompatibility::Compatible {
            return Err(ErrorCode::InvalidAccountData);
        }
        proof {
            lemma_u64_product_fits(source_amount, destination_mint.supply);
        }
        let scaled: u128 = (source_amount as u128) * (destination_mint.supply as u128);
        let destination_amount: u128 = scaled / (source_mint.supply as u128);
        if destination_amount > u64::MAX as u128 {
            Ok(u64::MAX)
        } else {
            Ok(destination_amount as u64)
        }
    }

    /// Exchange tokens between two compatible token accounts
    pub fn exchange_tokens(
        source_account: &mut Account,
        destination_account: &mut Account,
        source_mint: &Mint,
        destination_mint: &Mint,
        amount: u64,
    ) -> (r: Result<(), ErrorCode>)
        ensures
            (r, *final(source_account), *final(destination_account)) == exchange_effect(
                *old(source_account),
                *old(destination_account),
                *source_mint,
                *destination_mint,
                amount,
            ),
    {
        if Self::check_account_compatibility(source_account)
            != SharedLiquidityCompatibility::Compatible || Self::check_account_compatibility(
            destination_account,
        ) != SharedLiquidityCompatibility::Compatible {
            return Err(ErrorCode::InvalidAccountData);
        }
        if source_account.amount < amount {
            return Err(ErrorCode::InsufficientFunds);
        }
        let destination_amount = match Self::calculate_exchange_rate(
            source_mint,
            destination_mint,
            amount,
        ) {
            Ok(d) => d,
            Err(e) => return Err(e),
        };
        source_account.amount = source_account.amount - amount;
        match destination_account.amount.checked_add(destination_amount) {
            Some(v) => destination_account.amount = v,
            None => return Err(ErrorCode::ArithmeticOverflow),
        }
        Ok(())
    }

    /// Register a new IBC channel for cross-chain token transfers
    pub fn register_ibc_channel(
        source_chain: String,
        destination_chain: String,
        channel_id: String,
        port_id: String,
    ) -> (r: IbcChannel)
        ensures
            r.source_chain@ == source_chain@,
            r.destination_chain@ == destination_chain@,
            r.channel_id@ == channel_id@,
            r.port_id@ == port_id@,
            r.is_active,
    {
        IbcChannel { source_chain, destination_chain, channel_id, port_id, is_active: true }
    }

    /// Verify if a token is compatible for cross-chain transfer
    pub fn verify_cross_chain_compatibility(mint: &Mint, ibc_channel: &IbcChannel) -> (r: Result<
        (),
        ErrorCode,
    >)
        ensures
            r == cross_chain_check(*mint, ibc_channel.is_active),
    {
        if !mint.is_initialized {
            return Err(ErrorCode::UninitializedAccount);
        }
        if mint.mint_authority.is_some() {
            return Err(ErrorCode::InvalidAccountData);
        }
        if mint.decimals > MAX_SHARED_LIQUIDITY_DECIMALS {
            return Err(ErrorCode::InvalidArgument);
        }
        if mint.supply < MIN_SHARED_LIQUIDITY_SUPPLY || mint.supply > MAX_SHARED_LIQUIDITY_SUPPLY {
            return Err(ErrorCode::InvalidArgument);
        }
        if !ibc_channel.is_active {
            return Err(ErrorCode::InvalidAccountData);
        }
        Ok(())
    }

    /// Prepare token for cross-chain transfer: lock `amount` tokens of the
    /// source account.
    pub fn prepare_cross_chain_transfer(
        source_account: &mut Account,
        amount: u64,
        ibc_channel: &IbcChannel,
    ) -> (r: Result<(), ErrorCode>)
        ensures
            r matches Err(e) <==> old(source_account).amount < amount,
            r matches Err(e) ==> e == ErrorCode::InsufficientFunds && *final(source_account)
                == *old(source_account),
            r is Ok ==> *final(source_account) == with_balance(
                *old(source_account),
                old(source_account).amount - amount,
            ),
    {
        if source_account.amount < amount {
            return Err(ErrorCode::InsufficientFunds);
        }
        source_account.amount = source_account.amount - amount;
        Ok(())
    }

    /// Complete cross-chain token transfer: credit `amount` tokens to the
    /// destination account over an active channel.
    pub fn complete_cross_chain_transfer(
        destination_account: &mut Account,
        amount: u64,
        ibc_channel: &IbcChannel,
    ) -> (r: Result<(), ErrorCode>)
        ensures
            !ibc_channel.is_active ==> r == Err::<(), ErrorCode>(ErrorCode::InvalidAccountData),
            ibc_channel.is_active && old(destination_account).amount + amount > u64::MAX ==> r
                == Err::<(), ErrorCode>(ErrorCode::ArithmeticOverflow),
            r is Err ==> *final(destination_account) == *old(destination_account),
            ibc_channel.is_active && old(destination_account).amount + amount <= u64::MAX ==> r
                is Ok && *final(destination_account) == with_balance(
                *old(destination_account),
                old(destination_account).amount + amount,
            ),
    {
        if !ibc_channel.is_active {
            return Err(ErrorCode::InvalidAccountData);
        }
        match destination_account.amount.checked_add(amount) {
            Some(v) => destination_account.amount = v,
            None => return Err(ErrorCode::ArithmeticOverflow),
        }
        Ok(())
    }

    /// Create a wrapped token configuration
    pub fn create_wrapped_token_config(
        original_chain: String,
        original_address: String,
        decimals: u8,
    ) -> (r: WrappedTokenConfig)
        ensures
            r.original_chain@ == original_chain@,
            r.original_address@ == original_address@,
            r.decimals == decimals,
            r.is_active,
    {
        WrappedTokenConfig { original_chain, original_address, decimals, is_active: true }
    }

    /// Wrap tokens for cross-chain transfer: lock original tokens and mint
    /// wrapped ones.
    pub fn wrap_tokens(
        source_account: &mut Account,
        destination_account: &mut Account,
        amount: u64,
        wrapped_config: &WrappedTokenConfig,
    ) -> (r: Result<(), ErrorCode>)
        ensures
            (r, *final(source_account), *final(destination_account)) == transfer_effect(
                *old(source_account),
                *old(destination_account),
                amount,
                wrapped_config.is_active,
            ),
    {
        Self::move_tokens(source_account, destination_account, amount, wrapped_config)
    }

    /// Unwrap tokens after cross-chain transfer: burn wrapped tokens and
    /// unlock the original ones.
    pub fn unwrap_tokens(
        wrapped_account: &mut Account,
        original_account: &mut Account,
        amount: u64,
        wrapped_config: &WrappedTokenConfig,
    ) -> (r: Result<(), ErrorCode>)
        ensures
            (r, *final(wrapped_account), *final(original_account)) == transfer_effect(
                *old(wrapped_account),
                *old(original_account),
                amount,
                wrapped_config.is_active,
            ),
    {
        Self::move_tokens(wrapped_account, original_account, amount, wrapped_config)
    }

    fn move_tokens(
        from: &mut Account,
        to: &mut Account,
        amount: u64,
        wrapped_config: &WrappedTokenConfig,
    ) -> (r: Result<(), ErrorCode>)
        ensures
            (r, *final(from), *final(to)) == transfer_effect(
                *old(from),
                *old(to),
                amount,
                wrapped_config.is_active,
            ),
    {
        if !wrapped_config.is_active {
            return Err(ErrorCode::InvalidAccountData);
        }
        if from.amount < amount {
            return Err(ErrorCode::InsufficientFunds);
        }
        from.amount = from.amount - amount;
        match to.amount.checked_add(amount) {
            Some(v) => to.amount = v,
            None => return Err(ErrorCode::ArithmeticOverflow),
        }
        Ok(())
    }

    /// Create a new liquidity pool for two different tokens, with a fee of at
    /// most 1%.
    pub fn create_liquidity_pool(token_a_mint: Pubkey, token_b_mint: Pubkey, fee_rate: u16) -> (r:
        Result<LiquidityPool, ErrorCode>)
        ensures
            r is Err <==> fee_rate > 100 || token_a_mint@ == token_b_mint@,
            r matches Err(e) ==> e == ErrorCode::InvalidArgument,
            r matches Ok(pool) ==> pool == (LiquidityPool {
                token_a_mint,
                token_b_mint,
                token_a_balance: 0,
                token_b_balance: 0,
                fee_rate,
                is_active: true,
            }),
    {
        if fee_rate > 100 {
            return Err(ErrorCode::InvalidArgument);
        }
        if token_a_mint.same_as(&token_b_mint) {
            return Err(ErrorCode::InvalidArgument);
        }
        Ok(
            LiquidityPool {
                token_a_mint,
                token_b_mint,
                token_a_balance: 0,
                token_b_balance: 0,
                fee_rate,
                is_active: true,
            },
        )
    }

    /// Add liquidity to the pool. The first deposit sets the price ratio and
    /// must not be empty (both amounts zero); later ones must match the ratio
    /// within 1%.
    pub fn add_liquidity(
        pool: &mut LiquidityPool,
        token_a_account: &mut Account,
        token_b_account: &mut Account,
        token_a_amount: u64,
        token_b_amount: u64,
    ) -> (r: Result<(), ErrorCode>)
        requires
            reaches_ratio_check(
                *old(pool),
                *old(token_a_account),
                *old(token_b_account),
                token_a_amount,
                token_b_amount,
            ) ==> expected_token_b(
                token_a_amount,
                old(pool).token_a_balance,
                old(pool).token_b_balance,
            ) * 101 <= u64::MAX,
        ensures
            (r, *final(pool), *final(token_a_account), *final(token_b_account))
                == add_liquidity_effect(
                *old(pool),
                *old(token_a_account),
                *old(token_b_account),
                token_a_amount,
                token_b_amount,
            ),
    {
        if !pool.is_active {
            return Err(ErrorCode::InvalidAccountData);
        }
        if !token_a_account.mint.same_as(&pool.token_a_mint) || !token_b_account.mint.same_as(
            &pool.token_b_mint,
        ) {
            return Err(ErrorCode::InvalidAccountData);
        }
        if token_a_account.amount < token_a_amount || token_b_account.amount < token_b_amount {
            return Err(ErrorCode::InsufficientFunds);
        }
        if pool.token_a_balance == 0 && pool.token_b_balance == 0 {
            if token_a_amount == 0 && token_b_amount == 0 {
                return Err(ErrorCode::InvalidArgument);
            }
            pool.token_a_balance = token_a_amount;
            pool.token_b_balance = token_b_amount;
        } else {
            let expected_token_b = Self::expected_token_b(
                token_a_amount,
                pool.token_a_balance,
                pool.token_b_balance,
            );
            let min_token_b = (expected_token_b * 99) / 100;
            let max_token_b = (expected_token_b * 101) / 100;
            if token_b_amount < min_token_b || token_b_amount > max_token_b {
                return Err(ErrorCode::InvalidArgument);
            }
            match pool.token_a_balance.checked_add(token_a_amount) {
                Some(v) => pool.token_a_balance = v,
                None => return Err(ErrorCode::ArithmeticOverflow),
            }
            match pool.token_b_balance.checked_add(token_b_amount) {
                Some(v) => pool.token_b_balance = v,
                None => return Err(ErrorCode::ArithmeticOverflow),
            }
        }
        token_a_account.amount = token_a_account.amount - token_a_amount;
        token_b_account.amount = token_b_account.amount - token_b_amount;
        Ok(())
    }

    fn expected_token_b(amount_a: u64, balance_a: u64, balance_b: u64) -> (r: u64)
        ensures
            r == expected_token_b(amount_a, balance_a, balance_b),
    {
        proof {
            lemma_u64_product_fits(amount_a, balance_b);
        }
        let scaled: u128 = (amount_a as u128) * (balance_b as u128);
        if balance_a == 0 {
            if scaled == 0 {
                0
            } else {
                u64::MAX
            }
        } else {
            let q: u128 = scaled / (balance_a as u128);
            if q > u64::MAX as u128 {
                u64::MAX
            } else {
                q as u64
            }
        }
    }

    /// Remove liquidity from the pool; a withdrawal whose price impact is
    /// above 5% is refused. The impact is compared exactly on integers.
    pub fn remove_liquidity(
        pool: &mut LiquidityPool,
        token_a_account: &mut Account,
        token_b_account: &mut Account,
        token_a_amount: u64,
        token_b_amount: u64,
    ) -> (r: Result<(), ErrorCode>)
        ensures
            (r, *final(pool), *final(token_a_account), *final(token_b_account))
                == remove_liquidity_effect(
                *old(pool),
                *old(token_a_account),
                *old(token_b_account),
                token_a_amount,
                token_b_amount,
            ),
    {
        if !pool.is_active {
            return Err(ErrorCode::InvalidAccountData);
        }
        if !token_a_account.mint.same_as(&pool.token_a_mint) || !token_b_account.mint.same_as(
            &pool.token_b_mint,
        ) {
            return Err(ErrorCode::InvalidAccountData);
        }
        if pool.token_a_balance < token_a_amount || pool.token_b_balance < token_b_amount {
            return Err(ErrorCode::InsufficientFunds);
        }
        if impact_exceeds_limit(
            token_a_amount,
            token_b_amount,
            pool.token_a_balance,
            pool.token_b_balance,
        ) {
            return Err(ErrorCode::InvalidArgument);
        }
        pool.token_a_balance = pool.token_a_balance - token_a_amount;
        pool.token_b_balance = pool.token_b_balance - token_b_amount;
        match token_a_account.amount.checked_add(token_a_amount) {
            Some(v) => token_a_account.amount = v,
            None => return Err(ErrorCode::ArithmeticOverflow),
        }
        match token_b_account.amount.checked_add(token_b_amount) {
            Some(v) => token_b_account.amount = v,
            None => return Err(ErrorCode::ArithmeticOverflow),
        }
        Ok(())
    }

    /// Calculate swap amount using constant product formula (x * y = k),
    /// after the fee and less a 0.1% slippage margin. A swap whose price
    /// impact is above 5% is refused; the impact is compared exactly on
    /// integers.
    pub fn calculate_swap_amount(pool: &LiquidityPool, input_amount: u64, is_token_a_to_b: bool) -> (r:
        Result<u64, ErrorCode>)
        ensures
            r == swap_quote(*pool, input_amount, is_token_a_to_b),
            r matches Ok(out) ==> out <= swap_sides(*pool, is_token_a_to_b).1,
    {
        if !pool.is_active {
            return Err(ErrorCode::InvalidAccountData);
        }
        let (input_balance, output_balance) = if is_token_a_to_b {
            (pool.token_a_balance, pool.token_b_balance)
        } else {
            (pool.token_b_balance, pool.token_a_balance)
        };
        if input_balance == 0 || output_balance == 0 {
            return Err(ErrorCode::InsufficientFunds);
        }
        proof {
            lemma_u64_product_fits(input_amount, pool.fee_rate as u64);
        }
        let fee_amount = ((input_amount as u128) * (pool.fee_rate as u128) / 10000) as u64;
        let input_amount_after_fee = match input_amount.checked_sub(fee_amount) {
            Some(v) => v,
            None => return Err(ErrorCode::ArithmeticOverflow),
        };
        proof {
            lemma_u64_product_fits(output_balance, input_amount_after_fee);
            lemma_scale_down(
                output_balance as int,
                input_amount_after_fee as int,
                input_balance + input_amount_after_fee,
            );
        }
        let output_amount = ((output_balance as u128) * (input_amount_after_fee as u128) / (
        (input_balance as u128) + (input_amount_after_fee as u128))) as u64;
        if impact_exceeds_limit(input_amount_after_fee, output_amount, input_balance, output_balance) {
            return Err(ErrorCode::InvalidArgument);
        }
        proof {
            lemma_scale_down(output_amount as int, 999, 1000);
        }
        let min_output = ((output_amount as u128) * 999 / 1000) as u64;
        Ok(min_output)
    }

    /// Execute a token swap in the pool at the quoted output
    pub fn execute_swap(
        pool: &mut LiquidityPool,
        input_account: &mut Account,
        output_account: &mut Account,
        input_amount: u64,
        is_token_a_to_b: bool,
    ) -> (r: Result<u64, ErrorCode>)
        ensures
            (r, *final(pool), *final(input_account), *final(output_account)) == swap_effect(
                *old(pool),
                *old(input_account),
                *old(output_account),
                input_amount,
                is_token_a_to_b,
            ),
    {
        let output_amount = match Self::calculate_swap_amount(pool, input_amount, is_token_a_to_b) {
            Ok(v) => v,
            Err(e) => return Err(e),
        };
        if is_token_a_to_b {
            if !input_account.mint.same_as(&pool.token_a_mint) || !output_account.mint.same_as(
                &pool.token_b_mint,
            ) {
                return Err(ErrorCode::InvalidAccountData);
            }
        } else {
            if !input_account.mint.same_as(&pool.token_b_mint) || !output_account.mint.same_as(
                &pool.token_a_mint,
            ) {
                return Err(ErrorCode::InvalidAccountData);
            }
        }
        if input_account.amount < input_amount {
            return Err(ErrorCode::InsufficientFunds);
        }
        if is_token_a_to_b {
            match pool.token_a_balance.checked_add(input_amount) {
                Some(v) => pool.token_a_balance = v,
                None => return Err(ErrorCode::ArithmeticOverflow),
            }
            pool.token_b_balance = pool.token_b_balance - output_amount;
        } else {
            match pool.token_b_balance.checked_add(input_amount) {
                Some(v) => pool.token_b_balance = v,
                None => return Err(ErrorCode::ArithmeticOverflow),
            }
            pool.token_a_balance = pool.token_a_balance - output_amount;
        }
        input_account.amount = input_account.amount - input_amount;
        match output_account.amount.checked_add(output_amount) {
            Some(v) => output_account.amount = v,
            None => return Err(ErrorCode::ArithmeticOverflow),
        }
        Ok(output_amount)
    }
}

} // verus!
