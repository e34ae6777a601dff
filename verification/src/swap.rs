use crate::concentrated::{
    fee_update, lemma_fee_update_id, lemma_position_views_update, position_ids, swap_fee_amount,
    ConcentratedLiquidityManager,
};
use crate::constants::{BASIS_POINTS, PRICE_PRECISION};
use crate::emergency::{paused_status, EmergencyManager};
use crate::error::{cl_err, ConcentratedLiquidityError, ErrorCode, POOL_PAUSED_CODE, SLIPPAGE_CODE};
use crate::math::{lemma_product_after_swap, lemma_scale_down};
use crate::types::{PoolView, PositionView, SharedLiquidityPool};
use vstd::prelude::*;

verus! {

/// Output of a constant-product swap of `amount_in` into a pool holding
/// `reserve_in` and `reserve_out`, after a fee of `fee` basis points on the
/// input: `amount_in_with_fee * reserve_out / (reserve_in + amount_in_with_fee)`,
/// rounded down.
pub open spec fn swap_output(reserve_in: u64, reserve_out: u64, amount_in: u64, fee: u64) -> Result<
    u64,
    ErrorCode,
> {
    let amount_in_with_fee = amount_in * (10000 - fee) / 10000;
    if reserve_in + amount_in_with_fee == 0 {
        Err(ErrorCode::ArithmeticOverflow)
    } else {
        Ok((amount_in_with_fee * reserve_out / (reserve_in + amount_in_with_fee)) as u64)
    }
}

/// What the fee update of a swap does to the positions `ps`, one after the
/// other, stopping at the first failure.
pub open spec fn fees_fold(
    ps: Seq<PositionView>,
    paused: bool,
    fee: u64,
    now: Result<i64, ErrorCode>,
) -> (Seq<PositionView>, Result<(), ErrorCode>)
    decreases ps.len(),
{
    if ps.len() == 0 {
        (ps, Ok(()))
    } else {
        let prev = fees_fold(ps.drop_last(), paused, fee, now);
        match prev.1 {
            Err(e) => (prev.0.push(ps.last()), Err(e)),
            Ok(()) => if paused {
                (prev.0.push(ps.last()), Err(cl_err(ConcentratedLiquidityError::PoolPaused)))
            } else {
                let u = fee_update(ps.last(), fee, now);
                (prev.0.push(u.0), u.1)
            },
        }
    }
}

/// The reserves of `pool` after a swap in direction `is_token_a_to_b` that
/// takes in `input_amount` and gives out `output_amount`.
pub open spec fn swapped_reserves(
    pool: PoolView,
    input_amount: u64,
    output_amount: u64,
    is_token_a_to_b: bool,
) -> PoolView {
    if is_token_a_to_b {
        PoolView {
            reserve_a: (pool.reserve_a + input_amount) as u64,
            reserve_b: (pool.reserve_b - output_amount) as u64,
            ..pool
        }
    } else {
        PoolView {
            reserve_b: (pool.reserve_b + input_amount) as u64,
            reserve_a: (pool.reserve_a - output_amount) as u64,
            ..pool
        }
    }
}

/// Effect of a swap on a pool, and its result: the pool must not be paused
/// at the time `now`; the output must reach `min_output_amount`; the reserves
/// move; then every concentrated position is credited its share of the fee.
pub open spec fn swap_effect(
    pool: PoolView,
    input_amount: u64,
    min_output_amount: u64,
    is_token_a_to_b: bool,
    now: Result<i64, ErrorCode>,
) -> (PoolView, Result<u64, ErrorCode>) {
    let reserve_in = if is_token_a_to_b { pool.reserve_a } else { pool.reserve_b };
    let reserve_out = if is_token_a_to_b { pool.reserve_b } else { pool.reserve_a };
    match paused_status(pool.emergency_pause, now) {
        Err(e) => (pool, Err(e)),
        Ok(true) => (pool, Err(ErrorCode::Custom(POOL_PAUSED_CODE))),
        Ok(false) => match swap_output(reserve_in, reserve_out, input_amount, pool.fee) {
            Err(e) => (pool, Err(e)),
            Ok(output) => if output < min_output_amount {
                (pool, Err(ErrorCode::Custom(SLIPPAGE_CODE)))
            } else if reserve_in + input_amount > u64::MAX {
                (pool, Err(ErrorCode::ArithmeticOverflow))
            } else {
                let swapped = swapped_reserves(pool, input_amount, output, is_token_a_to_b);
                let fees = fees_fold(
                    pool.enhanced_positions,
                    pool.emergency_pause.is_paused,
                    swap_fee_amount(input_amount, pool.fee),
                    now,
                );
                (
                    PoolView { enhanced_positions: fees.0, ..swapped },
                    match fees.1 {
                        Ok(()) => Ok(output),
                        Err(e) => Err(e),
                    },
                )
            },
        },
    }
}

/// Spot price of a pool: reserve A over reserve B at `PRICE_PRECISION`,
/// inverted for the B-to-A direction.
pub open spec fn spot_price(pool: PoolView, is_token_a_to_b: bool) -> Result<u64, ErrorCode> {
    if pool.reserve_b == 0 {
        Err(ErrorCode::InvalidAccountData)
    } else {
        let price = (pool.reserve_a * PRICE_PRECISION / (pool.reserve_b as int)) as u64;
        if is_token_a_to_b {
            Ok(price)
        } else if price == 0 {
            Err(ErrorCode::ArithmeticOverflow)
        } else {
            Ok(PRICE_PRECISION / price)
        }
    }
}

proof fn lemma_fees_fold_step(
    ps: Seq<PositionView>,
    i: int,
    paused: bool,
    fee: u64,
    now: Result<i64, ErrorCode>,
)
    requires
        0 <= i < ps.len(),
    ensures
        ps.take(i + 1).drop_last() == ps.take(i),
        ps.take(i + 1).last() == ps[i],
{
    assert(ps.take(i + 1).drop_last() =~= ps.take(i));
}

proof fn lemma_fees_fold_len(ps: Seq<PositionView>, paused: bool, fee: u64, now: Result<i64, ErrorCode>)
    ensures
        fees_fold(ps, paused, fee, now).0.len() == ps.len(),
    decreases ps.len(),
{
    if ps.len() > 0 {
        lemma_fees_fold_len(ps.drop_last(), paused, fee, now);
    }
}

proof fn lemma_fees_fold_stop(
    ps: Seq<PositionView>,
    m: int,
    paused: bool,
    fee: u64,
    now: Result<i64, ErrorCode>,
)
    requires
        0 <= m <= ps.len(),
        fees_fold(ps.take(m), paused, fee, now).1 is Err,
    ensures
        fees_fold(ps, paused, fee, now).0 == fees_fold(ps.take(m), paused, fee, now).0 + ps.skip(m),
        fees_fold(ps, paused, fee, now).1 == fees_fold(ps.take(m), paused, fee, now).1,
    decreases ps.len(),
{
    if ps.len() == m {
        assert(ps.take(m) =~= ps);
        assert(ps.skip(m) =~= Seq::<PositionView>::empty());
        assert(fees_fold(ps, paused, fee, now).0 + ps.skip(m) =~= fees_fold(ps, paused, fee, now).0);
    } else {
        let d = ps.drop_last();
        assert(d.take(m) =~= ps.take(m));
        lemma_fees_fold_stop(d, m, paused, fee, now);
        assert(fees_fold(ps, paused, fee, now).0 =~= fees_fold(d, paused, fee, now).0.push(ps.last()));
        assert(ps.skip(m) =~= d.skip(m).push(ps.last()));
        assert(fees_fold(ps, paused, fee, now).0 =~= fees_fold(ps.take(m), paused, fee, now).0
            + ps.skip(m));
    }
}

/// A swap that succeeds pays out no more than the output reserve held, and
/// never lowers the product of the two reserves: the constant-product
/// invariant, which the fee can only raise.
pub proof fn law_swap_keeps_reserve_product(
    pool: PoolView,
    input_amount: u64,
    min_output_amount: u64,
    is_token_a_to_b: bool,
    now: Result<i64, ErrorCode>,
)
    requires
        pool.fee <= 10000,
        swap_effect(pool, input_amount, min_output_amount, is_token_a_to_b, now).1 is Ok,
    ensures
        ({
            let (post, r) = swap_effect(
                pool,
                input_amount,
                min_output_amount,
                is_token_a_to_b,
                now,
            );
            &&& r.unwrap() <= if is_token_a_to_b {
                pool.reserve_b
            } else {
                pool.reserve_a
            }
            &&& post.reserve_a * post.reserve_b >= pool.reserve_a * pool.reserve_b
        }),
{
    let ri = if is_token_a_to_b { pool.reserve_a } else { pool.reserve_b };
    let ro = if is_token_a_to_b { pool.reserve_b } else { pool.reserve_a };
    let after = input_amount * (10000 - pool.fee) / 10000;
    lemma_scale_down(input_amount as int, 10000 - pool.fee, 10000);
    assert(ri + after > 0);
    assert(after * ro == ro * after) by (nonlinear_arith);
    lemma_scale_down(ro as int, after, ri + after);
    let out = swap_output(ri, ro, input_amount, pool.fee).unwrap();
    assert(out == ro * after / (ri + after));
    lemma_product_after_swap(ri as int, ro as int, input_amount as int, after, out as int);
    let (post, r) = swap_effect(pool, input_amount, min_output_amount, is_token_a_to_b, now);
    assert(r == Ok::<u64, ErrorCode>(out));
    if is_token_a_to_b {
        assert(post.reserve_a == ri + input_amount);
        assert(post.reserve_b == ro - out);
    } else {
        assert(post.reserve_b == ri + input_amount);
        assert(post.reserve_a == ro - out);
        assert((ro - out) * (ri + input_amount) == (ri + input_amount) * (ro - out)) by (
        nonlinear_arith);
        assert(ro * ri == ri * ro) by (nonlinear_arith);
    }
}

/// The fee update of a swap keeps the ids of the positions.
proof fn lemma_fees_fold_ids(ps: Seq<PositionView>, paused: bool, fee: u64, now: Result<i64, ErrorCode>)
    ensures
        position_ids(fees_fold(ps, paused, fee, now).0) == position_ids(ps),
    decreases ps.len(),
{
    if ps.len() > 0 {
        lemma_fees_fold_ids(ps.drop_last(), paused, fee, now);
        lemma_fee_update_id(ps.last(), fee, now);
        let prev = fees_fold(ps.drop_last(), paused, fee, now).0;
        let last = if paused { ps.last() } else { fee_update(ps.last(), fee, now).0 };
        assert(position_ids(prev.push(last)) =~= position_ids(ps.drop_last()).push(
            ps.last().position_id,
        ));
        assert(position_ids(ps) =~= position_ids(ps.drop_last()).push(ps.last().position_id));
    }
}

/// A swap keeps the ids of the pool's positions as they are.
pub proof fn law_swap_keeps_position_ids(
    pool: PoolView,
    input_amount: u64,
    min_output_amount: u64,
    is_token_a_to_b: bool,
    now: Result<i64, ErrorCode>,
)
    ensures
        position_ids(
            swap_effect(pool, input_amount, min_output_amount, is_token_a_to_b, now).0.enhanced_positions,
        ) == position_ids(pool.enhanced_positions),
{
    lemma_fees_fold_ids(
        pool.enhanced_positions,
        pool.emergency_pause.is_paused,
        swap_fee_amount(input_amount, pool.fee),
        now,
    );
}


pub struct SwapManager;

impl SwapManager {
    /// Calculate swap output amount
    pub fn calculate_swap_output(reserve_in: u64, reserve_out: u64, amount_in: u64, fee: u64) -> (r:
        Result<u64, ErrorCode>)
        requires
            fee <= 10000,
        ensures
            r == swap_output(reserve_in, reserve_out, amount_in, fee),
            r matches Ok(out) ==> out <= reserve_out,
    {
        assert((amount_in as u128) * ((10000 - fee) as u128) <= 0xffff_ffff_ffff_ffffu128 * 10000)
            by (nonlinear_arith)
            requires
                fee <= 10000,
        ;
        let amount_in_with_fee = (amount_in as u128) * (BASIS_POINTS as u128 - fee as u128) / (
        BASIS_POINTS as u128);
        assert(amount_in_with_fee <= amount_in) by (nonlinear_arith)
            requires
                amount_in_with_fee == (amount_in as u128) * ((10000 - fee) as u128) / 10000,
                fee <= 10000,
        ;
        assert(amount_in_with_fee * (reserve_out as u128) <= 0xffff_ffff_ffff_ffffu128
            * 0xffff_ffff_ffff_ffffu128) by (nonlinear_arith)
            requires
                amount_in_with_fee <= 0xffff_ffff_ffff_ffffu128,
        ;
        let numerator = amount_in_with_fee * (reserve_out as u128);
        let denominator = (reserve_in as u128) + amount_in_with_fee;
        if denominator == 0 {
            return Err(ErrorCode::ArithmeticOverflow);
        }
        assert(numerator / denominator <= reserve_out) by (nonlinear_arith)
            requires
                numerator == amount_in_with_fee * (reserve_out as u128),
                denominator == (reserve_in as u128) + amount_in_with_fee,
                denominator > 0,
        ;
        Ok((numerator / denominator) as u64)
    }

    /// Execute a swap of `input_amount` in a single pool; `now` is the
    /// clock's reading. Returns the output amount.
    #[verifier::loop_isolation(false)]
    pub fn execute_swap(
        pool: &mut SharedLiquidityPool,
        input_amount: u64,
        min_output_amount: u64,
        is_token_a_to_b: bool,
        now: Result<i64, ErrorCode>,
    ) -> (r: Result<u64, ErrorCode>)
        requires
            old(pool).fee <= 10000,
        ensures
            (final(pool)@, r) == swap_effect(
                old(pool)@,
                input_amount,
                min_output_amount,
                is_token_a_to_b,
                now,
            ),
    {
        if EmergencyManager::is_paused(pool, now)? {
            return Err(ErrorCode::Custom(POOL_PAUSED_CODE));
        }
        let output_amount = if is_token_a_to_b {
            Self::calculate_swap_output(pool.reserve_a, pool.reserve_b, input_amount, pool.fee)?
        } else {
            Self::calculate_swap_output(pool.reserve_b, pool.reserve_a, input_amount, pool.fee)?
        };
        if output_amount < min_output_amount {
            return Err(ErrorCode::Custom(SLIPPAGE_CODE));
        }
        if is_token_a_to_b {
            pool.reserve_a = match pool.reserve_a.checked_add(input_amount) {
                Some(v) => v,
                None => return Err(ErrorCode::ArithmeticOverflow),
            };
            pool.reserve_b = pool.reserve_b - output_amount;
        } else {
            pool.reserve_b = match pool.reserve_b.checked_add(input_amount) {
                Some(v) => v,
                None => return Err(ErrorCode::ArithmeticOverflow),
            };
            pool.reserve_a = pool.reserve_a - output_amount;
        }
        let ghost swapped = pool@;
        let ghost ps = old(pool)@.enhanced_positions;
        let ghost paused = old(pool).emergency_pause.is_paused;
        let ghost fee = swap_fee_amount(input_amount, old(pool).fee);
        assert(swapped == swapped_reserves(old(pool)@, input_amount, output_amount, is_token_a_to_b));
        let n = pool.enhanced_positions.len();
        let mut i: usize = 0;
        assert(ps.take(0) =~= Seq::<PositionView>::empty());
        assert(ps.take(0) + ps.skip(0) =~= ps);
        while i < n
            invariant
                0 <= i <= n,
                n == ps.len(),
                pool.enhanced_positions.len() == n,
                pool.fee == old(pool).fee,
                pool.emergency_pause == old(pool).emergency_pause,
                paused == old(pool).emergency_pause.is_paused,
                fee == swap_fee_amount(input_amount, old(pool).fee),
                fees_fold(ps.take(i as int), paused, fee, now).1 is Ok,
                pool@ == (PoolView {
                    enhanced_positions: fees_fold(ps.take(i as int), paused, fee, now).0 + ps.skip(
                        i as int,
                    ),
                    ..swapped
                }),
            decreases n - i,
        {
            proof {
                lemma_fees_fold_step(ps, i as int, paused, fee, now);
                lemma_fees_fold_len(ps.take(i as int), paused, fee, now);
            }
            let ghost prev = fees_fold(ps.take(i as int), paused, fee, now).0;
            assert(pool@.enhanced_positions[i as int] == ps[i as int]);
            if pool.emergency_pause.is_paused {
                assert(pool@.enhanced_positions =~= fees_fold(ps.take(i as int + 1), paused, fee, now).0
                    + ps.skip(i as int + 1));
                proof {
                    lemma_fees_fold_stop(ps, i as int + 1, paused, fee, now);
                    assert(fees_fold(ps.take(i as int + 1), paused, fee, now).1 == Err::<(), ErrorCode>(
                        cl_err(ConcentratedLiquidityError::PoolPaused),
                    ));
                    assert(fees_fold(ps, paused, fee, now).0 =~= pool@.enhanced_positions);
                    assert(pool@ =~= PoolView {
                        enhanced_positions: fees_fold(ps, paused, fee, now).0,
                        ..swapped
                    });
                }
                return Err(ConcentratedLiquidityError::PoolPaused.into());
            }
            let res = ConcentratedLiquidityManager::update_fees_at(pool, i, input_amount, now);
            let ghost u = fee_update(ps[i as int], fee, now);
            assert(pool@.enhanced_positions =~= fees_fold(ps.take(i as int + 1), paused, fee, now).0
                + ps.skip(i as int + 1));
            match res {
                Ok(()) => {},
                Err(e) => {
                    proof {
                        lemma_fees_fold_stop(ps, i as int + 1, paused, fee, now);
                    }
                    return Err(e);
                },
            }
            i = i + 1;
        }
        assert(ps.take(n as int) =~= ps);
        assert(pool@.enhanced_positions =~= fees_fold(ps, paused, fee, now).0);
        Ok(output_amount)
    }

    /// Calculate spot price for a pool
    pub fn calculate_spot_price(pool: &SharedLiquidityPool, is_token_a_to_b: bool) -> (r: Result<
        u64,
        ErrorCode,
    >)
        ensures
            r == spot_price(pool@, is_token_a_to_b),
    {
        if pool.reserve_b == 0 {
            return Err(ErrorCode::InvalidAccountData);
        }
        assert((pool.reserve_a as u128) * (PRICE_PRECISION as u128) <= 0xffff_ffff_ffff_ffffu128
            * 1_000_000) by (nonlinear_arith);
        let price = ((pool.reserve_a as u128) * (PRICE_PRECISION as u128) / (
        pool.reserve_b as u128)) as u64;
        if is_token_a_to_b {
            Ok(price)
        } else {
            if price == 0 {
                return Err(ErrorCode::ArithmeticOverflow);
            }
            Ok(PRICE_PRECISION / price)
        }
    }

    /// Calculate price impact for a swap: the distance between the spot price
    /// and the execution price `output_amount / input_amount`
    pub fn calculate_price_impact(
        pool: &SharedLiquidityPool,
        input_amount: u64,
        output_amount: u64,
        is_token_a_to_b: bool,
    ) -> (r: Result<u64, ErrorCode>)
        ensures
            match spot_price(pool@, is_token_a_to_b) {
                Err(e) => r == Err::<u64, ErrorCode>(e),
                Ok(spot) => if input_amount == 0 {
                    r == Err::<u64, ErrorCode>(ErrorCode::ArithmeticOverflow)
                } else {
                    let execution = (output_amount * PRICE_PRECISION / (input_amount as int)) as u64;
                    if is_token_a_to_b {
                        if execution > spot {
                            r == Err::<u64, ErrorCode>(ErrorCode::ArithmeticOverflow)
                        } else {
                            r == Ok::<u64, ErrorCode>((spot - execution) as u64)
                        }
                    } else {
                        if spot > execution {
                            r == Err::<u64, ErrorCode>(ErrorCode::ArithmeticOverflow)
                        } else {
                            r == Ok::<u64, ErrorCode>((execution - spot) as u64)
                        }
                    }
                },
            },
    {
        let spot_price = Self::calculate_spot_price(pool, is_token_a_to_b)?;
        if input_amount == 0 {
            return Err(ErrorCode::ArithmeticOverflow);
        }
        assert((output_amount as u128) * (PRICE_PRECISION as u128) <= 0xffff_ffff_ffff_ffffu128
            * 1_000_000) by (nonlinear_arith);
        let execution_price = ((output_amount as u128) * (PRICE_PRECISION as u128) / (
        input_amount as u128)) as u64;
        if is_token_a_to_b {
            match spot_price.checked_sub(execution_price) {
                Some(v) => Ok(v),
                None => Err(ErrorCode::ArithmeticOverflow),
            }
        } else {
            match execution_price.checked_sub(spot_price) {
                Some(v) => Ok(v),
                None => Err(ErrorCode::ArithmeticOverflow),
            }
        }
    }
}

} // verus!
