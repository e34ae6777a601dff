use crate::constants::{BASIS_POINTS, MAX_HISTORY_LENGTH};
use crate::emergency::i64_sub_overflows;
use crate::error::{or_err, ErrorCode, OracleError};
use crate::types::{PoolView, PriceOracle, SharedLiquidityPool};
use vstd::prelude::*;

verus! {

/// `new_price` moves more than `max_deviation` basis points away from
/// `last_price`.
pub open spec fn deviates(last_price: u64, new_price: u64, max_deviation: u16) -> bool {
    let diff = if new_price > last_price { new_price - last_price } else { last_price - new_price };
    diff * 10000 > max_deviation * last_price
}

/// The oracle's price, read at the time `now`: it must be active and not
/// older than twice its update interval.
pub open spec fn oracle_price(oracle: PriceOracle, now: Result<i64, ErrorCode>) -> Result<u64, ErrorCode> {
    if !oracle.is_active {
        Err(or_err(OracleError::OracleNotActive))
    } else {
        match now {
            Err(e) => Err(e),
            Ok(t) => if i64_sub_overflows(t, oracle.last_update) || oracle.min_update_interval * 2
                > i64::MAX || oracle.min_update_interval * 2 < i64::MIN {
                Err(or_err(OracleError::ArithmeticOverflow))
            } else if t - oracle.last_update > oracle.min_update_interval * 2 {
                Err(or_err(OracleError::PriceStale))
            } else {
                Ok(oracle.last_price)
            },
        }
    }
}

/// Result of `is_price_valid`: whether `price` lies within the oracle's
/// maximum deviation from the oracle price read at `now`.
pub open spec fn price_validity(oracle: PriceOracle, price: u64, now: Result<i64, ErrorCode>) -> Result<
    bool,
    ErrorCode,
> {
    match oracle_price(oracle, now) {
        Err(e) => Err(e),
        Ok(current) => Ok(current > 0 && !deviates(current, price, oracle.max_price_deviation)),
    }
}

/// A price is judged valid exactly when the oracle holds a positive price
/// and `price` is at most `max_price_deviation` basis points of it away, above
/// or below.
pub proof fn law_price_validity_is_distance(oracle: PriceOracle, price: u64, now: Result<i64, ErrorCode>)
    requires
        oracle_price(oracle, now) is Ok,
    ensures
        ({
            let current = oracle.last_price as int;
            let bound = oracle.max_price_deviation * current;
            price_validity(oracle, price, now) == Ok::<bool, ErrorCode>(
                current > 0 && (price - current) * 10000 <= bound && (current - price) * 10000
                    <= bound,
            )
        }),
{
}

/// The price history with `point` appended, keeping the latest
/// `MAX_HISTORY_LENGTH` points.
pub open spec fn record_price(history: Seq<(i64, u32)>, point: (i64, u32)) -> Seq<(i64, u32)> {
    if history.len() + 1 > MAX_HISTORY_LENGTH {
        history.push(point).subrange(1, history.len() as int + 1)
    } else {
        history.push(point)
    }
}

pub struct PriceOracleManager;

impl PriceOracleManager {
    /// Initialize the price oracle of a pool; `now` is the clock's reading,
    /// recorded as the time of the last update
    pub fn initialize_oracle(
        pool: &mut SharedLiquidityPool,
        min_update_interval: i64,
        max_price_deviation: u16,
        now: Result<i64, ErrorCode>,
    ) -> (r: Result<(), ErrorCode>)
        ensures
            initialize_oracle_outcome(*old(pool), *final(pool), r, min_update_interval, max_price_deviation, now),
    {
        if min_update_interval <= 0 {
            return Err(OracleError::InvalidUpdateInterval.into());
        }
        if max_price_deviation == 0 || max_price_deviation as u64 > BASIS_POINTS {
            return Err(OracleError::InvalidPriceDeviation.into());
        }
        let oracle = PriceOracle {
            last_price: 0,
            last_update: now?,
            min_update_interval,
            max_price_deviation,
            is_active: true,
        };
        pool.price_oracle = oracle;
        Ok(())
    }

    /// Update the oracle price at the time `now` (the clock's reading): the
    /// oracle must be active and the price positive. Once a price has been
    /// recorded, the last update must be at least `min_update_interval`
    /// seconds old and the move from the last price within
    /// `max_price_deviation` basis points; the first price after
    /// initialization is taken at any time
    pub fn update_price(pool: &mut SharedLiquidityPool, new_price: u64, now: Result<i64, ErrorCode>) -> (r:
        Result<(), ErrorCode>)
        ensures
            update_price_outcome(*old(pool), *final(pool), r, new_price, now),
    {
        if !pool.price_oracle.is_active {
            return Err(OracleError::OracleNotActive.into());
        }
        if new_price == 0 {
            return Err(OracleError::InvalidPrice.into());
        }
        let current_time = now?;
        let last_price = pool.price_oracle.last_price;
        if last_price > 0 {
            let elapsed = match current_time.checked_sub(pool.price_oracle.last_update) {
                Some(d) => d,
                None => return Err(OracleError::ArithmeticOverflow.into()),
            };
            if elapsed < pool.price_oracle.min_update_interval {
                return Err(OracleError::UpdateTooSoon.into());
            }
            let price_diff = if new_price > last_price {
                new_price - last_price
            } else {
                last_price - new_price
            };
            assert((price_diff as u128) * 10000 <= 0xffff_ffff_ffff_ffffu128 * 10000)
                by (nonlinear_arith);
            assert((pool.price_oracle.max_price_deviation as u128) * (last_price as u128) <= 0xffffu128
                * 0xffff_ffff_ffff_ffffu128) by (nonlinear_arith);
            if (price_diff as u128) * 10000 > (pool.price_oracle.max_price_deviation as u128) * (
            last_price as u128) {
                return Err(OracleError::PriceDeviationTooHigh.into());
            }
        }
        pool.price_oracle.last_price = new_price;
        pool.price_oracle.last_update = current_time;
        Ok(())
    }

    /// Get the oracle price at the time `now` (the clock's reading)
    pub fn get_price(pool: &SharedLiquidityPool, now: Result<i64, ErrorCode>) -> (r: Result<
        u64,
        ErrorCode,
    >)
        ensures
            r == oracle_price(pool.price_oracle, now),
    {
        if !pool.price_oracle.is_active {
            return Err(OracleError::OracleNotActive.into());
        }
        let current_time = now?;
        let elapsed = match current_time.checked_sub(pool.price_oracle.last_update) {
            Some(d) => d,
            None => return Err(OracleError::ArithmeticOverflow.into()),
        };
        let limit = match pool.price_oracle.min_update_interval.checked_mul(2) {
            Some(d) => d,
            None => return Err(OracleError::ArithmeticOverflow.into()),
        };
        if elapsed > limit {
            return Err(OracleError::PriceStale.into());
        }
        Ok(pool.price_oracle.last_price)
    }

    /// Pause oracle
    pub fn pause_oracle(pool: &mut SharedLiquidityPool) -> (r: Result<(), ErrorCode>)
        ensures
            r is Ok,
            final(pool)@ == (PoolView {
                price_oracle: PriceOracle { is_active: false, ..old(pool).price_oracle },
                ..old(pool)@
            }),
    {
        pool.price_oracle.is_active = false;
        Ok(())
    }

    /// Resume oracle
    pub fn resume_oracle(pool: &mut SharedLiquidityPool) -> (r: Result<(), ErrorCode>)
        ensures
            r is Ok,
            final(pool)@ == (PoolView {
                price_oracle: PriceOracle { is_active: true, ..old(pool).price_oracle },
                ..old(pool)@
            }),
    {
        pool.price_oracle.is_active = true;
        Ok(())
    }

    /// Check at the time `now` whether `price` lies within the oracle's
    /// maximum deviation from the oracle price
    pub fn is_price_valid(pool: &SharedLiquidityPool, price: u64, now: Result<i64, ErrorCode>) -> (r:
        Result<bool, ErrorCode>)
        ensures
            r == price_validity(pool.price_oracle, price, now),
    {
        let current_price = Self::get_price(pool, now)?;
        if current_price == 0 {
            return Ok(false);
        }
        let diff = if price > current_price {
            price - current_price
        } else {
            current_price - price
        };
        assert((diff as u128) * 10000 <= 0xffff_ffff_ffff_ffffu128 * 10000) by (nonlinear_arith);
        assert((pool.price_oracle.max_price_deviation as u128) * (current_price as u128) <= 0xffffu128
            * 0xffff_ffff_ffff_ffffu128) by (nonlinear_arith);
        Ok((diff as u128) * 10000 <= (pool.price_oracle.max_price_deviation as u128) * (
        current_price as u128))
    }

    /// The points of the price history recorded within the last
    /// `window_seconds` seconds before `now` (the clock's reading), in
    /// order: those from `now - window_seconds` on.
    pub fn prices_in_window(
        pool: &SharedLiquidityPool,
        window_seconds: i64,
        now: Result<i64, ErrorCode>,
    ) -> (r: Result<Vec<(i64, u32)>, ErrorCode>)
        ensures
            match now {
                Err(e) => r == Err::<Vec<(i64, u32)>, ErrorCode>(e),
                Ok(t) => if i64_sub_overflows(t, window_seconds) {
                    r == Err::<Vec<(i64, u32)>, ErrorCode>(or_err(OracleError::ArithmeticOverflow))
                } else {
                    r matches Ok(v) && v@ == pool@.price_history.filter(
                        |point: (i64, u32)| point.0 >= t - window_seconds,
                    )
                },
            },
    {
        let current_time = now?;
        let start_time = match current_time.checked_sub(window_seconds) {
            Some(s) => s,
            None => return Err(OracleError::ArithmeticOverflow.into()),
        };
        let ghost pred = |point: (i64, u32)| point.0 >= start_time;
        let ghost history = pool@.price_history;
        let mut relevant: Vec<(i64, u32)> = Vec::new();
        let mut i: usize = 0;
        assert(history.take(0).filter(pred) =~= Seq::<(i64, u32)>::empty()) by {
            reveal(Seq::filter);
        }
        while i < pool.price_history.len()
            invariant
                0 <= i <= history.len(),
                history == pool.price_history@,
                pred == (|point: (i64, u32)| point.0 >= start_time),
                relevant@ == history.take(i as int).filter(pred),
            decreases history.len() - i,
        {
            let point = pool.price_history[i];
            assert(history.take(i + 1).drop_last() =~= history.take(i as int));
            assert(history.take(i + 1).last() == point);
            assert(history.take(i + 1).filter(pred) == if pred(point) {
                history.take(i as int).filter(pred).push(point)
            } else {
                history.take(i as int).filter(pred)
            }) by {
                reveal(Seq::filter);
            }
            if point.0 >= start_time {
                relevant.push(point);
            }
            i = i + 1;
        }
        assert(history.take(i as int) =~= history);
        Ok(relevant)
    }

    /// Record the pool's current price at the time `now` in its price
    /// history, which keeps the latest `MAX_HISTORY_LENGTH` points
    pub fn update_price_history(pool: &mut SharedLiquidityPool, now: Result<i64, ErrorCode>) -> (r:
        Result<(), ErrorCode>)
        ensures
            match now {
                Err(e) => r == Err::<(), ErrorCode>(e) && final(pool)@ == old(pool)@,
                Ok(t) => r is Ok && final(pool)@ == (PoolView {
                    price_history: record_price(old(pool)@.price_history, (t, old(pool).current_price)),
                    ..old(pool)@
                }),
            },
    {
        let current_time = now?;
        let current_price = pool.current_price;
        pool.price_history.push((current_time, current_price));
        if pool.price_history.len() > MAX_HISTORY_LENGTH {
            pool.price_history.remove(0);
        }
        assert(pool@.price_history =~= record_price(
            old(pool)@.price_history,
            (current_time, current_price),
        ));
        Ok(())
    }
}

/// Outcome of `initialize_oracle`: how `post` and `r` relate to `pre`.
pub open spec fn initialize_oracle_outcome(
    pre: SharedLiquidityPool,
    post: SharedLiquidityPool,
    r: Result<(), ErrorCode>,
    min_update_interval: i64,
    max_price_deviation: u16,
    now: Result<i64, ErrorCode>,
) -> bool {
    &&& (min_update_interval <= 0 ==> r == Err::<(), ErrorCode>(
        or_err(OracleError::InvalidUpdateInterval),
    ) && post@ == pre@)
    &&& (min_update_interval > 0 && (max_price_deviation == 0 || max_price_deviation > 10000)
        ==> r == Err::<(), ErrorCode>(or_err(OracleError::InvalidPriceDeviation)) && post@ == pre@)
    &&& (min_update_interval > 0 && 0 < max_price_deviation <= 10000 ==> match now {
        Err(e) => r == Err::<(), ErrorCode>(e) && post@ == pre@,
        Ok(t) => r is Ok && post@ == (PoolView {
            price_oracle: PriceOracle {
                last_price: 0,
                last_update: t,
                min_update_interval,
                max_price_deviation,
                is_active: true,
            },
            ..pre@
        }),
    })
}

/// Outcome of `update_price`: how `post` and `r` relate to `pre`.
pub open spec fn update_price_outcome(
    pre: SharedLiquidityPool,
    post: SharedLiquidityPool,
    r: Result<(), ErrorCode>,
    new_price: u64,
    now: Result<i64, ErrorCode>,
) -> bool {
    ({
        let o = pre.price_oracle;
        if !o.is_active {
            r == Err::<(), ErrorCode>(or_err(OracleError::OracleNotActive)) && post@
                == pre@
        } else if new_price == 0 {
            r == Err::<(), ErrorCode>(or_err(OracleError::InvalidPrice)) && post@
                == pre@
        } else {
            match now {
                Err(e) => r == Err::<(), ErrorCode>(e) && post@ == pre@,
                Ok(t) => if o.last_price > 0 && i64_sub_overflows(t, o.last_update) {
                    r == Err::<(), ErrorCode>(or_err(OracleError::ArithmeticOverflow))
                        && post@ == pre@
                } else if o.last_price > 0 && t - o.last_update < o.min_update_interval {
                    r == Err::<(), ErrorCode>(or_err(OracleError::UpdateTooSoon)) && post@ == pre@
                } else if o.last_price > 0 && deviates(
                    o.last_price,
                    new_price,
                    o.max_price_deviation,
                ) {
                    r == Err::<(), ErrorCode>(or_err(OracleError::PriceDeviationTooHigh))
                        && post@ == pre@
                } else {
                    r is Ok && post@ == (PoolView {
                        price_oracle: PriceOracle {
                            last_price: new_price,
                            last_update: t,
                            ..o
                        },
                        ..pre@
                    })
                },
            }
        }
    })
}

/// Recording a price never lets the history grow past `MAX_HISTORY_LENGTH`
/// points, and always keeps the new point as the latest one.
pub proof fn law_history_bounded(history: Seq<(i64, u32)>, point: (i64, u32))
    requires
        history.len() <= MAX_HISTORY_LENGTH,
    ensures
        record_price(history, point).len() <= MAX_HISTORY_LENGTH,
        record_price(history, point).last() == point,
{
}

/// A price read at the time of a successful update gives back the price
/// that the update wrote (when twice the update interval is a valid span).
pub proof fn law_read_after_update(
    pre: SharedLiquidityPool,
    post: SharedLiquidityPool,
    new_price: u64,
    t: i64,
)
    requires
        update_price_outcome(pre, post, Ok(()), new_price, Ok(t)),
        0 <= pre.price_oracle.min_update_interval * 2 <= i64::MAX,
    ensures
        oracle_price(post@.price_oracle, Ok(t)) == Ok::<u64, ErrorCode>(new_price),
{
}

/// The first price after the oracle is initialized is taken at any time:
/// nothing has been recorded to be too recent or too far from.
pub proof fn law_first_update_is_taken(
    pre: SharedLiquidityPool,
    mid: SharedLiquidityPool,
    post: SharedLiquidityPool,
    min_update_interval: i64,
    max_price_deviation: u16,
    new_price: u64,
    t: i64,
    later: i64,
    r: Result<(), ErrorCode>,
)
    requires
        initialize_oracle_outcome(pre, mid, Ok(()), min_update_interval, max_price_deviation, Ok(t)),
        new_price > 0,
        update_price_outcome(mid, post, r, new_price, Ok(later)),
    ensures
        r is Ok,
        post@.price_oracle.last_price == new_price,
        post@.price_oracle.last_update == later,
{
}

/// A move up and a move down by the same amount count alike against the
/// maximum deviation: what is measured is the size of the move.
pub proof fn law_deviation_ignores_direction(last_price: u64, step: u64, max_deviation: u16)
    requires
        step <= last_price,
        last_price + step <= u64::MAX,
    ensures
        deviates(last_price, (last_price + step) as u64, max_deviation) == deviates(
            last_price,
            (last_price - step) as u64,
            max_deviation,
        ),
        deviates(last_price, (last_price + step) as u64, max_deviation) == (step * 10000
            > max_deviation * last_price),
{
}

/// Once a price is recorded, an accepted update moves it by at most
/// `max_price_deviation` basis points of the last price, upwards or
/// downwards. Of the updates due by the interval, one that moves the price
/// by more, in either direction, is refused with `PriceDeviationTooHigh`,
/// leaving the pool as it was, and one that moves it by no more is taken.
pub proof fn law_update_price_stays_within_deviation(
    pre: SharedLiquidityPool,
    post: SharedLiquidityPool,
    r: Result<(), ErrorCode>,
    new_price: u64,
    now: Result<i64, ErrorCode>,
)
    requires
        update_price_outcome(pre, post, r, new_price, now),
        pre.price_oracle.last_price > 0,
    ensures
        ({
            let last = pre.price_oracle.last_price as int;
            let bound = pre.price_oracle.max_price_deviation * last;
            &&& r is Ok ==> (new_price - last) * 10000 <= bound && (last - new_price) * 10000
                <= bound && post@.price_oracle.last_price == new_price
            &&& (pre.price_oracle.is_active && new_price > 0 && now is Ok && !i64_sub_overflows(
                now->Ok_0,
                pre.price_oracle.last_update,
            ) && now->Ok_0 - pre.price_oracle.last_update >= pre.price_oracle.min_update_interval
                && ((new_price - last) * 10000 > bound || (last - new_price) * 10000 > bound)) ==> r
                == Err::<(), ErrorCode>(or_err(OracleError::PriceDeviationTooHigh)) && post@
                == pre@
            &&& (pre.price_oracle.is_active && new_price > 0 && now is Ok && !i64_sub_overflows(
                now->Ok_0,
                pre.price_oracle.last_update,
            ) && now->Ok_0 - pre.price_oracle.last_update >= pre.price_oracle.min_update_interval
                && (new_price - last) * 10000 <= bound && (last - new_price) * 10000 <= bound) ==> r
                is Ok && post@.price_oracle.last_price == new_price
                && post@.price_oracle.last_update == now->Ok_0
        }),
{
}

} // verus!
