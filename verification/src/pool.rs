use crate::constants::{
    DEFAULT_FLASH_LOAN_FEE, DEFAULT_MAX_FLASH_LOAN_PERCENTAGE, MAX_POOL_FEE, MIN_POOL_FEE,
    PRICE_PRECISION,
};
use crate::error::{ErrorCode, POOL_PAUSED_CODE};
use crate::key::Pubkey;
use crate::math::{is_isqrt, isqrt_u128};
use crate::types::{
    EmergencyPause, LiquidityMining, LiquidityPosition, MiningView, PoolView, PriceOracle,
    SharedLiquidityPool,
};
use vstd::prelude::*;

verus! {

/// A fresh pool: empty reserves, no positions, flash loans at their default
/// terms, oracle and mining not set up, not paused, administered by `admin`.
pub open spec fn new_pool(token_a_mint: Pubkey, token_b_mint: Pubkey, fee: u64, admin: Pubkey) -> PoolView {
    PoolView {
        token_a_mint,
        token_b_mint,
        reserve_a: 0,
        reserve_b: 0,
        fee,
        admin,
        is_active: true,
        flash_loan_fee: DEFAULT_FLASH_LOAN_FEE,
        max_flash_loan_percentage: DEFAULT_MAX_FLASH_LOAN_PERCENTAGE,
        price_oracle: PriceOracle {
            last_price: 0,
            last_update: 0,
            min_update_interval: 0,
            max_price_deviation: 0,
            is_active: false,
        },
        liquidity_mining: MiningView {
            reward_token: token_a_mint,
            reward_rate: 0,
            staking_period: 0,
            total_staked: 0,
            last_reward_update: 0,
            accumulated_rewards: 0,
            staking_accounts: Seq::empty(),
        },
        emergency_pause: EmergencyPause {
            is_paused: false,
            pause_timestamp: 0,
            max_pause_duration: 0,
            admin,
        },
        positions: Seq::empty(),
        enhanced_positions: Seq::empty(),
        next_position_id: 1,
        current_price: 0,
        price_history: Seq::empty(),
    }
}

/// Some liquidity position of `s` has the id `id`.
pub open spec fn has_liquidity_position(s: Seq<LiquidityPosition>, id: u64) -> bool {
    exists|i: int| 0 <= i < s.len() && #[trigger] s[i].id == id
}

/// `i` is the first index of a liquidity position with id `id`.
pub open spec fn is_first_liquidity_position(s: Seq<LiquidityPosition>, id: u64, i: int) -> bool {
    &&& 0 <= i < s.len()
    &&& s[i].id == id
    &&& forall|j: int| 0 <= j < i ==> #[trigger] s[j].id != id
}

/// Index of the liquidity position with id `id` (meaningful when there is one).
pub open spec fn liquidity_position_index(s: Seq<LiquidityPosition>, id: u64) -> int {
    choose|i: int| is_first_liquidity_position(s, id, i)
}

/// Shares minted for a deposit of `amount_a` and `amount_b` into a pool that
/// already holds both tokens: the smaller of the two amounts.
pub open spec fn proportional_shares(amount_a: u64, amount_b: u64) -> u64 {
    if amount_a <= amount_b {
        amount_a
    } else {
        amount_b
    }
}

/// Index of the liquidity position with id `position_id`.
pub(crate) fn find_liquidity_position(positions: &Vec<LiquidityPosition>, position_id: u64) -> (r: Option<
    usize,
>)
    ensures
        r is None <==> !has_liquidity_position(positions@, position_id),
        r matches Some(k) ==> is_first_liquidity_position(positions@, position_id, k as int) && k
            == liquidity_position_index(positions@, position_id),
{
    let mut i: usize = 0;
    while i < positions.len()
        invariant
            0 <= i <= positions@.len(),
            forall|j: int| 0 <= j < i ==> #[trigger] positions@[j].id != position_id,
        decreases positions@.len() - i,
    {
        if positions[i].id == position_id {
            let ghost s = positions@;
            assert(is_first_liquidity_position(s, position_id, i as int));
            let ghost k = liquidity_position_index(s, position_id);
            assert(k == i) by {
                if k < i {
                    assert(s[k].id != position_id);
                } else if k > i {
                    assert(s[i as int].id != position_id);
                }
            }
            return Some(i);
        }
        i = i + 1;
    }
    None
}

impl SharedLiquidityPool {
    /// Create a new liquidity pool charging `fee` basis points on swaps
    pub fn create_pool(token_a_mint: Pubkey, token_b_mint: Pubkey, fee: u64, admin: Pubkey) -> (r:
        Result<SharedLiquidityPool, ErrorCode>)
        ensures
            fee < MIN_POOL_FEE || fee > MAX_POOL_FEE ==> r == Err::<SharedLiquidityPool, ErrorCode>(
                ErrorCode::InvalidArgument,
            ),
            MIN_POOL_FEE <= fee <= MAX_POOL_FEE ==> (r matches Ok(p) && p@ == new_pool(
                token_a_mint,
                token_b_mint,
                fee,
                admin,
            )),
    {
        if fee < MIN_POOL_FEE || fee > MAX_POOL_FEE {
            return Err(ErrorCode::InvalidArgument);
        }
        let pool = SharedLiquidityPool {
            token_a_mint,
            token_b_mint,
            reserve_a: 0,
            reserve_b: 0,
            fee,
            admin,
            is_active: true,
            flash_loan_fee: DEFAULT_FLASH_LOAN_FEE,
            max_flash_loan_percentage: DEFAULT_MAX_FLASH_LOAN_PERCENTAGE,
            price_oracle: PriceOracle {
                last_price: 0,
                last_update: 0,
                min_update_interval: 0,
                max_price_deviation: 0,
                is_active: false,
            },
            liquidity_mining: LiquidityMining {
                reward_token: token_a_mint,
                reward_rate: 0,
                staking_period: 0,
                total_staked: 0,
                last_reward_update: 0,
                accumulated_rewards: 0,
                staking_accounts: Vec::new(),
            },
            emergency_pause: EmergencyPause {
                is_paused: false,
                pause_timestamp: 0,
                max_pause_duration: 0,
                admin,
            },
            positions: Vec::new(),
            enhanced_positions: Vec::new(),
            next_position_id: 1,
            current_price: 0,
            price_history: Vec::new(),
        };
        assert(pool@ =~= new_pool(token_a_mint, token_b_mint, fee, admin));
        Ok(pool)
    }

    /// Add liquidity to the pool: a new position of `owner`, created at the
    /// time `now` (the clock's reading), whose shares are the integer square
    /// root of `amount_a * amount_b` for the first deposit and the smaller of
    /// the two amounts afterwards.
    pub fn add_liquidity(
        &mut self,
        amount_a: u64,
        amount_b: u64,
        owner: Pubkey,
        now: Result<i64, ErrorCode>,
    ) -> (r: Result<(), ErrorCode>)
        ensures
            add_liquidity_outcome(*old(self), *final(self), r, amount_a, amount_b, owner, now),
    {
        if self.emergency_pause.is_paused {
            return Err(ErrorCode::Custom(POOL_PAUSED_CODE));
        }
        let shares = if self.reserve_a == 0 && self.reserve_b == 0 {
            assert((amount_a as u128) * (amount_b as u128) <= 0xffff_ffff_ffff_ffffu128
                * 0xffff_ffff_ffff_ffffu128) by (nonlinear_arith);
            isqrt_u128((amount_a as u128) * (amount_b as u128))
        } else {
            if self.reserve_a == 0 || self.reserve_b == 0 {
                return Err(ErrorCode::ArithmeticOverflow);
            }
            if amount_a <= amount_b {
                amount_a
            } else {
                amount_b
            }
        };
        self.reserve_a = match self.reserve_a.checked_add(amount_a) {
            Some(v) => v,
            None => return Err(ErrorCode::ArithmeticOverflow),
        };
        self.reserve_b = match self.reserve_b.checked_add(amount_b) {
            Some(v) => v,
            None => return Err(ErrorCode::ArithmeticOverflow),
        };
        let t = now?;
        let id = self.next_position_id;
        let next = match id.checked_add(1) {
            Some(n) => n,
            None => return Err(ErrorCode::ArithmeticOverflow),
        };
        let position = LiquidityPosition {
            owner,
            shares,
            last_claim_time: t,
            accumulated_rewards: 0,
            id,
        };
        self.positions.push(position);
        self.next_position_id = next;
        Ok(())
    }

    /// Remove `shares` shares of the liquidity position `position_id`:
    /// each reserve is paid out in the proportion `shares` bears to the
    /// position's shares.
    pub fn remove_liquidity(&mut self, position_id: u64, shares: u64) -> (r: Result<
        (u64, u64),
        ErrorCode,
    >)
        ensures
            remove_liquidity_outcome(*old(self), *final(self), r, position_id, shares),
    {
        if self.emergency_pause.is_paused {
            return Err(ErrorCode::Custom(POOL_PAUSED_CODE));
        }
        let k = match find_liquidity_position(&self.positions, position_id) {
            Some(k) => k,
            None => return Err(ErrorCode::InvalidAccountData),
        };
        let position = self.positions[k];
        if shares > position.shares {
            return Err(ErrorCode::InvalidArgument);
        }
        if position.shares == 0 {
            return Err(ErrorCode::ArithmeticOverflow);
        }
        let amount_a = Self::share_of(shares, self.reserve_a, position.shares);
        let amount_b = Self::share_of(shares, self.reserve_b, position.shares);
        self.reserve_a = self.reserve_a - amount_a;
        self.reserve_b = self.reserve_b - amount_b;
        self.positions.set(k, LiquidityPosition { shares: position.shares - shares, ..position });
        Ok((amount_a, amount_b))
    }

    /// `shares / total` of `reserve`, rounded down.
    fn share_of(shares: u64, reserve: u64, total: u64) -> (amount: u64)
        requires
            0 < total,
            shares <= total,
        ensures
            amount == shares * reserve / (total as int),
            amount <= reserve,
    {
        assert((shares as u128) * (reserve as u128) <= (total as u128) * (reserve as u128))
            by (nonlinear_arith)
            requires
                shares <= total,
        ;
        assert((total as u128) * (reserve as u128) <= 0xffff_ffff_ffff_ffffu128
            * 0xffff_ffff_ffff_ffffu128) by (nonlinear_arith);
        let amount = (shares as u128) * (reserve as u128) / (total as u128);
        assert(amount <= reserve) by (nonlinear_arith)
            requires
                amount == (shares as int) * (reserve as int) / (total as int),
                shares <= total,
                total > 0,
        ;
        amount as u64
    }

    /// Get the pool price: reserve A over reserve B at `PRICE_PRECISION`
    pub fn get_price(&self) -> (r: Result<u64, ErrorCode>)
        ensures
            self.reserve_b == 0 ==> r == Err::<u64, ErrorCode>(ErrorCode::InvalidAccountData),
            self.reserve_b != 0 ==> r == Ok::<u64, ErrorCode>(
                (self.reserve_a * PRICE_PRECISION / (self.reserve_b as int)) as u64,
            ),
    {
        if self.reserve_b == 0 {
            return Err(ErrorCode::InvalidAccountData);
        }
        assert((self.reserve_a as u128) * (PRICE_PRECISION as u128) <= 0xffff_ffff_ffff_ffffu128
            * 1_000_000) by (nonlinear_arith);
        Ok(((self.reserve_a as u128) * (PRICE_PRECISION as u128) / (self.reserve_b as u128)) as u64)
    }

    /// Get the pool's total value locked, in units of token A
    pub fn get_tvl(&self) -> (r: Result<u64, ErrorCode>)
        ensures
            self.reserve_b == 0 ==> r == Err::<u64, ErrorCode>(ErrorCode::InvalidAccountData),
            self.reserve_b != 0 ==> r == Ok::<u64, ErrorCode>(
                (self.reserve_b * ((self.reserve_a * PRICE_PRECISION / (
                self.reserve_b as int)) as u64) / (PRICE_PRECISION as int) + self.reserve_a) as u64,
            ),
    {
        let price = self.get_price()?;
        assert((self.reserve_b as u128) * (price as u128) <= 0xffff_ffff_ffff_ffffu128
            * 0xffff_ffff_ffff_ffffu128) by (nonlinear_arith);
        let scaled = (self.reserve_b as u128) * (price as u128) / (PRICE_PRECISION as u128);
        assert(scaled <= 0xffff_ffff_ffff_ffffu128 * 0xffff_ffff_ffff_ffffu128);
        Ok((scaled + self.reserve_a as u128) as u64)
    }
}

/// Outcome of `add_liquidity`: how `post` and `r` relate to `pre`.
pub open spec fn add_liquidity_outcome(
    pre: SharedLiquidityPool,
    post: SharedLiquidityPool,
    r: Result<(), ErrorCode>,
    amount_a: u64,
    amount_b: u64,
    owner: Pubkey,
    now: Result<i64, ErrorCode>,
) -> bool {
    ({
        let p = pre@;
        let first = p.reserve_a == 0 && p.reserve_b == 0;
        let grown = PoolView {
            reserve_a: (p.reserve_a + amount_a) as u64,
            reserve_b: (p.reserve_b + amount_b) as u64,
            ..p
        };
        if p.emergency_pause.is_paused {
            r == Err::<(), ErrorCode>(ErrorCode::Custom(POOL_PAUSED_CODE)) && post@ == p
        } else if !first && (p.reserve_a == 0 || p.reserve_b == 0) {
            r == Err::<(), ErrorCode>(ErrorCode::ArithmeticOverflow) && post@ == p
        } else if p.reserve_a + amount_a > u64::MAX {
            r == Err::<(), ErrorCode>(ErrorCode::ArithmeticOverflow) && post@ == p
        } else if p.reserve_b + amount_b > u64::MAX {
            r == Err::<(), ErrorCode>(ErrorCode::ArithmeticOverflow) && post@ == (
            PoolView { reserve_a: (p.reserve_a + amount_a) as u64, ..p })
        } else {
            match now {
                Err(e) => r == Err::<(), ErrorCode>(e) && post@ == grown,
                Ok(t) => if p.next_position_id == u64::MAX {
                    r == Err::<(), ErrorCode>(ErrorCode::ArithmeticOverflow) && post@
                        == grown
                } else {
                    let shares = post@.positions.last().shares;
                    &&& r is Ok
                    &&& post@ == (PoolView {
                        positions: p.positions.push(
                            LiquidityPosition {
                                shares,
                                last_claim_time: t,
                                accumulated_rewards: 0,
                                owner,
                                id: p.next_position_id,
                            },
                        ),
                        next_position_id: (p.next_position_id + 1) as u64,
                        ..grown
                    })
                    &&& first ==> is_isqrt(amount_a * amount_b, shares as int)
                    &&& !first ==> shares == proportional_shares(amount_a, amount_b)
                }
            }
        }
    })
}

/// Outcome of `remove_liquidity`: how `post` and `r` relate to `pre`.
pub open spec fn remove_liquidity_outcome(
    pre: SharedLiquidityPool,
    post: SharedLiquidityPool,
    r: Result<(u64, u64), ErrorCode>,
    position_id: u64,
    shares: u64,
) -> bool {
    ({
        let p = pre@;
        let k = liquidity_position_index(p.positions, position_id);
        let pos = p.positions[k];
        if p.emergency_pause.is_paused {
            r == Err::<(u64, u64), ErrorCode>(ErrorCode::Custom(POOL_PAUSED_CODE))
                && post@ == p
        } else if !has_liquidity_position(p.positions, position_id) {
            r == Err::<(u64, u64), ErrorCode>(ErrorCode::InvalidAccountData) && post@
                == p
        } else if shares > pos.shares {
            r == Err::<(u64, u64), ErrorCode>(ErrorCode::InvalidArgument) && post@ == p
        } else if pos.shares == 0 {
            r == Err::<(u64, u64), ErrorCode>(ErrorCode::ArithmeticOverflow) && post@
                == p
        } else {
            let amount_a = shares * p.reserve_a / (pos.shares as int);
            let amount_b = shares * p.reserve_b / (pos.shares as int);
            &&& r == Ok::<(u64, u64), ErrorCode>((amount_a as u64, amount_b as u64))
            &&& post@ == (PoolView {
                reserve_a: (p.reserve_a - amount_a) as u64,
                reserve_b: (p.reserve_b - amount_b) as u64,
                positions: p.positions.update(
                    k,
                    LiquidityPosition { shares: (pos.shares - shares) as u64, ..pos },
                ),
                ..p
            })
        }
    })
}

/// The shares that a successful deposit mints: into a pool that already
/// holds both tokens, as many as the smaller of the two amounts, so never
/// more than either amount supports; into an empty pool, the integer square
/// root of the product of the amounts. The deposit is recorded as a new
/// position of `owner` at the end of the list, and both amounts join the
/// reserves.
pub proof fn law_deposit_shares(
    pre: SharedLiquidityPool,
    post: SharedLiquidityPool,
    amount_a: u64,
    amount_b: u64,
    owner: Pubkey,
    now: Result<i64, ErrorCode>,
)
    requires
        add_liquidity_outcome(pre, post, Ok(()), amount_a, amount_b, owner, now),
    ensures
        post@.positions.len() == pre@.positions.len() + 1,
        post@.positions.last().owner == owner,
        post@.reserve_a == pre@.reserve_a + amount_a,
        post@.reserve_b == pre@.reserve_b + amount_b,
        ({
            let shares = post@.positions.last().shares as int;
            &&& pre@.reserve_a > 0 && pre@.reserve_b > 0 ==> shares <= amount_a && shares
                <= amount_b && (shares == amount_a || shares == amount_b)
            &&& pre@.reserve_a == 0 && pre@.reserve_b == 0 ==> shares * shares <= amount_a
                * amount_b < (shares + 1) * (shares + 1)
        }),
{
}

/// Taking all the shares of the first deposit into an empty pool back out
/// pays back exactly what was deposited and empties the pool again.
pub proof fn law_remove_undoes_first_deposit(
    pre: SharedLiquidityPool,
    mid: SharedLiquidityPool,
    post: SharedLiquidityPool,
    amount_a: u64,
    amount_b: u64,
    owner: Pubkey,
    now: Result<i64, ErrorCode>,
    r: Result<(u64, u64), ErrorCode>,
)
    requires
        pre.reserve_a == 0 && pre.reserve_b == 0,
        amount_a > 0 && amount_b > 0,
        !has_liquidity_position(pre@.positions, pre.next_position_id),
        add_liquidity_outcome(pre, mid, Ok(()), amount_a, amount_b, owner, now),
        remove_liquidity_outcome(
            mid,
            post,
            r,
            pre.next_position_id,
            mid@.positions.last().shares,
        ),
    ensures
        r == Ok::<(u64, u64), ErrorCode>((amount_a, amount_b)),
        post@.reserve_a == 0 && post@.reserve_b == 0,
{
    let id = pre.next_position_id;
    let ps = mid@.positions;
    let k = ps.len() - 1;
    let shares = ps.last().shares;
    assert(ps == pre@.positions.push(ps.last()));
    assert(ps[k].id == id);
    assert forall|j: int| 0 <= j < k implies #[trigger] ps[j].id != id by {
        assert(ps[j] == pre@.positions[j]);
    }
    assert(is_first_liquidity_position(ps, id, k));
    let i = liquidity_position_index(ps, id);
    assert(is_first_liquidity_position(ps, id, i));
    if i < k {
        assert(ps[i].id != id);
    }
    assert(i == k);
    assert(is_isqrt(amount_a * amount_b, shares as int));
    assert(amount_a * amount_b >= 1) by (nonlinear_arith)
        requires
            amount_a > 0,
            amount_b > 0,
    ;
    assert(shares > 0) by (nonlinear_arith)
        requires
            is_isqrt(amount_a * amount_b, shares as int),
            amount_a * amount_b >= 1,
    ;
    assert(shares * amount_a / (shares as int) == amount_a) by (nonlinear_arith)
        requires
            shares > 0,
    ;
    assert(shares * amount_b / (shares as int) == amount_b) by (nonlinear_arith)
        requires
            shares > 0,
    ;
}

} // verus!
