use crate::emergency::i64_sub_overflows;
use crate::error::{mi_err, ErrorCode, MiningError};
use crate::key::Pubkey;
use crate::pool::{find_liquidity_position, has_liquidity_position, liquidity_position_index};
use crate::types::{
    LiquidityMining, MiningView, PoolView, SharedLiquidityPool, StakingAccount, StakingInfo,
};
use vstd::prelude::*;

verus! {

/// What the reward formula of a claim reads: the stake, the total stake,
/// the program's rate and period, and the seconds since the last claim.
#[derive(Debug, Clone, Copy, PartialEq, Eq)]
pub struct RewardBasis {
    pub staked_amount: u64,
    pub total_staked: u64,
    pub reward_rate: u64,
    pub staking_period: i64,
    pub elapsed: i64,
}

/// Some staking account of `s` belongs to `staker`.
pub open spec fn has_stake(s: Seq<StakingAccount>, staker: Seq<u8>) -> bool {
    exists|i: int| 0 <= i < s.len() && (#[trigger] s[i]).staker@ == staker
}

/// `i` is the first staking account of `staker`.
pub open spec fn is_first_stake(s: Seq<StakingAccount>, staker: Seq<u8>, i: int) -> bool {
    &&& 0 <= i < s.len()
    &&& s[i].staker@ == staker
    &&& forall|j: int| 0 <= j < i ==> (#[trigger] s[j]).staker@ != staker
}

/// Index of the staking account of `staker` (meaningful when there is one).
pub open spec fn stake_index(s: Seq<StakingAccount>, staker: Seq<u8>) -> int {
    choose|i: int| is_first_stake(s, staker, i)
}

/// `s` without the staking accounts of `staker`.
pub open spec fn without_staker(s: Seq<StakingAccount>, staker: Seq<u8>) -> Seq<StakingAccount>
    decreases s.len(),
{
    if s.len() == 0 {
        s
    } else {
        let w = without_staker(s.drop_last(), staker);
        if s.last().staker@ == staker {
            w
        } else {
            w.push(s.last())
        }
    }
}

/// Sum of the stakes of `s`.
pub open spec fn total_stake(s: Seq<StakingAccount>) -> int
    decreases s.len(),
{
    if s.len() == 0 {
        0
    } else {
        total_stake(s.drop_last()) + s.last().amount
    }
}

/// Errors of reading a stake of `staker` at the time `now`, if any.
pub open spec fn claim_error(m: MiningView, staker: Seq<u8>, now: Result<i64, ErrorCode>) -> Option<
    ErrorCode,
> {
    if !has_stake(m.staking_accounts, staker) {
        Some(mi_err(MiningError::StakeNotFound))
    } else {
        match now {
            Err(e) => Some(e),
            Ok(t) => if i64_sub_overflows(
                t,
                m.staking_accounts[stake_index(m.staking_accounts, staker)].last_claim_time,
            ) {
                Some(mi_err(MiningError::ArithmeticOverflow))
            } else {
                None
            },
        }
    }
}

/// Index of the staking account of `staker`.
fn find_stake(accounts: &Vec<StakingAccount>, staker: &Pubkey) -> (r: Option<usize>)
    ensures
        r is None <==> !has_stake(accounts@, staker@),
        r matches Some(k) ==> is_first_stake(accounts@, staker@, k as int) && k == stake_index(
            accounts@,
            staker@,
        ),
{
    let mut i: usize = 0;
    while i < accounts.len()
        invariant
            0 <= i <= accounts@.len(),
            forall|j: int| 0 <= j < i ==> (#[trigger] accounts@[j]).staker@ != staker@,
        decreases accounts@.len() - i,
    {
        if accounts[i].staker.same_as(staker) {
            let ghost s = accounts@;
            assert(is_first_stake(s, staker@, i as int));
            let ghost k = stake_index(s, staker@);
            assert(k == i) by {
                if k < i {
                    assert(s[k].staker@ != staker@);
                } else if k > i {
                    assert(s[i as int].staker@ != staker@);
                }
            }
            return Some(i);
        }
        i = i + 1;
    }
    None
}

/// Copy of `accounts` without the accounts of `staker`.
fn remove_staker(accounts: &Vec<StakingAccount>, staker: &Pubkey) -> (out: Vec<StakingAccount>)
    ensures
        out@ == without_staker(accounts@, staker@),
{
    let mut out: Vec<StakingAccount> = Vec::new();
    let mut i: usize = 0;
    while i < accounts.len()
        invariant
            0 <= i <= accounts@.len(),
            out@ == without_staker(accounts@.take(i as int), staker@),
        decreases accounts@.len() - i,
    {
        assert(accounts@.take(i as int + 1).drop_last() =~= accounts@.take(i as int));
        if !accounts[i].staker.same_as(staker) {
            out.push(accounts[i]);
        }
        i = i + 1;
    }
    assert(accounts@.take(i as int) =~= accounts@);
    out
}

pub struct LiquidityMiningManager;

impl LiquidityMiningManager {
    /// Owner of the pool's liquidity position `position_id`, whose stake a
    /// claim for that position draws on; `None` when the pool has no such
    /// position.
    pub fn position_owner(pool: &SharedLiquidityPool, position_id: u64) -> (r: Option<Pubkey>)
        ensures
            r is None <==> !has_liquidity_position(pool@.positions, position_id),
            r matches Some(o) ==> o == pool@.positions[liquidity_position_index(
                pool@.positions,
                position_id,
            )].owner,
    {
        match find_liquidity_position(&pool.positions, position_id) {
            Some(k) => Some(pool.positions[k].owner),
            None => None,
        }
    }

    /// Initialize liquidity mining for a pool; `now` is the clock's reading
    pub fn initialize_mining(
        pool: &mut SharedLiquidityPool,
        reward_token: Pubkey,
        reward_rate: u64,
        staking_period: i64,
        now: Result<i64, ErrorCode>,
    ) -> (r: Result<(), ErrorCode>)
        ensures
            initialize_mining_outcome(*old(pool), *final(pool), r, reward_token, reward_rate, staking_period, now),
    {
        if reward_rate == 0 {
            return Err(MiningError::InvalidRewardRate.into());
        }
        if staking_period <= 0 {
            return Err(MiningError::InvalidStakingPeriod.into());
        }
        let mining = LiquidityMining {
            reward_token,
            reward_rate,
            staking_period,
            total_staked: 0,
            last_reward_update: now?,
            accumulated_rewards: 0,
            staking_accounts: Vec::new(),
        };
        pool.liquidity_mining = mining;
        assert(pool@.liquidity_mining.staking_accounts =~= Seq::<StakingAccount>::empty());
        Ok(())
    }

    /// Stake `amount` liquidity tokens for `staker` at the time `now` (the
    /// clock's reading): a new stake, or added to the staker's stake, whose
    /// start time becomes `now`
    pub fn stake_tokens(
        pool: &mut SharedLiquidityPool,
        staker: &Pubkey,
        amount: u64,
        now: Result<i64, ErrorCode>,
    ) -> (r: Result<(), ErrorCode>)
        ensures
            stake_outcome(*old(pool), *final(pool), r, *staker, amount, now),
    {
        if amount == 0 {
            return Err(MiningError::InsufficientStake.into());
        }
        pool.liquidity_mining.total_staked = match pool.liquidity_mining.total_staked.checked_add(
            amount,
        ) {
            Some(v) => v,
            None => return Err(MiningError::ArithmeticOverflow.into()),
        };
        let current_time = now?;
        match find_stake(&pool.liquidity_mining.staking_accounts, staker) {
            Some(k) => {
                let existing = pool.liquidity_mining.staking_accounts[k];
                let total = match existing.amount.checked_add(amount) {
                    Some(v) => v,
                    None => return Err(MiningError::ArithmeticOverflow.into()),
                };
                pool.liquidity_mining.staking_accounts.set(
                    k,
                    StakingAccount { amount: total, start_time: current_time, ..existing },
                );
            },
            None => {
                pool.liquidity_mining.staking_accounts.push(
                    StakingAccount {
                        staker: *staker,
                        amount,
                        start_time: current_time,
                        last_claim_time: current_time,
                        accumulated_rewards: 0,
                    },
                );
            },
        }
        Ok(())
    }

    /// Unstake `amount` liquidity tokens of `staker` at the time `now` (the
    /// clock's reading), once the staking period has passed since the last
    /// stake; a stake brought to zero is removed
    pub fn unstake_tokens(
        pool: &mut SharedLiquidityPool,
        staker: &Pubkey,
        amount: u64,
        now: Result<i64, ErrorCode>,
    ) -> (r: Result<(), ErrorCode>)
        ensures
            unstake_outcome(*old(pool), *final(pool), r, *staker, amount, now),
    {
        let k = match find_stake(&pool.liquidity_mining.staking_accounts, staker) {
            Some(k) => k,
            None => return Err(MiningError::StakeNotFound.into()),
        };
        let account = pool.liquidity_mining.staking_accounts[k];
        if amount > account.amount {
            return Err(MiningError::InsufficientStake.into());
        }
        let current_time = now?;
        let staked_for = match current_time.checked_sub(account.start_time) {
            Some(d) => d,
            None => return Err(MiningError::ArithmeticOverflow.into()),
        };
        if staked_for < pool.liquidity_mining.staking_period {
            return Err(MiningError::StakingPeriodNotEnded.into());
        }
        let left = account.amount - amount;
        pool.liquidity_mining.staking_accounts.set(k, StakingAccount { amount: left, ..account });
        pool.liquidity_mining.total_staked = match pool.liquidity_mining.total_staked.checked_sub(
            amount,
        ) {
            Some(v) => v,
            None => return Err(MiningError::ArithmeticOverflow.into()),
        };
        if left == 0 {
            let remaining = remove_staker(&pool.liquidity_mining.staking_accounts, staker);
            pool.liquidity_mining.staking_accounts = remaining;
        }
        Ok(())
    }

    /// What the reward formula of a claim by `staker` at the time `now` (the
    /// clock's reading) reads
    pub fn reward_basis(pool: &SharedLiquidityPool, staker: &Pubkey, now: Result<i64, ErrorCode>) -> (r:
        Result<RewardBasis, ErrorCode>)
        ensures
            ({
                let m = pool@.liquidity_mining;
                let acc = m.staking_accounts[stake_index(m.staking_accounts, staker@)];
                match claim_error(m, staker@, now) {
                    Some(e) => r == Err::<RewardBasis, ErrorCode>(e),
                    None => r == Ok::<RewardBasis, ErrorCode>(
                        RewardBasis {
                            staked_amount: acc.amount,
                            total_staked: m.total_staked,
                            reward_rate: m.reward_rate,
                            staking_period: m.staking_period,
                            elapsed: (now->Ok_0 - acc.last_claim_time) as i64,
                        },
                    ),
                }
            }),
    {
        let k = match find_stake(&pool.liquidity_mining.staking_accounts, staker) {
            Some(k) => k,
            None => return Err(MiningError::StakeNotFound.into()),
        };
        let account = pool.liquidity_mining.staking_accounts[k];
        let current_time = now?;
        let elapsed = match current_time.checked_sub(account.last_claim_time) {
            Some(d) => d,
            None => return Err(MiningError::ArithmeticOverflow.into()),
        };
        Ok(
            RewardBasis {
                staked_amount: account.amount,
                total_staked: pool.liquidity_mining.total_staked,
                reward_rate: pool.liquidity_mining.reward_rate,
                staking_period: pool.liquidity_mining.staking_period,
                elapsed,
            },
        )
    }

    /// Record a claim of `staker` at the time `now` (the clock's reading):
    /// the claim pays `accrued`, the value of the reward formula, or nothing
    /// when nothing is staked; the claim time becomes `now`. Returns the
    /// rewards paid.
    pub fn settle_claim(
        pool: &mut SharedLiquidityPool,
        staker: &Pubkey,
        now: Result<i64, ErrorCode>,
        accrued: u64,
    ) -> (r: Result<u64, ErrorCode>)
        ensures
            ({
                let m = old(pool)@.liquidity_mining;
                let s = m.staking_accounts;
                let k = stake_index(s, staker@);
                let acc = s[k];
                let rewards: u64 = if m.total_staked > 0 { accrued } else { 0 };
                match claim_error(m, staker@, now) {
                    Some(e) => r == Err::<u64, ErrorCode>(e) && final(pool)@ == old(pool)@,
                    None => {
                        let claimed = StakingAccount { last_claim_time: now->Ok_0, ..acc };
                        if acc.accumulated_rewards + rewards > u64::MAX {
                            r == Err::<u64, ErrorCode>(mi_err(MiningError::ArithmeticOverflow))
                                && final(pool)@ == (PoolView {
                                liquidity_mining: MiningView {
                                    staking_accounts: s.update(k, claimed),
                                    ..m
                                },
                                ..old(pool)@
                            })
                        } else {
                            r == Ok::<u64, ErrorCode>(rewards) && final(pool)@ == (PoolView {
                                liquidity_mining: MiningView {
                                    staking_accounts: s.update(
                                        k,
                                        StakingAccount {
                                            accumulated_rewards: (acc.accumulated_rewards
                                                + rewards) as u64,
                                            ..claimed
                                        },
                                    ),
                                    ..m
                                },
                                ..old(pool)@
                            })
                        }
                    },
                }
            }),
    {
        let k = match find_stake(&pool.liquidity_mining.staking_accounts, staker) {
            Some(k) => k,
            None => return Err(MiningError::StakeNotFound.into()),
        };
        let account = pool.liquidity_mining.staking_accounts[k];
        let current_time = now?;
        if current_time.checked_sub(account.last_claim_time).is_none() {
            return Err(MiningError::ArithmeticOverflow.into());
        }
        let rewards = if pool.liquidity_mining.total_staked > 0 {
            accrued
        } else {
            0
        };
        let claimed = StakingAccount { last_claim_time: current_time, ..account };
        pool.liquidity_mining.staking_accounts.set(k, claimed);
        let total = match account.accumulated_rewards.checked_add(rewards) {
            Some(v) => v,
            None => return Err(MiningError::ArithmeticOverflow.into()),
        };
        pool.liquidity_mining.staking_accounts.set(
            k,
            StakingAccount { accumulated_rewards: total, ..claimed },
        );
        Ok(rewards)
    }

    /// Staking info of `staker` at the time `now` (the clock's reading);
    /// `accrued` is the value of the reward formula, reported as the current
    /// rewards unless nothing is staked
    pub fn staking_info(
        pool: &SharedLiquidityPool,
        staker: &Pubkey,
        now: Result<i64, ErrorCode>,
        accrued: u64,
    ) -> (r: Result<StakingInfo, ErrorCode>)
        ensures
            ({
                let m = pool@.liquidity_mining;
                let acc = m.staking_accounts[stake_index(m.staking_accounts, staker@)];
                match claim_error(m, staker@, now) {
                    Some(e) => r == Err::<StakingInfo, ErrorCode>(e),
                    None => r == Ok::<StakingInfo, ErrorCode>(
                        StakingInfo {
                            staked_amount: acc.amount,
                            start_time: acc.start_time,
                            last_claim_time: acc.last_claim_time,
                            accumulated_rewards: acc.accumulated_rewards,
                            current_rewards: if m.total_staked > 0 {
                                accrued
                            } else {
                                0
                            },
                            total_staked: m.total_staked,
                            reward_rate: m.reward_rate,
                            staking_period: m.staking_period,
                        },
                    ),
                }
            }),
    {
        let k = match find_stake(&pool.liquidity_mining.staking_accounts, staker) {
            Some(k) => k,
            None => return Err(MiningError::StakeNotFound.into()),
        };
        let account = pool.liquidity_mining.staking_accounts[k];
        let current_time = now?;
        if current_time.checked_sub(account.last_claim_time).is_none() {
            return Err(MiningError::ArithmeticOverflow.into());
        }
        let current_rewards = if pool.liquidity_mining.total_staked > 0 {
            accrued
        } else {
            0
        };
        Ok(
            StakingInfo {
                staked_amount: account.amount,
                start_time: account.start_time,
                last_claim_time: account.last_claim_time,
                accumulated_rewards: account.accumulated_rewards,
                current_rewards,
                total_staked: pool.liquidity_mining.total_staked,
                reward_rate: pool.liquidity_mining.reward_rate,
                staking_period: pool.liquidity_mining.staking_period,
            },
        )
    }
}

/// Outcome of `stake_tokens`: how `post` and `r` relate to `pre`.
pub open spec fn stake_outcome(
    pre: SharedLiquidityPool,
    post: SharedLiquidityPool,
    r: Result<(), ErrorCode>,
    staker: Pubkey,
    amount: u64,
    now: Result<i64, ErrorCode>,
) -> bool {
    ({
        let m = pre@.liquidity_mining;
        let s = m.staking_accounts;
        let m1 = MiningView { total_staked: (m.total_staked + amount) as u64, ..m };
        let k = stake_index(s, staker@);
        if amount == 0 {
            r == Err::<(), ErrorCode>(mi_err(MiningError::InsufficientStake)) && post@
                == pre@
        } else if m.total_staked + amount > u64::MAX {
            r == Err::<(), ErrorCode>(mi_err(MiningError::ArithmeticOverflow)) && post@ == pre@
        } else {
            match now {
                Err(e) => r == Err::<(), ErrorCode>(e) && post@ == (PoolView {
                    liquidity_mining: m1,
                    ..pre@
                }),
                Ok(t) => if has_stake(s, staker@) {
                    if s[k].amount + amount > u64::MAX {
                        r == Err::<(), ErrorCode>(mi_err(MiningError::ArithmeticOverflow))
                            && post@ == (PoolView {
                            liquidity_mining: m1,
                            ..pre@
                        })
                    } else {
                        r is Ok && post@ == (PoolView {
                            liquidity_mining: MiningView {
                                staking_accounts: s.update(
                                    k,
                                    StakingAccount {
                                        amount: (s[k].amount + amount) as u64,
                                        start_time: t,
                                        ..s[k]
                                    },
                                ),
                                ..m1
                            },
                            ..pre@
                        })
                    }
                } else {
                    r is Ok && post@ == (PoolView {
                        liquidity_mining: MiningView {
                            staking_accounts: s.push(
                                StakingAccount {
                                    staker: staker,
                                    amount,
                                    start_time: t,
                                    last_claim_time: t,
                                    accumulated_rewards: 0,
                                },
                            ),
                            ..m1
                        },
                        ..pre@
                    })
                },
            }
        }
    })
}

/// Outcome of `unstake_tokens`: how `post` and `r` relate to `pre`.
pub open spec fn unstake_outcome(
    pre: SharedLiquidityPool,
    post: SharedLiquidityPool,
    r: Result<(), ErrorCode>,
    staker: Pubkey,
    amount: u64,
    now: Result<i64, ErrorCode>,
) -> bool {
    ({
        let m = pre@.liquidity_mining;
        let s = m.staking_accounts;
        let k = stake_index(s, staker@);
        let acc = s[k];
        if !has_stake(s, staker@) {
            r == Err::<(), ErrorCode>(mi_err(MiningError::StakeNotFound)) && post@
                == pre@
        } else if amount > acc.amount {
            r == Err::<(), ErrorCode>(mi_err(MiningError::InsufficientStake)) && post@
                == pre@
        } else {
            match now {
                Err(e) => r == Err::<(), ErrorCode>(e) && post@ == pre@,
                Ok(t) => {
                    let reduced = s.update(
                        k,
                        StakingAccount { amount: (acc.amount - amount) as u64, ..acc },
                    );
                    if i64_sub_overflows(t, acc.start_time) {
                        r == Err::<(), ErrorCode>(mi_err(MiningError::ArithmeticOverflow))
                            && post@ == pre@
                    } else if t - acc.start_time < m.staking_period {
                        r == Err::<(), ErrorCode>(mi_err(MiningError::StakingPeriodNotEnded))
                            && post@ == pre@
                    } else if m.total_staked < amount {
                        r == Err::<(), ErrorCode>(mi_err(MiningError::ArithmeticOverflow))
                            && post@ == (PoolView {
                            liquidity_mining: MiningView { staking_accounts: reduced, ..m },
                            ..pre@
                        })
                    } else {
                        r is Ok && post@ == (PoolView {
                            liquidity_mining: MiningView {
                                total_staked: (m.total_staked - amount) as u64,
                                staking_accounts: if acc.amount == amount {
                                    without_staker(reduced, staker@)
                                } else {
                                    reduced
                                },
                                ..m
                            },
                            ..pre@
                        })
                    }
                },
            }
        }
    })
}

/// No two staking accounts belong to the same staker.
pub open spec fn stakers_unique(s: Seq<StakingAccount>) -> bool {
    forall|i: int, j: int|
        #![trigger s[i], s[j]]
        0 <= i < s.len() && 0 <= j < s.len() && i != j ==> s[i].staker@ != s[j].staker@
}

/// The mining state's books balance: `total_staked` is the sum of the
/// stakes, and each staker has at most one staking account.
pub open spec fn stakes_consistent(m: MiningView) -> bool {
    &&& m.total_staked == total_stake(m.staking_accounts)
    &&& stakers_unique(m.staking_accounts)
}

proof fn lemma_total_stake_update(s: Seq<StakingAccount>, k: int, x: StakingAccount)
    requires
        0 <= k < s.len(),
    ensures
        total_stake(s.update(k, x)) == total_stake(s) - s[k].amount + x.amount,
    decreases s.len(),
{
    let u = s.update(k, x);
    if k == s.len() - 1 {
        assert(u.drop_last() =~= s.drop_last());
    } else {
        lemma_total_stake_update(s.drop_last(), k, x);
        assert(u.drop_last() =~= s.drop_last().update(k, x));
    }
}

/// Dropping the accounts of `staker` keeps only accounts of `s` of other
/// stakers, and takes their stakes off the total; with unique stakers the
/// result has unique stakers too.
proof fn lemma_without_staker(s: Seq<StakingAccount>, staker: Seq<u8>)
    ensures
        forall|i: int|
            0 <= i < without_staker(s, staker).len() ==> exists|j: int|
                0 <= j < s.len() && #[trigger] without_staker(s, staker)[i] == s[j]
                    && s[j].staker@ != staker,
        stakers_unique(s) ==> stakers_unique(without_staker(s, staker)),
        stakers_unique(s) && has_stake(s, staker) ==> total_stake(without_staker(s, staker))
            == total_stake(s) - s[stake_index(s, staker)].amount,
        !has_stake(s, staker) ==> total_stake(without_staker(s, staker)) == total_stake(s),
    decreases s.len(),
{
    if s.len() > 0 {
        let d = s.drop_last();
        let w = without_staker(d, staker);
        lemma_without_staker(d, staker);
        let ws = without_staker(s, staker);
        if s.last().staker@ != staker {
            assert(ws == w.push(s.last()));
            assert(w.push(s.last()).drop_last() =~= w);
            assert(total_stake(ws) == total_stake(w) + s.last().amount);
            assert forall|i: int| 0 <= i < ws.len() implies exists|j: int|
                0 <= j < s.len() && #[trigger] ws[i] == s[j] && s[j].staker@ != staker by {
                if i < w.len() {
                    let j = choose|j: int| 0 <= j < d.len() && w[i] == d[j] && d[j].staker@ != staker;
                    assert(ws[i] == s[j]);
                } else {
                    assert(ws[i] == s[s.len() - 1]);
                }
            }
        } else {
            assert forall|i: int| 0 <= i < ws.len() implies exists|j: int|
                0 <= j < s.len() && #[trigger] ws[i] == s[j] && s[j].staker@ != staker by {
                let j = choose|j: int| 0 <= j < d.len() && w[i] == d[j] && d[j].staker@ != staker;
                assert(ws[i] == s[j]);
            }
        }
        if stakers_unique(s) {
            assert(stakers_unique(d)) by {
                assert forall|i: int, j: int|
                    0 <= i < d.len() && 0 <= j < d.len() && i != j implies #[trigger] d[i].staker@
                    != #[trigger] d[j].staker@ by {
                    assert(d[i] == s[i] && d[j] == s[j]);
                }
            }
            if s.last().staker@ != staker {
                assert forall|i: int, j: int|
                    0 <= i < ws.len() && 0 <= j < ws.len() && i != j implies #[trigger] ws[i].staker@
                    != #[trigger] ws[j].staker@ by {
                    if i < w.len() && j < w.len() {
                    } else if i < w.len() {
                        let a = choose|a: int| 0 <= a < d.len() && w[i] == d[a] && d[a].staker@ != staker;
                        assert(ws[i] == s[a] && ws[j] == s[s.len() - 1]);
                    } else {
                        let a = choose|a: int| 0 <= a < d.len() && w[j] == d[a] && d[a].staker@ != staker;
                        assert(ws[j] == s[a] && ws[i] == s[s.len() - 1]);
                    }
                }
            }
        }
        if has_stake(s, staker) {
            let k = stake_index(s, staker);
            assert(is_first_stake(s, staker, k)) by {
                let i0 = choose|i: int| 0 <= i < s.len() && (#[trigger] s[i]).staker@ == staker;
                lemma_first_stake_exists(s, staker, i0);
            }
            if s.last().staker@ == staker {
                if stakers_unique(s) {
                    assert(k == s.len() - 1);
                    assert(!has_stake(d, staker)) by {
                        if has_stake(d, staker) {
                            let i = choose|i: int| 0 <= i < d.len() && (#[trigger] d[i]).staker@ == staker;
                            assert(s[i].staker@ == s[s.len() - 1].staker@);
                        }
                    }
                }
            } else {
                assert(k < s.len() - 1);
                assert(has_stake(d, staker)) by {
                    assert(d[k] == s[k]);
                }
                let kd = stake_index(d, staker);
                assert(is_first_stake(d, staker, kd)) by {
                    lemma_first_stake_exists(d, staker, k);
                }
                assert(kd == k) by {
                    if kd < k {
                        assert(d[kd] == s[kd]);
                    } else if kd > k {
                        assert(d[k] == s[k]);
                    }
                }
                assert(ws == w.push(s.last()));
            }
        } else {
            assert(!has_stake(d, staker)) by {
                if has_stake(d, staker) {
                    let i = choose|i: int| 0 <= i < d.len() && (#[trigger] d[i]).staker@ == staker;
                    assert(s[i] == d[i]);
                }
            }
        }
    }
}

/// The first account of `staker` is the one `stake_index` names, when `i`
/// is one of theirs.
proof fn lemma_first_stake_exists(s: Seq<StakingAccount>, staker: Seq<u8>, i: int)
    requires
        0 <= i < s.len(),
        s[i].staker@ == staker,
    ensures
        is_first_stake(s, staker, stake_index(s, staker)),
    decreases i,
{
    if exists|j: int| 0 <= j < i && (#[trigger] s[j]).staker@ == staker {
        let j = choose|j: int| 0 <= j < i && (#[trigger] s[j]).staker@ == staker;
        lemma_first_stake_exists(s, staker, j);
    } else {
        assert(is_first_stake(s, staker, i));
    }
}

/// A successful stake keeps the books balanced: `total_staked` stays the sum
/// of the stakes, one account per staker.
pub proof fn law_stake_keeps_books(
    pre: SharedLiquidityPool,
    post: SharedLiquidityPool,
    staker: Pubkey,
    amount: u64,
    now: Result<i64, ErrorCode>,
)
    requires
        stake_outcome(pre, post, Ok(()), staker, amount, now),
        stakes_consistent(pre@.liquidity_mining),
    ensures
        stakes_consistent(post@.liquidity_mining),
{
    let m = pre@.liquidity_mining;
    let s = m.staking_accounts;
    if has_stake(s, staker@) {
        let k = stake_index(s, staker@);
        let i0 = choose|i: int| 0 <= i < s.len() && (#[trigger] s[i]).staker@ == staker@;
        lemma_first_stake_exists(s, staker@, i0);
        let t = now.unwrap();
        let x = StakingAccount { amount: (s[k].amount + amount) as u64, start_time: t, ..s[k] };
        lemma_total_stake_update(s, k, x);
        let u = s.update(k, x);
        assert forall|i: int, j: int|
            0 <= i < u.len() && 0 <= j < u.len() && i != j implies #[trigger] u[i].staker@
            != #[trigger] u[j].staker@ by {
            assert(s[i].staker@ != s[j].staker@);
        }
    } else {
        let t = now.unwrap();
        let x = StakingAccount {
            staker,
            amount,
            start_time: t,
            last_claim_time: t,
            accumulated_rewards: 0,
        };
        let u = s.push(x);
        assert(u.drop_last() =~= s);
        assert forall|i: int, j: int|
            0 <= i < u.len() && 0 <= j < u.len() && i != j implies #[trigger] u[i].staker@
            != #[trigger] u[j].staker@ by {
            if i < s.len() && j < s.len() {
                assert(s[i].staker@ != s[j].staker@);
            } else if i < s.len() {
                assert(u[i] == s[i]);
            } else {
                assert(u[j] == s[j]);
            }
        }
    }
}

/// A successful unstake keeps the books balanced: `total_staked` stays the
/// sum of the stakes, one account per staker.
pub proof fn law_unstake_keeps_books(
    pre: SharedLiquidityPool,
    post: SharedLiquidityPool,
    staker: Pubkey,
    amount: u64,
    now: Result<i64, ErrorCode>,
)
    requires
        unstake_outcome(pre, post, Ok(()), staker, amount, now),
        stakes_consistent(pre@.liquidity_mining),
    ensures
        stakes_consistent(post@.liquidity_mining),
{
    let m = pre@.liquidity_mining;
    let s = m.staking_accounts;
    let k = stake_index(s, staker@);
    let i0 = choose|i: int| 0 <= i < s.len() && (#[trigger] s[i]).staker@ == staker@;
    lemma_first_stake_exists(s, staker@, i0);
    let acc = s[k];
    let x = StakingAccount { amount: (acc.amount - amount) as u64, ..acc };
    let reduced = s.update(k, x);
    lemma_total_stake_update(s, k, x);
    assert forall|i: int, j: int|
        0 <= i < reduced.len() && 0 <= j < reduced.len() && i != j implies #[trigger] reduced[i].staker@
        != #[trigger] reduced[j].staker@ by {
        assert(s[i].staker@ != s[j].staker@);
    }
    if acc.amount == amount {
        assert(reduced[k].staker@ == staker@);
        lemma_first_stake_exists(reduced, staker@, k);
        let kr = stake_index(reduced, staker@);
        assert(kr == k) by {
            if kr != k {
                assert(reduced[kr].staker@ == staker@);
            }
        }
        lemma_without_staker(reduced, staker@);
    }
}

/// Outcome of `initialize_mining`: how `post` and `r` relate to `pre`.
pub open spec fn initialize_mining_outcome(
    pre: SharedLiquidityPool,
    post: SharedLiquidityPool,
    r: Result<(), ErrorCode>,
    reward_token: Pubkey,
    reward_rate: u64,
    staking_period: i64,
    now: Result<i64, ErrorCode>,
) -> bool {
    &&& (reward_rate == 0 ==> r == Err::<(), ErrorCode>(mi_err(MiningError::InvalidRewardRate))
        && post@ == pre@)
    &&& (reward_rate != 0 && staking_period <= 0 ==> r == Err::<(), ErrorCode>(
        mi_err(MiningError::InvalidStakingPeriod),
    ) && post@ == pre@)
    &&& (reward_rate != 0 && staking_period > 0 ==> match now {
        Err(e) => r == Err::<(), ErrorCode>(e) && post@ == pre@,
        Ok(t) => r is Ok && post@ == (PoolView {
            liquidity_mining: MiningView {
                reward_token,
                reward_rate,
                staking_period,
                total_staked: 0,
                last_reward_update: t,
                accumulated_rewards: 0,
                staking_accounts: Seq::empty(),
            },
            ..pre@
        }),
    })
}

} // verus!
