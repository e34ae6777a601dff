use crate::error::ErrorCode;
use crate::key::Pubkey;
use crate::math::lemma_u64_product_fits;
use crate::state::Account;
use crate::types::{LiquidityPosition, PoolView, SharedLiquidityPool};
use vstd::prelude::*;

verus! {

/// Represents a flash loan event
#[derive(Debug, Clone, Copy, PartialEq, Eq)]
pub struct FlashLoanEvent {
    /// Amount of tokens borrowed
    pub amount: u64,
    /// Token mint address
    pub token_mint: Pubkey,
    /// Fee charged for the loan
    pub fee: u64,
    /// Timestamp of the event
    pub timestamp: i64,
    /// Whether the loan was successful
    pub success: bool,
}

/// Sum of the shares of `positions`.
pub open spec fn total_shares(positions: Seq<LiquidityPosition>) -> int
    decreases positions.len(),
{
    if positions.len() == 0 {
        0
    } else {
        total_shares(positions.drop_last()) + positions.last().shares
    }
}

/// Share of `fee` owed to `position`, out of `total` shares.
pub open spec fn fee_share(position: LiquidityPosition, fee: u64, total: int) -> int {
    position.shares * fee / total
}

/// Paying `position` its share of `fee` overflows.
pub open spec fn payout_overflows(position: LiquidityPosition, fee: u64, total: int) -> bool {
    position.shares * fee > u64::MAX || position.accumulated_rewards + fee_share(position, fee, total)
        > u64::MAX
}

/// `position` paid its share of `fee`.
pub open spec fn paid(position: LiquidityPosition, fee: u64, total: int) -> LiquidityPosition {
    LiquidityPosition {
        accumulated_rewards: (position.accumulated_rewards + fee_share(position, fee, total)) as u64,
        ..position
    }
}

/// `positions` with the first `m` of them paid.
pub open spec fn pay_prefix(positions: Seq<LiquidityPosition>, m: int, fee: u64, total: int) -> Seq<
    LiquidityPosition,
> {
    Seq::new(
        positions.len(),
        |j: int| if j < m { paid(positions[j], fee, total) } else { positions[j] },
    )
}

/// `m` is the first position whose payout overflows.
pub open spec fn is_first_payout_overflow(
    positions: Seq<LiquidityPosition>,
    fee: u64,
    total: int,
    m: int,
) -> bool {
    &&& 0 <= m < positions.len()
    &&& payout_overflows(positions[m], fee, total)
    &&& forall|j: int| 0 <= j < m ==> !payout_overflows(#[trigger] positions[j], fee, total)
}

/// What sharing `fee` among `positions` in proportion to their shares does:
/// the positions and the outcome. On an overflow, the positions before the
/// failing one are paid and the rest are not.
pub open spec fn fee_distribution(positions: Seq<LiquidityPosition>, fee: u64) -> (
    Seq<LiquidityPosition>,
    Result<(), ErrorCode>,
) {
    let total = total_shares(positions);
    if total == 0 {
        (positions, Ok(()))
    } else if exists|j: int|
        0 <= j < positions.len() && payout_overflows(#[trigger] positions[j], fee, total) {
        let m = choose|m: int| is_first_payout_overflow(positions, fee, total, m);
        (pay_prefix(positions, m, fee, total), Err(ErrorCode::ArithmeticOverflow))
    } else {
        (pay_prefix(positions, positions.len() as int, fee, total), Ok(()))
    }
}

/// The pool's reserve of the token that a loan account owned by `owner`
/// borrows: token A when the owner names the pool's token A mint, else token B.
pub open spec fn loan_reserve(pool: PoolView, owner: Pubkey) -> u64 {
    if owner@ == pool.token_a_mint@ {
        pool.reserve_a
    } else {
        pool.reserve_b
    }
}

/// Fee on a loan of `amount` at `rate` basis points, rounded down, and at
/// least one token.
pub open spec fn loan_fee(amount: u64, rate: u16) -> u64 {
    let fee = (amount * rate / 10000int) as u64;
    if fee == 0 {
        1
    } else {
        fee
    }
}

/// Largest loan of a token of which the pool holds `reserve`, at
/// `percentage` percent of the reserve; `None` on overflow.
pub open spec fn loan_limit(reserve: u64, percentage: u8) -> Option<u64> {
    if reserve * percentage > u64::MAX {
        None
    } else {
        Some((reserve * percentage / 100) as u64)
    }
}

proof fn lemma_total_shares_step(s: Seq<LiquidityPosition>, i: int)
    requires
        0 <= i < s.len(),
    ensures
        total_shares(s.take(i + 1)) == total_shares(s.take(i)) + s[i].shares,
{
    assert(s.take(i + 1).drop_last() =~= s.take(i));
}

proof fn lemma_total_shares_nonneg(s: Seq<LiquidityPosition>)
    ensures
        0 <= total_shares(s),
    decreases s.len(),
{
    if s.len() > 0 {
        lemma_total_shares_nonneg(s.drop_last());
    }
}

proof fn lemma_total_shares_prefix(s: Seq<LiquidityPosition>, i: int)
    requires
        0 <= i <= s.len(),
    ensures
        total_shares(s.take(i)) <= total_shares(s),
        0 <= total_shares(s.take(i)),
    decreases s.len() - i,
{
    lemma_total_shares_nonneg(s.take(i));
    if i == s.len() {
        assert(s.take(i) =~= s);
    } else {
        lemma_total_shares_prefix(s, i + 1);
        lemma_total_shares_step(s, i);
    }
}

pub struct FlashLoanManager;

impl FlashLoanManager {
    /// The fee, raised to the minimum of one token.
    fn at_least_one(fee: u64) -> (r: u64)
        ensures
            r == if fee == 0 {
                1
            } else {
                fee
            },
    {
        if fee == 0 {
            1
        } else {
            fee
        }
    }

    /// Lend `amount` of the token that `token_account` stands for (its owner
    /// names the pool's mint): the pool must be active and not paused, the
    /// amount within the loan limit, and the reserve is debited. Returns the
    /// fee that the repayment must add, at least one token.
    pub fn start_flash_loan(pool: &mut SharedLiquidityPool, token_account: &Account, amount: u64) -> (r:
        Result<u64, ErrorCode>)
        ensures
            start_loan_outcome(*old(pool), *final(pool), r, *token_account, amount),
    {
        if !pool.is_active {
            return Err(ErrorCode::InvalidAccountData);
        }
        if pool.emergency_pause.is_paused {
            return Err(ErrorCode::InvalidAccountData);
        }
        let is_a = token_account.owner.same_as(&pool.token_a_mint);
        if !is_a && !token_account.owner.same_as(&pool.token_b_mint) {
            return Err(ErrorCode::InvalidAccountData);
        }
        let reserve = if is_a {
            pool.reserve_a
        } else {
            pool.reserve_b
        };
        let max_amount = match reserve.checked_mul(pool.max_flash_loan_percentage as u64) {
            Some(v) => v / 100,
            None => return Err(ErrorCode::ArithmeticOverflow),
        };
        if amount > max_amount {
            return Err(ErrorCode::InvalidArgument);
        }
        let fee = match amount.checked_mul(pool.flash_loan_fee as u64) {
            Some(v) => Self::at_least_one(v / 10000),
            None => return Err(ErrorCode::ArithmeticOverflow),
        };
        if is_a {
            pool.reserve_a = match pool.reserve_a.checked_sub(amount) {
                Some(v) => v,
                None => return Err(ErrorCode::ArithmeticOverflow),
            };
        } else {
            pool.reserve_b = match pool.reserve_b.checked_sub(amount) {
                Some(v) => v,
                None => return Err(ErrorCode::ArithmeticOverflow),
            };
        }
        Ok(fee)
    }

    /// The pool's reserve of the token that a loan to `token_account`
    /// borrows: token A when the account's owner is the pool's token A mint,
    /// else token B.
    pub fn reserve_for_loan(pool: &SharedLiquidityPool, token_account: &Account) -> (r: u64)
        ensures
            r == loan_reserve(pool@, token_account.owner),
    {
        if token_account.owner.same_as(&pool.token_a_mint) {
            pool.reserve_a
        } else {
            pool.reserve_b
        }
    }

    /// Settle a flash loan with fee `fee`: the reserve of the token that
    /// `token_account` stands for must be back at `reserve_before` (its value
    /// before the loan) plus the fee; the fee is then shared among the
    /// liquidity providers. A loan that was not repaid pays out nothing.
    pub fn finish_flash_loan(
        pool: &mut SharedLiquidityPool,
        token_account: &Account,
        reserve_before: u64,
        fee: u64,
    ) -> (r: Result<(), ErrorCode>)
        requires
            total_shares(old(pool)@.positions) <= u64::MAX,
        ensures
            finish_loan_outcome(*old(pool), *final(pool), r, *token_account, reserve_before, fee),
    {
        let due = match reserve_before.checked_add(fee) {
            Some(v) => v,
            None => return Err(ErrorCode::ArithmeticOverflow),
        };
        let reserve = Self::reserve_for_loan(pool, token_account);
        if reserve < due {
            return Err(ErrorCode::InvalidAccountData);
        }
        Self::distribute_fees(pool, fee)
    }

    /// Distributes `fee` to the liquidity providers in proportion to their shares
    pub fn distribute_fees(pool: &mut SharedLiquidityPool, fee: u64) -> (r: Result<(), ErrorCode>)
        requires
            total_shares(old(pool)@.positions) <= u64::MAX,
        ensures
            ({
                let d = fee_distribution(old(pool)@.positions, fee);
                r == d.1 && final(pool)@ == (PoolView { positions: d.0, ..old(pool)@ })
            }),
    {
        let ghost ps = pool.positions@;
        let n = pool.positions.len();
        let mut total: u64 = 0;
        let mut i: usize = 0;
        while i < n
            invariant
                0 <= i <= n,
                n == ps.len(),
                ps == pool.positions@,
                total == total_shares(ps.take(i as int)),
                total_shares(ps) <= u64::MAX,
            decreases n - i,
        {
            proof {
                lemma_total_shares_step(ps, i as int);
                lemma_total_shares_prefix(ps, i as int + 1);
            }
            total = total + pool.positions[i].shares;
            i = i + 1;
        }
        assert(ps.take(n as int) =~= ps);
        if total == 0 {
            assert(pool@ =~= PoolView { positions: ps, ..old(pool)@ });
            return Ok(());
        }
        let ghost tot = total as int;
        assert(pay_prefix(ps, 0, fee, tot) =~= ps);
        let mut i: usize = 0;
        while i < n
            invariant
                0 <= i <= n,
                n == ps.len(),
                ps == old(pool)@.positions,
                tot == total_shares(ps),
                total as int == tot,
                tot > 0,
                forall|j: int| 0 <= j < i ==> !payout_overflows(#[trigger] ps[j], fee, tot),
                pool@ == (PoolView { positions: pay_prefix(ps, i as int, fee, tot), ..old(pool)@ }),
            decreases n - i,
        {
            let position = pool.positions[i];
            assert(position == ps[i as int]);
            let share = match position.shares.checked_mul(fee) {
                Some(v) => v / total,
                None => {
                    proof {
                        Self::lemma_first_overflow(ps, fee, tot, i as int);
                    }
                    return Err(ErrorCode::ArithmeticOverflow);
                },
            };
            let rewards = match position.accumulated_rewards.checked_add(share) {
                Some(v) => v,
                None => {
                    proof {
                        Self::lemma_first_overflow(ps, fee, tot, i as int);
                    }
                    return Err(ErrorCode::ArithmeticOverflow);
                },
            };
            pool.positions.set(i, LiquidityPosition { accumulated_rewards: rewards, ..position });
            assert(pool.positions@ =~= pay_prefix(ps, i as int + 1, fee, tot));
            i = i + 1;
        }
        assert(!exists|j: int| 0 <= j < ps.len() && payout_overflows(#[trigger] ps[j], fee, tot));
        Ok(())
    }

    proof fn lemma_first_overflow(ps: Seq<LiquidityPosition>, fee: u64, tot: int, i: int)
        requires
            0 <= i < ps.len(),
            payout_overflows(ps[i], fee, tot),
            forall|j: int| 0 <= j < i ==> !payout_overflows(#[trigger] ps[j], fee, tot),
        ensures
            is_first_payout_overflow(ps, fee, tot, i),
            (choose|m: int| is_first_payout_overflow(ps, fee, tot, m)) == i,
    {
        assert(is_first_payout_overflow(ps, fee, tot, i));
        let m = choose|m: int| is_first_payout_overflow(ps, fee, tot, m);
        assert(is_first_payout_overflow(ps, fee, tot, m));
        if m < i {
            assert(!payout_overflows(ps[m], fee, tot));
        } else if m > i {
            assert(!payout_overflows(ps[i], fee, tot));
        }
    }

    /// Get flash loan limits for a pool: the largest loan of token A and of
    /// token B, zero where the limit overflows
    pub fn get_flash_loan_limits(pool: &SharedLiquidityPool) -> (r: (u64, u64))
        ensures
            r.0 == match loan_limit(pool.reserve_a, pool.max_flash_loan_percentage) {
                Some(v) => v,
                None => 0,
            },
            r.1 == match loan_limit(pool.reserve_b, pool.max_flash_loan_percentage) {
                Some(v) => v,
                None => 0,
            },
    {
        let max_a = match pool.reserve_a.checked_mul(pool.max_flash_loan_percentage as u64) {
            Some(v) => v / 100,
            None => 0,
        };
        let max_b = match pool.reserve_b.checked_mul(pool.max_flash_loan_percentage as u64) {
            Some(v) => v / 100,
            None => 0,
        };
        (max_a, max_b)
    }

    /// Calculates the fee for a flash loan of `amount`: the pool's flash
    /// loan fee rate (0.09% by default) of the amount, and at least one token
    pub fn calculate_fee(pool: &SharedLiquidityPool, amount: u64) -> (r: Result<u64, ErrorCode>)
        ensures
            amount * pool.flash_loan_fee > u64::MAX ==> r == Err::<u64, ErrorCode>(
                ErrorCode::ArithmeticOverflow,
            ),
            amount * pool.flash_loan_fee <= u64::MAX ==> r == Ok::<u64, ErrorCode>(
                loan_fee(amount, pool.flash_loan_fee),
            ),
    {
        match amount.checked_mul(pool.flash_loan_fee as u64) {
            Some(v) => Ok(Self::at_least_one(v / 10000)),
            None => Err(ErrorCode::ArithmeticOverflow),
        }
    }
}

/// Sum of the rewards accumulated by `positions`.
pub open spec fn total_rewards(positions: Seq<LiquidityPosition>) -> int
    decreases positions.len(),
{
    if positions.len() == 0 {
        0
    } else {
        total_rewards(positions.drop_last()) + positions.last().accumulated_rewards
    }
}

/// Sum of the shares of `fee` owed to the first `m` positions.
pub open spec fn fee_paid(positions: Seq<LiquidityPosition>, m: nat, fee: u64, total: int) -> int
    decreases m,
{
    if m == 0 {
        0
    } else {
        fee_paid(positions, (m - 1) as nat, fee, total) + fee_share(positions[m - 1], fee, total)
    }
}

proof fn lemma_total_rewards_update(s: Seq<LiquidityPosition>, k: int, x: LiquidityPosition)
    requires
        0 <= k < s.len(),
    ensures
        total_rewards(s.update(k, x)) == total_rewards(s) - s[k].accumulated_rewards
            + x.accumulated_rewards,
    decreases s.len(),
{
    let u = s.update(k, x);
    if k == s.len() - 1 {
        assert(u.drop_last() =~= s.drop_last());
    } else {
        lemma_total_rewards_update(s.drop_last(), k, x);
        assert(u.drop_last() =~= s.drop_last().update(k, x));
    }
}

/// Paying the first `m` positions adds exactly their shares to the rewards.
proof fn lemma_pay_prefix_rewards(positions: Seq<LiquidityPosition>, m: nat, fee: u64, total: int)
    requires
        m <= positions.len(),
        0 < total,
        forall|j: int| 0 <= j < m ==> !payout_overflows(#[trigger] positions[j], fee, total),
    ensures
        total_rewards(pay_prefix(positions, m as int, fee, total)) == total_rewards(positions)
            + fee_paid(positions, m, fee, total),
    decreases m,
{
    if m == 0 {
        assert(pay_prefix(positions, 0, fee, total) =~= positions);
    } else {
        let k = m - 1;
        lemma_pay_prefix_rewards(positions, k as nat, fee, total);
        let before = pay_prefix(positions, k, fee, total);
        assert(pay_prefix(positions, m as int, fee, total) =~= before.update(
            k,
            paid(positions[k], fee, total),
        ));
        lemma_total_rewards_update(before, k, paid(positions[k], fee, total));
        assert(!payout_overflows(positions[k], fee, total));
        lemma_u64_product_fits(positions[k].shares, fee);
        vstd::arithmetic::div_mod::lemma_div_pos_is_pos(positions[k].shares * fee, total);
    }
}

/// `total` times the fee paid to the first `m` positions is at most the fee
/// times their shares.
proof fn lemma_fee_paid_bound(positions: Seq<LiquidityPosition>, m: nat, fee: u64, total: int)
    requires
        m <= positions.len(),
        0 < total,
    ensures
        total * fee_paid(positions, m, fee, total) <= fee * total_shares(positions.take(m as int)),
        0 <= fee_paid(positions, m, fee, total),
    decreases m,
{
    if m == 0 {
        assert(positions.take(0) =~= Seq::<LiquidityPosition>::empty());
    } else {
        let k = m - 1;
        lemma_fee_paid_bound(positions, k as nat, fee, total);
        lemma_total_shares_step(positions, k);
        let x = positions[k].shares * fee;
        lemma_u64_product_fits(positions[k].shares, fee);
        vstd::arithmetic::div_mod::lemma_fundamental_div_mod(x, total);
        vstd::arithmetic::div_mod::lemma_mod_bound(x, total);
        vstd::arithmetic::div_mod::lemma_div_pos_is_pos(x, total);
        let prev = fee_paid(positions, k as nat, fee, total);
        let q = fee_share(positions[k], fee, total);
        assert(total * q <= x);
        assert(total * (prev + q) == total * prev + total * q) by (nonlinear_arith);
        assert(fee * (total_shares(positions.take(k)) + positions[k].shares) == fee
            * total_shares(positions.take(k)) + positions[k].shares * fee) by (nonlinear_arith);
    }
}

proof fn lemma_has_first_overflow(ps: Seq<LiquidityPosition>, fee: u64, total: int, j: int)
    requires
        0 <= j < ps.len(),
        payout_overflows(ps[j], fee, total),
    ensures
        exists|m: int| is_first_payout_overflow(ps, fee, total, m),
    decreases j,
{
    if exists|k: int| 0 <= k < j && payout_overflows(#[trigger] ps[k], fee, total) {
        let k = choose|k: int| 0 <= k < j && payout_overflows(#[trigger] ps[k], fee, total);
        lemma_has_first_overflow(ps, fee, total, k);
    } else {
        assert(is_first_payout_overflow(ps, fee, total, j));
    }
}

/// Sharing a fee among the liquidity providers hands out at most the fee:
/// the rewards of all positions together never shrink and grow by no more
/// than `fee`, whether the sharing completes or stops at an overflow.
pub proof fn law_fee_distribution_bounded(positions: Seq<LiquidityPosition>, fee: u64)
    ensures
        total_rewards(positions) <= total_rewards(fee_distribution(positions, fee).0),
        total_rewards(fee_distribution(positions, fee).0) <= total_rewards(positions) + fee,
{
    let total = total_shares(positions);
    lemma_total_shares_nonneg(positions);
    if total != 0 {
        let m: int = if exists|j: int|
            0 <= j < positions.len() && payout_overflows(#[trigger] positions[j], fee, total) {
            let j = choose|j: int|
                0 <= j < positions.len() && payout_overflows(#[trigger] positions[j], fee, total);
            lemma_has_first_overflow(positions, fee, total, j);
            choose|m: int| is_first_payout_overflow(positions, fee, total, m)
        } else {
            positions.len() as int
        };
        assert(fee_distribution(positions, fee).0 == pay_prefix(positions, m, fee, total));
        lemma_pay_prefix_rewards(positions, m as nat, fee, total);
        lemma_fee_paid_bound(positions, m as nat, fee, total);
        lemma_total_shares_prefix(positions, m);
        let paid_out = fee_paid(positions, m as nat, fee, total);
        assert(fee * total_shares(positions.take(m)) <= fee * total) by (nonlinear_arith)
            requires
                total_shares(positions.take(m)) <= total,
        ;
        assert(paid_out <= fee) by (nonlinear_arith)
            requires
                total * paid_out <= fee * total,
                0 < total,
        ;
    }
}

/// Outcome of `start_flash_loan`: how `post` and `r` relate to `pre`.
pub open spec fn start_loan_outcome(
    pre: SharedLiquidityPool,
    post: SharedLiquidityPool,
    r: Result<u64, ErrorCode>,
    token_account: Account,
    amount: u64,
) -> bool {
    ({
        let p = pre@;
        let is_a = token_account.owner@ == p.token_a_mint@;
        let is_b = token_account.owner@ == p.token_b_mint@;
        let reserve = if is_a { p.reserve_a } else { p.reserve_b };
        if !p.is_active || p.emergency_pause.is_paused || (!is_a && !is_b) {
            r == Err::<u64, ErrorCode>(ErrorCode::InvalidAccountData) && post@ == p
        } else if loan_limit(reserve, p.max_flash_loan_percentage) is None {
            r == Err::<u64, ErrorCode>(ErrorCode::ArithmeticOverflow) && post@ == p
        } else if amount > loan_limit(reserve, p.max_flash_loan_percentage)->Some_0 {
            r == Err::<u64, ErrorCode>(ErrorCode::InvalidArgument) && post@ == p
        } else if amount * p.flash_loan_fee > u64::MAX || amount > reserve {
            r == Err::<u64, ErrorCode>(ErrorCode::ArithmeticOverflow) && post@ == p
        } else {
            &&& r == Ok::<u64, ErrorCode>(loan_fee(amount, p.flash_loan_fee))
            &&& post@ == if is_a {
                PoolView { reserve_a: (p.reserve_a - amount) as u64, ..p }
            } else {
                PoolView { reserve_b: (p.reserve_b - amount) as u64, ..p }
            }
        }
    })
}

/// Outcome of `finish_flash_loan`: how `post` and `r` relate to `pre`.
pub open spec fn finish_loan_outcome(
    pre: SharedLiquidityPool,
    post: SharedLiquidityPool,
    r: Result<(), ErrorCode>,
    token_account: Account,
    reserve_before: u64,
    fee: u64,
) -> bool {
    ({
        let p = pre@;
        let reserve = loan_reserve(p, token_account.owner);
        if reserve_before + fee > u64::MAX {
            r == Err::<(), ErrorCode>(ErrorCode::ArithmeticOverflow) && post@ == p
        } else if reserve < reserve_before + fee {
            r == Err::<(), ErrorCode>(ErrorCode::InvalidAccountData) && post@ == p
        } else {
            let d = fee_distribution(p.positions, fee);
            r == d.1 && post@ == (PoolView { positions: d.0, ..p })
        }
    })
}

/// A flash loan that settles successfully has been repaid: whatever the
/// borrower's code did to the pool in between, the reserve it borrowed from
/// is at least its value before the loan plus the fee, and the loan itself
/// took exactly the amount out of that reserve.
pub proof fn law_flash_loan_repaid(
    before: SharedLiquidityPool,
    lent: SharedLiquidityPool,
    returned: SharedLiquidityPool,
    settled: SharedLiquidityPool,
    token_account: Account,
    amount: u64,
    fee: u64,
)
    requires
        start_loan_outcome(before, lent, Ok(fee), token_account, amount),
        finish_loan_outcome(
            returned,
            settled,
            Ok(()),
            token_account,
            loan_reserve(before@, token_account.owner),
            fee,
        ),
    ensures
        loan_reserve(lent@, token_account.owner) == loan_reserve(before@, token_account.owner)
            - amount,
        fee == loan_fee(amount, before.flash_loan_fee),
        loan_reserve(settled@, token_account.owner) >= loan_reserve(before@, token_account.owner)
            + fee,
{
}

/// The loan limit is a share of the reserve of the token being borrowed.
/// A loan that is granted takes at most `max_flash_loan_percentage` percent
/// of that reserve; and every loan within that share is granted, on an
/// active, unpaused pool and for an account that names one of the pool's
/// mints, as long as the amounts involved fit in 64 bits. The granted loan
/// debits exactly that reserve, leaves the other one, and costs
/// `amount * flash_loan_fee / 10000` rounded down, but at least one token.
pub proof fn law_loan_limit_follows_borrowed_reserve(
    pre: SharedLiquidityPool,
    post: SharedLiquidityPool,
    r: Result<u64, ErrorCode>,
    token_account: Account,
    amount: u64,
)
    requires
        start_loan_outcome(pre, post, r, token_account, amount),
    ensures
        ({
            let p = pre@;
            let borrows_a = token_account.owner@ == p.token_a_mint@;
            let names_pool_mint = borrows_a || token_account.owner@ == p.token_b_mint@;
            let borrowed = if borrows_a { p.reserve_a as int } else { p.reserve_b as int };
            let pct = p.max_flash_loan_percentage as int;
            let rate = p.flash_loan_fee as int;
            &&& r is Ok ==> amount * 100 <= borrowed * pct && amount <= borrowed
            &&& (p.is_active && !p.emergency_pause.is_paused && names_pool_mint && borrowed * pct
                <= u64::MAX && amount * 100 <= borrowed * pct && amount <= borrowed && amount * rate
                <= u64::MAX) ==> {
                &&& r == Ok::<u64, ErrorCode>(
                    if amount * rate / 10000 == 0 {
                        1u64
                    } else {
                        (amount * rate / 10000) as u64
                    },
                )
                &&& if borrows_a {
                    post@.reserve_a == borrowed - amount && post@.reserve_b == p.reserve_b
                } else {
                    post@.reserve_b == borrowed - amount && post@.reserve_a == p.reserve_a
                }
            }
        }),
{
    let p = pre@;
    let is_a = token_account.owner@ == p.token_a_mint@;
    let reserve = if is_a { p.reserve_a } else { p.reserve_b };
    let pct = p.max_flash_loan_percentage;
    if reserve * pct <= u64::MAX {
        let lim = reserve * pct / 100;
        assert(amount <= lim <==> amount * 100 <= reserve * pct) by (nonlinear_arith)
            requires
                lim == reserve * pct / 100,
                0 <= reserve * pct,
        ;
    }
}

} // verus!
