use crate::constants::MAX_RANGES_PER_POSITION;
use crate::sort::{fee_class, is_fee_sort, sort_ranges_by_fees};
use crate::error::{cl_err, ConcentratedLiquidityError, ErrorCode};
use crate::key::Pubkey;
use crate::types::{
    position_views, EnhancedLiquidityPosition, LiquidityPosition, LiquidityRange, PoolView, PositionView,
    SharedLiquidityPool,
};
use vstd::prelude::*;

verus! {

/// Liquidity of amounts `amount_a`, `amount_b` placed in the price range
/// `[lower_price, upper_price]`: the smaller of the two per-token figures
/// `amount_a * upper / width` and `amount_b * lower / width` (rounded down),
/// which must fit in 64 bits.
pub open spec fn range_liquidity(amount_a: u64, amount_b: u64, lower_price: u64, upper_price: u64) -> Result<
    u64,
    ConcentratedLiquidityError,
> {
    if lower_price >= upper_price {
        Err(ConcentratedLiquidityError::ArithmeticOverflow)
    } else {
        let width = upper_price - lower_price;
        let liquidity_a = amount_a * upper_price / width;
        let liquidity_b = amount_b * lower_price / width;
        let liquidity = if liquidity_a <= liquidity_b { liquidity_a } else { liquidity_b };
        if liquidity > u64::MAX {
            Err(ConcentratedLiquidityError::ArithmeticOverflow)
        } else {
            Ok(liquidity as u64)
        }
    }
}

/// Token amounts that `liquidity` in the range `[lower_price, upper_price]`
/// stands for.
pub open spec fn range_token_amounts(liquidity: u64, lower_price: u64, upper_price: u64) -> Result<
    (u64, u64),
    ConcentratedLiquidityError,
> {
    if lower_price > upper_price || upper_price == 0 || lower_price == 0 {
        Err(ConcentratedLiquidityError::ArithmeticOverflow)
    } else {
        let width = upper_price - lower_price;
        Ok(
            (
                (liquidity * width / (upper_price as int)) as u64,
                (liquidity * width / (lower_price as int)) as u64,
            ),
        )
    }
}

/// The range `[lower, upper]` shares a price with `range` (bounds included).
pub open spec fn overlaps(range: LiquidityRange, lower: u64, upper: u64) -> bool {
    lower <= range.upper_price && upper >= range.lower_price
}

/// Some position of `s` has the id `id`.
pub open spec fn has_position(s: Seq<PositionView>, id: u64) -> bool {
    exists|i: int| 0 <= i < s.len() && #[trigger] s[i].position_id == id
}

/// `i` is the first index of a position with id `id`.
pub open spec fn is_first_position(s: Seq<PositionView>, id: u64, i: int) -> bool {
    &&& 0 <= i < s.len()
    &&& s[i].position_id == id
    &&& forall|j: int| 0 <= j < i ==> #[trigger] s[j].position_id != id
}

/// Index of the position with id `id` (meaningful when `has_position`).
pub open spec fn position_index(s: Seq<PositionView>, id: u64) -> int {
    choose|i: int| is_first_position(s, id, i)
}

/// `s` with the position `p` stored under its id: it replaces the position
/// with that id, or is appended when there is none.
pub open spec fn store_position(s: Seq<PositionView>, p: PositionView) -> Seq<PositionView> {
    if has_position(s, p.position_id) {
        s.update(position_index(s, p.position_id), p)
    } else {
        s.push(p)
    }
}

/// The pool with the position at index `k` replaced by `p`.
pub open spec fn with_position(pool: PoolView, k: int, p: PositionView) -> PoolView {
    PoolView { enhanced_positions: pool.enhanced_positions.update(k, p), ..pool }
}

/// The position of `pool` with id `id`.
pub open spec fn position_of(pool: PoolView, id: u64) -> PositionView {
    pool.enhanced_positions[position_index(pool.enhanced_positions, id)]
}

/// Sum of the liquidity of `ranges`.
pub open spec fn total_liquidity(ranges: Seq<LiquidityRange>) -> int
    decreases ranges.len(),
{
    if ranges.len() == 0 {
        0
    } else {
        total_liquidity(ranges.drop_last()) + ranges.last().liquidity
    }
}

/// Sum of the fees collected by `ranges`.
pub open spec fn total_fees(ranges: Seq<LiquidityRange>) -> int
    decreases ranges.len(),
{
    if ranges.len() == 0 {
        0
    } else {
        total_fees(ranges.drop_last()) + ranges.last().fees_collected
    }
}

/// The liquidity of `ranges` is at most the largest liquidity a range holds
/// times their number.
proof fn lemma_total_liquidity_bound(ranges: Seq<LiquidityRange>)
    ensures
        total_liquidity(ranges) <= ranges.len() * 0xffff_ffff_ffff_ffff,
    decreases ranges.len(),
{
    if ranges.len() > 0 {
        lemma_total_liquidity_bound(ranges.drop_last());
    }
}

/// Index of the enhanced position with id `position_id`.
pub(crate) fn find_position(pool: &SharedLiquidityPool, position_id: u64) -> (r: Option<usize>)
    ensures
        r is None <==> !has_position(pool@.enhanced_positions, position_id),
        r matches Some(k) ==> is_first_position(pool@.enhanced_positions, position_id, k as int)
            && k == position_index(pool@.enhanced_positions, position_id),
{
    let ghost s = pool@.enhanced_positions;
    let mut i: usize = 0;
    while i < pool.enhanced_positions.len()
        invariant
            0 <= i <= pool.enhanced_positions.len(),
            s == pool@.enhanced_positions,
            s.len() == pool.enhanced_positions.len(),
            forall|j: int| 0 <= j < i ==> #[trigger] s[j].position_id != position_id,
        decreases pool.enhanced_positions.len() - i,
    {
        assert(s[i as int] == pool.enhanced_positions[i as int]@);
        if pool.enhanced_positions[i].position_id == position_id {
            assert(is_first_position(s, position_id, i as int));
            let ghost k = position_index(s, position_id);
            assert(is_first_position(s, position_id, k));
            assert(k == i) by {
                if k < i {
                    assert(s[k].position_id != position_id);
                } else if k > i {
                    assert(s[i as int].position_id != position_id);
                }
            }
            return Some(i);
        }
        i = i + 1;
    }
    None
}

/// When some position has the id `id`, `position_index` names the first one.
pub proof fn lemma_first_position(s: Seq<PositionView>, id: u64)
    requires
        has_position(s, id),
    ensures
        is_first_position(s, id, position_index(s, id)),
    decreases s.len(),
{
    let i = choose|i: int| 0 <= i < s.len() && #[trigger] s[i].position_id == id;
    if exists|j: int| 0 <= j < i && #[trigger] s[j].position_id == id {
        let j = choose|j: int| 0 <= j < i && #[trigger] s[j].position_id == id;
        let t = s.take(i);
        assert(t[j].position_id == id);
        lemma_first_position(t, id);
        let k = position_index(t, id);
        assert(is_first_position(t, id, k));
        assert forall|m: int| 0 <= m < k implies #[trigger] s[m].position_id != id by {
            assert(t[m] == s[m]);
        }
        assert(t[k] == s[k]);
        assert(is_first_position(s, id, k));
    } else {
        assert(is_first_position(s, id, i));
    }
}

/// A new position holding one range.
pub open spec fn new_position(
    owner: Pubkey,
    liquidity: u64,
    amount_a: u64,
    amount_b: u64,
    lower_price: u64,
    upper_price: u64,
    now: i64,
    id: u64,
) -> PositionView {
    PositionView {
        base_position: LiquidityPosition {
            shares: liquidity,
            last_claim_time: now,
            accumulated_rewards: 0,
            owner,
            id,
        },
        ranges: seq![new_range(lower_price, upper_price, liquidity, amount_a, amount_b, now)],
        position_id: id,
        created_at: now,
        updated_at: now,
    }
}

/// A new range holding the deposit `amount_a`, `amount_b`; its price bounds
/// are cut to 32 bits.
pub open spec fn new_range(
    lower_price: u64,
    upper_price: u64,
    liquidity: u64,
    amount_a: u64,
    amount_b: u64,
    now: i64,
) -> LiquidityRange {
    LiquidityRange {
        lower_price: lower_price as u32,
        upper_price: upper_price as u32,
        liquidity,
        token_a_amount: amount_a,
        token_b_amount: amount_b,
        fees_collected: 0,
        last_update: now,
    }
}

/// Stores `position` under its id, replacing the position of that id if there is one.
pub(crate) fn store_enhanced(pool: &mut SharedLiquidityPool, position: EnhancedLiquidityPosition)
    ensures
        final(pool)@ == (PoolView {
            enhanced_positions: store_position(old(pool)@.enhanced_positions, position@),
            ..old(pool)@
        }),
{
    let ghost old_views = pool@.enhanced_positions;
    let ghost pv = position@;
    match find_position(pool, position.position_id) {
        Some(k) => {
            pool.enhanced_positions.set(k, position);
            assert(pool@.enhanced_positions =~= old_views.update(k as int, pv));
        },
        None => {
            pool.enhanced_positions.push(position);
            assert(pool@.enhanced_positions =~= old_views.push(pv));
        },
    }
}

/// Swap fee on `input_amount` at `fee` basis points.
pub open spec fn swap_fee_amount(input_amount: u64, fee: u64) -> u64 {
    (input_amount * fee / 10000) as u64
}

/// `range` credited with its share of `fee`, in proportion to its liquidity
/// out of `total`.
pub open spec fn credit(range: LiquidityRange, fee: u64, total: int) -> LiquidityRange {
    LiquidityRange {
        fees_collected: (range.fees_collected + ((fee * range.liquidity / total) as u64)) as u64,
        ..range
    }
}

/// Crediting `range` overflows its fee counter.
pub open spec fn credit_overflows(range: LiquidityRange, fee: u64, total: int) -> bool {
    range.fees_collected + ((fee * range.liquidity / total) as u64) > u64::MAX
}

/// `ranges` with the first `m` of them credited.
pub open spec fn credit_prefix(ranges: Seq<LiquidityRange>, m: int, fee: u64, total: int) -> Seq<
    LiquidityRange,
> {
    Seq::new(ranges.len(), |j: int| if j < m { credit(ranges[j], fee, total) } else { ranges[j] })
}

/// Crediting some range of `ranges` overflows.
pub open spec fn some_credit_overflows(ranges: Seq<LiquidityRange>, fee: u64, total: int) -> bool {
    exists|j: int| 0 <= j < ranges.len() && credit_overflows(#[trigger] ranges[j], fee, total)
}

/// `m` is the first range whose crediting overflows.
pub open spec fn is_first_credit_overflow(
    ranges: Seq<LiquidityRange>,
    fee: u64,
    total: int,
    m: int,
) -> bool {
    &&& 0 <= m < ranges.len()
    &&& credit_overflows(ranges[m], fee, total)
    &&& forall|j: int| 0 <= j < m ==> !credit_overflows(#[trigger] ranges[j], fee, total)
}

/// First range whose crediting overflows (meaningful when one does).
pub open spec fn first_credit_overflow(ranges: Seq<LiquidityRange>, fee: u64, total: int) -> int {
    choose|m: int| is_first_credit_overflow(ranges, fee, total, m)
}

/// What crediting the swap fee `fee` does to position `p`: each range gets a
/// share in proportion to its liquidity, the position's rewards grow by
/// `fee`, and the update time is the clock's reading `now`. On failure, the
/// updates made before it stay.
pub open spec fn fee_update(p: PositionView, fee: u64, now: Result<i64, ErrorCode>) -> (
    PositionView,
    Result<(), ErrorCode>,
) {
    let total = total_liquidity(p.ranges);
    if total == 0 {
        (p, Err(cl_err(ConcentratedLiquidityError::InsufficientLiquidity)))
    } else if some_credit_overflows(p.ranges, fee, total) {
        (
            PositionView {
                ranges: credit_prefix(
                    p.ranges,
                    first_credit_overflow(p.ranges, fee, total),
                    fee,
                    total,
                ),
                ..p
            },
            Err(cl_err(ConcentratedLiquidityError::ArithmeticOverflow)),
        )
    } else {
        let credited = PositionView {
            ranges: credit_prefix(p.ranges, p.ranges.len() as int, fee, total),
            ..p
        };
        if p.base_position.accumulated_rewards + fee > u64::MAX {
            (credited, Err(cl_err(ConcentratedLiquidityError::ArithmeticOverflow)))
        } else {
            let rewarded = PositionView {
                base_position: LiquidityPosition {
                    accumulated_rewards: (p.base_position.accumulated_rewards + fee) as u64,
                    ..p.base_position
                },
                ..credited
            };
            match now {
                Err(e) => (rewarded, Err(e)),
                Ok(t) => (PositionView { updated_at: t, ..rewarded }, Ok(())),
            }
        }
    }
}

proof fn lemma_take_total_liquidity(ranges: Seq<LiquidityRange>, i: int)
    requires
        0 <= i < ranges.len(),
    ensures
        total_liquidity(ranges.take(i + 1)) == total_liquidity(ranges.take(i)) + ranges[i].liquidity,
{
    assert(ranges.take(i + 1).drop_last() =~= ranges.take(i));
}

proof fn lemma_take_total_fees(ranges: Seq<LiquidityRange>, i: int)
    requires
        0 <= i < ranges.len(),
    ensures
        total_fees(ranges.take(i + 1)) == total_fees(ranges.take(i)) + ranges[i].fees_collected,
{
    assert(ranges.take(i + 1).drop_last() =~= ranges.take(i));
}

/// Sum of the liquidity of `ranges`, as a 128-bit number.
fn sum_liquidity(ranges: &Vec<LiquidityRange>) -> (total: u128)
    ensures
        total == total_liquidity(ranges@),
{
    let mut total: u128 = 0;
    let mut i: usize = 0;
    while i < ranges.len()
        invariant
            0 <= i <= ranges@.len(),
            total == total_liquidity(ranges@.take(i as int)),
        decreases ranges@.len() - i,
    {
        proof {
            lemma_take_total_liquidity(ranges@, i as int);
            lemma_total_liquidity_bound(ranges@.take(i as int + 1));
            assert((i as int + 1) * 0xffff_ffff_ffff_ffff <= 0x1_0000_0000_0000_0000int
                * 0xffff_ffff_ffff_ffff) by (nonlinear_arith)
                requires
                    i < 0x1_0000_0000_0000_0000int,
            ;
        }
        total = total + ranges[i].liquidity as u128;
        i = i + 1;
    }
    assert(ranges@.take(i as int) =~= ranges@);
    total
}

/// Replacing one position replaces its view among the views.
pub proof fn lemma_position_views_update(
    s: Seq<EnhancedLiquidityPosition>,
    k: int,
    x: EnhancedLiquidityPosition,
)
    requires
        0 <= k < s.len(),
    ensures
        position_views(s.update(k, x)) =~= position_views(s).update(k, x@),
{
}

/// `ranges` with their fees collected set to zero.
pub open spec fn zero_fees(ranges: Seq<LiquidityRange>) -> Seq<LiquidityRange> {
    Seq::new(ranges.len(), |j: int| LiquidityRange { fees_collected: 0, ..ranges[j] })
}

/// Some target range has its lower bound at or above its upper bound.
pub open spec fn has_invalid_target(targets: Seq<(u64, u64)>) -> bool {
    exists|i: int| 0 <= i < targets.len() && #[trigger] targets[i].0 >= targets[i].1
}

/// Two target ranges overlap: they share more than a bound (ranges that
/// only touch at a bound, such as 85..95 and 95..105, are apart).
pub open spec fn has_overlapping_targets(targets: Seq<(u64, u64)>) -> bool {
    exists|i: int, j: int|
        0 <= i < j < targets.len() && #[trigger] targets[i].0 < #[trigger] targets[j].1
            && targets[i].1 > targets[j].0
}

/// The ranges that replace a position's ranges on rebalancing.
pub open spec fn rebalanced_ranges(targets: Seq<(u64, u64)>, liquidity: u64, now: i64) -> Seq<
    LiquidityRange,
> {
    Seq::new(
        targets.len(),
        |i: int|
            LiquidityRange {
                lower_price: targets[i].0 as u32,
                upper_price: targets[i].1 as u32,
                liquidity,
                token_a_amount: held_amounts(liquidity, targets[i].0 as u32, targets[i].1 as u32).0,
                token_b_amount: held_amounts(liquidity, targets[i].0 as u32, targets[i].1 as u32).1,
                fees_collected: 0,
                last_update: now,
            },
    )
}

/// Token amounts that `liquidity` stands for in the range with the given
/// bounds, none where they stand for nothing.
pub open spec fn held_amounts(liquidity: u64, lower_price: u32, upper_price: u32) -> (u64, u64) {
    match range_token_amounts(liquidity, lower_price as u64, upper_price as u64) {
        Ok(amounts) => amounts,
        Err(_) => (0, 0),
    }
}

/// Number of ranges that collected fees.
pub open spec fn profitable_count(ranges: Seq<LiquidityRange>) -> nat
    decreases ranges.len(),
{
    if ranges.len() == 0 {
        0
    } else {
        profitable_count(ranges.drop_last()) + if ranges.last().fees_collected > 0 {
            1nat
        } else {
            0nat
        }
    }
}

/// `ranges` with the liquidity of those that collected fees set to `liquidity`.
pub open spec fn redistribute(ranges: Seq<LiquidityRange>, liquidity: u64) -> Seq<LiquidityRange> {
    Seq::new(
        ranges.len(),
        |j: int|
            if ranges[j].fees_collected > 0 {
                LiquidityRange { liquidity, ..ranges[j] }
            } else {
                ranges[j]
            },
    )
}

proof fn lemma_total_fees_prefix(s: Seq<LiquidityRange>, i: int)
    requires
        0 <= i <= s.len(),
    ensures
        total_fees(s.take(i)) <= total_fees(s),
    decreases s.len() - i,
{
    if i == s.len() {
        assert(s.take(i) =~= s);
    } else {
        lemma_total_fees_prefix(s, i + 1);
        lemma_take_total_fees(s, i);
    }
}

proof fn lemma_total_liquidity_prefix(s: Seq<LiquidityRange>, i: int)
    requires
        0 <= i <= s.len(),
    ensures
        total_liquidity(s.take(i)) <= total_liquidity(s),
    decreases s.len() - i,
{
    if i == s.len() {
        assert(s.take(i) =~= s);
    } else {
        lemma_total_liquidity_prefix(s, i + 1);
        lemma_take_total_liquidity(s, i);
    }
}

proof fn lemma_take_profitable(s: Seq<LiquidityRange>, i: int)
    requires
        0 <= i < s.len(),
    ensures
        profitable_count(s.take(i + 1)) == profitable_count(s.take(i)) + if s[i].fees_collected
            > 0 {
            1nat
        } else {
            0nat
        },
{
    assert(s.take(i + 1).drop_last() =~= s.take(i));
}

/// Copy of `ranges` with their fees set to zero.
fn zeroed_ranges(ranges: &Vec<LiquidityRange>) -> (out: Vec<LiquidityRange>)
    ensures
        out@ == zero_fees(ranges@),
{
    let mut out: Vec<LiquidityRange> = Vec::new();
    let mut i: usize = 0;
    while i < ranges.len()
        invariant
            0 <= i <= ranges@.len(),
            out@ =~= zero_fees(ranges@).take(i as int),
        decreases ranges@.len() - i,
    {
        out.push(LiquidityRange { fees_collected: 0, ..ranges[i] });
        assert(out@ =~= zero_fees(ranges@).take(i as int + 1));
        i = i + 1;
    }
    assert(zero_fees(ranges@).take(i as int) =~= zero_fees(ranges@));
    out
}

/// Sum of the fees of `ranges`, which must fit in 64 bits.
fn sum_fees(ranges: &Vec<LiquidityRange>) -> (total: u64)
    requires
        total_fees(ranges@) <= u64::MAX,
    ensures
        total == total_fees(ranges@),
{
    let mut total: u64 = 0;
    let mut i: usize = 0;
    while i < ranges.len()
        invariant
            0 <= i <= ranges@.len(),
            total == total_fees(ranges@.take(i as int)),
            total_fees(ranges@) <= u64::MAX,
        decreases ranges@.len() - i,
    {
        proof {
            lemma_take_total_fees(ranges@, i as int);
            lemma_total_fees_prefix(ranges@, i as int + 1);
        }
        total = total + ranges[i].fees_collected;
        i = i + 1;
    }
    assert(ranges@.take(i as int) =~= ranges@);
    total
}

/// Sum of the liquidity of `ranges`, which must fit in 64 bits.
fn sum_liquidity_u64(ranges: &Vec<LiquidityRange>) -> (total: u64)
    requires
        total_liquidity(ranges@) <= u64::MAX,
    ensures
        total == total_liquidity(ranges@),
{
    let mut total: u64 = 0;
    let mut i: usize = 0;
    while i < ranges.len()
        invariant
            0 <= i <= ranges@.len(),
            total == total_liquidity(ranges@.take(i as int)),
            total_liquidity(ranges@) <= u64::MAX,
        decreases ranges@.len() - i,
    {
        proof {
            lemma_take_total_liquidity(ranges@, i as int);
            lemma_total_liquidity_prefix(ranges@, i as int + 1);
        }
        total = total + ranges[i].liquidity;
        i = i + 1;
    }
    assert(ranges@.take(i as int) =~= ranges@);
    total
}

/// Copy of `ranges`.
fn copy_ranges(ranges: &Vec<LiquidityRange>) -> (out: Vec<LiquidityRange>)
    ensures
        out@ == ranges@,
{
    let mut out: Vec<LiquidityRange> = Vec::new();
    let mut i: usize = 0;
    while i < ranges.len()
        invariant
            0 <= i <= ranges@.len(),
            out@ =~= ranges@.take(i as int),
        decreases ranges@.len() - i,
    {
        out.push(ranges[i]);
        assert(out@ =~= ranges@.take(i as int + 1));
        i = i + 1;
    }
    assert(ranges@.take(i as int) =~= ranges@);
    out
}

/// Number of ranges that collected fees.
fn count_profitable(ranges: &Vec<LiquidityRange>) -> (count: u64)
    ensures
        count == profitable_count(ranges@),
{
    let mut count: u64 = 0;
    let mut i: usize = 0;
    while i < ranges.len()
        invariant
            0 <= i <= ranges@.len(),
            count == profitable_count(ranges@.take(i as int)),
            count <= i,
        decreases ranges@.len() - i,
    {
        proof {
            lemma_take_profitable(ranges@, i as int);
        }
        if ranges[i].fees_collected > 0 {
            count = count + 1;
        }
        i = i + 1;
    }
    assert(ranges@.take(i as int) =~= ranges@);
    count
}

/// The `num_ranges` ranges centred on `current_price`, each one step of
/// `current_price / num_ranges` wider on both sides than the last.
pub open spec fn optimal_ranges(current_price: u64, num_ranges: u8) -> Seq<(u64, u64)> {
    let step = current_price / (num_ranges as u64);
    Seq::new(
        num_ranges as nat,
        |i: int| ((current_price - step * (i + 1)) as u64, (current_price + step * (i + 1)) as u64),
    )
}

pub struct ConcentratedLiquidityManager;

impl ConcentratedLiquidityManager {
    /// Calculate liquidity for a range
    pub fn calculate_range_liquidity(
        amount_a: u64,
        amount_b: u64,
        lower_price: u64,
        upper_price: u64,
    ) -> (r: Result<u64, ConcentratedLiquidityError>)
        ensures
            r == range_liquidity(amount_a, amount_b, lower_price, upper_price),
    {
        let width = match upper_price.checked_sub(lower_price) {
            Some(w) => w,
            None => return Err(ConcentratedLiquidityError::ArithmeticOverflow),
        };
        if width == 0 {
            return Err(ConcentratedLiquidityError::ArithmeticOverflow);
        }
        assert((amount_a as u128) * (upper_price as u128) <= 0xffff_ffff_ffff_ffffu128
            * 0xffff_ffff_ffff_ffffu128) by (nonlinear_arith);
        assert((amount_b as u128) * (lower_price as u128) <= 0xffff_ffff_ffff_ffffu128
            * 0xffff_ffff_ffff_ffffu128) by (nonlinear_arith);
        let liquidity_a: u128 = (amount_a as u128) * (upper_price as u128) / (width as u128);
        let liquidity_b: u128 = (amount_b as u128) * (lower_price as u128) / (width as u128);
        let liquidity = if liquidity_a <= liquidity_b { liquidity_a } else { liquidity_b };
        if liquidity > u64::MAX as u128 {
            return Err(ConcentratedLiquidityError::ArithmeticOverflow);
        }
        Ok(liquidity as u64)
    }

    /// Token amounts that `liquidity` stands for in a range, none where they
    /// stand for nothing.
    fn held_amounts(liquidity: u64, lower_price: u32, upper_price: u32) -> (r: (u64, u64))
        ensures
            r == held_amounts(liquidity, lower_price, upper_price),
    {
        match Self::calculate_range_token_amounts(liquidity, lower_price as u64, upper_price as u64) {
            Ok(amounts) => amounts,
            Err(_) => (0, 0),
        }
    }

    /// Calculate token amounts for a range
    pub fn calculate_range_token_amounts(liquidity: u64, lower_price: u64, upper_price: u64) -> (r:
        Result<(u64, u64), ConcentratedLiquidityError>)
        ensures
            r == range_token_amounts(liquidity, lower_price, upper_price),
    {
        let width = match upper_price.checked_sub(lower_price) {
            Some(w) => w,
            None => return Err(ConcentratedLiquidityError::ArithmeticOverflow),
        };
        if upper_price == 0 || lower_price == 0 {
            return Err(ConcentratedLiquidityError::ArithmeticOverflow);
        }
        assert((liquidity as u128) * (width as u128) <= 0xffff_ffff_ffff_ffffu128
            * 0xffff_ffff_ffff_ffffu128) by (nonlinear_arith);
        let amount_a = ((liquidity as u128) * (width as u128) / (upper_price as u128)) as u64;
        let amount_b = ((liquidity as u128) * (width as u128) / (lower_price as u128)) as u64;
        Ok((amount_a, amount_b))
    }

    /// Check that the range `[new_lower, new_upper]` overlaps none of `ranges`
    pub fn check_range_overlap(ranges: &[LiquidityRange], new_lower: u64, new_upper: u64) -> (r:
        Result<(), ConcentratedLiquidityError>)
        ensures
            r is Ok <==> forall|i: int|
                0 <= i < ranges@.len() ==> !overlaps(#[trigger] ranges@[i], new_lower, new_upper),
            r is Err ==> r == Err::<(), ConcentratedLiquidityError>(
                ConcentratedLiquidityError::RangeOverlap,
            ),
    {
        let mut i: usize = 0;
        while i < ranges.len()
            invariant
                0 <= i <= ranges@.len(),
                forall|j: int| 0 <= j < i ==> !overlaps(#[trigger] ranges@[j], new_lower, new_upper),
            decreases ranges@.len() - i,
        {
            let range = ranges[i];
            if new_lower <= range.upper_price as u64 && new_upper >= range.lower_price as u64 {
                assert(overlaps(ranges@[i as int], new_lower, new_upper));
                return Err(ConcentratedLiquidityError::RangeOverlap);
            }
            i = i + 1;
        }
        Ok(())
    }
    /// Create a new concentrated liquidity position holding the price range
    /// `[lower_price, upper_price]`; `now` is the clock's reading. Returns the
    /// new position's id.
    pub fn create_position(
        pool: &mut SharedLiquidityPool,
        owner: Pubkey,
        amount_a: u64,
        amount_b: u64,
        lower_price: u64,
        upper_price: u64,
        now: Result<i64, ErrorCode>,
    ) -> (r: Result<u64, ErrorCode>)
        ensures
            create_position_outcome(*old(pool), *final(pool), r, owner, amount_a, amount_b, lower_price, upper_price, now),
    {
        if pool.emergency_pause.is_paused {
            return Err(ConcentratedLiquidityError::PoolPaused.into());
        }
        if lower_price >= upper_price {
            return Err(ConcentratedLiquidityError::InvalidPriceRange.into());
        }
        let liquidity = match Self::calculate_range_liquidity(
            amount_a,
            amount_b,
            lower_price,
            upper_price,
        ) {
            Ok(l) => l,
            Err(e) => return Err(e.into()),
        };
        let t = now?;
        let position_id = pool.next_position_id;
        let position = EnhancedLiquidityPosition {
            base_position: LiquidityPosition {
                shares: liquidity,
                last_claim_time: t,
                accumulated_rewards: 0,
                owner,
                id: position_id,
            },
            ranges: vec![
                LiquidityRange {
                    lower_price: lower_price as u32,
                    upper_price: upper_price as u32,
                    liquidity,
                    token_a_amount: amount_a,
                    token_b_amount: amount_b,
                    fees_collected: 0,
                    last_update: t,
                },
            ],
            position_id,
            created_at: t,
            updated_at: t,
        };
        assert(position@.ranges =~= seq![
            new_range(lower_price, upper_price, liquidity, amount_a, amount_b, t),
        ]);
        store_enhanced(pool, position);
        pool.next_position_id = match pool.next_position_id.checked_add(1) {
            Some(n) => n,
            None => return Err(ConcentratedLiquidityError::ArithmeticOverflow.into()),
        };
        Ok(position_id)
    }

    /// Add the price range `[lower_price, upper_price]` to an existing
    /// position; `now` is the clock's reading.
    pub fn add_range(
        pool: &mut SharedLiquidityPool,
        position_id: u64,
        amount_a: u64,
        amount_b: u64,
        lower_price: u64,
        upper_price: u64,
        now: Result<i64, ErrorCode>,
    ) -> (r: Result<(), ErrorCode>)
        ensures
            add_range_outcome(*old(pool), *final(pool), r, position_id, amount_a, amount_b, lower_price, upper_price, now),
    {
        if pool.emergency_pause.is_paused {
            return Err(ConcentratedLiquidityError::PoolPaused.into());
        }
        let k = match find_position(pool, position_id) {
            Some(k) => k,
            None => return Err(ConcentratedLiquidityError::PositionNotFound.into()),
        };
        let ghost old_views = pool@.enhanced_positions;
        let ghost p = old_views[k as int];
        assert(p == pool.enhanced_positions[k as int]@);
        if pool.enhanced_positions[k].ranges.len() >= MAX_RANGES_PER_POSITION as usize {
            return Err(ConcentratedLiquidityError::RangeLimitExceeded.into());
        }
        if lower_price >= upper_price {
            return Err(ConcentratedLiquidityError::InvalidPriceRange.into());
        }
        match Self::check_range_overlap(
            pool.enhanced_positions[k].ranges.as_slice(),
            lower_price,
            upper_price,
        ) {
            Ok(()) => {},
            Err(e) => return Err(e.into()),
        }
        let liquidity = match Self::calculate_range_liquidity(
            amount_a,
            amount_b,
            lower_price,
            upper_price,
        ) {
            Ok(l) => l,
            Err(e) => return Err(e.into()),
        };
        let t = now?;
        pool.enhanced_positions[k].ranges.push(
            LiquidityRange {
                lower_price: lower_price as u32,
                upper_price: upper_price as u32,
                liquidity,
                token_a_amount: amount_a,
                token_b_amount: amount_b,
                fees_collected: 0,
                last_update: t,
            },
        );
        pool.enhanced_positions[k].updated_at = t;
        assert(pool@.enhanced_positions =~= old_views.update(
            k as int,
            PositionView {
                ranges: p.ranges.push(
                    new_range(lower_price, upper_price, liquidity, amount_a, amount_b, t),
                ),
                updated_at: t,
                ..p
            },
        ));
        Ok(())
    }
    /// Remove the range at `range_index` from a position, returning the token
    /// amounts it stands for; `now` is the clock's reading.
    pub fn remove_range(
        pool: &mut SharedLiquidityPool,
        position_id: u64,
        range_index: usize,
        now: Result<i64, ErrorCode>,
    ) -> (r: Result<(u64, u64), ErrorCode>)
        ensures
            remove_range_outcome(*old(pool), *final(pool), r, position_id, range_index, now),
    {
        if pool.emergency_pause.is_paused {
            return Err(ConcentratedLiquidityError::PoolPaused.into());
        }
        let k = match find_position(pool, position_id) {
            Some(k) => k,
            None => return Err(ConcentratedLiquidityError::PositionNotFound.into()),
        };
        let ghost old_views = pool@.enhanced_positions;
        let ghost p = old_views[k as int];
        assert(p == pool.enhanced_positions[k as int]@);
        if range_index >= pool.enhanced_positions[k].ranges.len() {
            return Err(ConcentratedLiquidityError::InvalidRangeIndex.into());
        }
        let range = pool.enhanced_positions[k].ranges[range_index];
        match Self::calculate_range_token_amounts(
            range.liquidity,
            range.lower_price as u64,
            range.upper_price as u64,
        ) {
            Ok(_) => {},
            Err(e) => return Err(e.into()),
        }
        pool.enhanced_positions[k].ranges.remove(range_index);
        let ghost removed = PositionView { ranges: p.ranges.remove(range_index as int), ..p };
        assert(pool@.enhanced_positions =~= old_views.update(k as int, removed));
        let t = now?;
        pool.enhanced_positions[k].updated_at = t;
        assert(pool@.enhanced_positions =~= old_views.update(
            k as int,
            PositionView { updated_at: t, ..removed },
        ));
        Ok((range.token_a_amount, range.token_b_amount))
    }

    /// Update position fees for a swap of `input_amount`: the swap fee is
    /// shared among the position's ranges in proportion to their liquidity;
    /// `now` is the clock's reading.
    pub fn update_fees(
        pool: &mut SharedLiquidityPool,
        position_id: u64,
        input_amount: u64,
        output_amount: u64,
        now: Result<i64, ErrorCode>,
    ) -> (r: Result<(), ErrorCode>)
        ensures
            update_fees_outcome(*old(pool), *final(pool), r, position_id, input_amount, output_amount, now),
    {
        if pool.emergency_pause.is_paused {
            return Err(ConcentratedLiquidityError::PoolPaused.into());
        }
        let k = match find_position(pool, position_id) {
            Some(k) => k,
            None => return Err(ConcentratedLiquidityError::PositionNotFound.into()),
        };
        Self::update_fees_at(pool, k, input_amount, now)
    }

    /// Fee update of the position at index `k`.
    pub(crate) fn update_fees_at(
        pool: &mut SharedLiquidityPool,
        k: usize,
        input_amount: u64,
        now: Result<i64, ErrorCode>,
    ) -> (r: Result<(), ErrorCode>)
        requires
            k < old(pool).enhanced_positions.len(),
        ensures
            ({
                let u = fee_update(
                    old(pool)@.enhanced_positions[k as int],
                    swap_fee_amount(input_amount, old(pool).fee),
                    now,
                );
                r == u.1 && final(pool)@ == with_position(old(pool)@, k as int, u.0)
            }),
    {
        let ghost old_views = pool@.enhanced_positions;
        let ghost p = old_views[k as int];
        assert(p == pool.enhanced_positions[k as int]@);
        assert((input_amount as u128) * (pool.fee as u128) <= 0xffff_ffff_ffff_ffffu128
            * 0xffff_ffff_ffff_ffffu128) by (nonlinear_arith);
        let fee_amount = ((input_amount as u128) * (pool.fee as u128) / 10000) as u64;
        let total = sum_liquidity(&pool.enhanced_positions[k].ranges);
        if total == 0 {
            return Err(ConcentratedLiquidityError::InsufficientLiquidity.into());
        }
        let ghost tot = total as int;
        let n = pool.enhanced_positions[k].ranges.len();
        let mut i: usize = 0;
        assert(credit_prefix(p.ranges, 0, fee_amount, tot) =~= p.ranges);
        assert(old_views.update(k as int, p) =~= old_views);
        while i < n
            invariant
                0 <= i <= n,
                n == p.ranges.len(),
                old_views == old(pool)@.enhanced_positions,
                k < old_views.len(),
                p == old_views[k as int],
                k < pool.enhanced_positions.len(),
                tot == total_liquidity(p.ranges),
                total as int == tot,
                tot > 0,
                fee_amount == swap_fee_amount(input_amount, pool.fee),
                pool.fee == old(pool).fee,
                forall|j: int| 0 <= j < i ==> !credit_overflows(#[trigger] p.ranges[j], fee_amount, tot),
                pool.enhanced_positions[k as int]@ == (PositionView {
                    ranges: credit_prefix(p.ranges, i as int, fee_amount, tot),
                    ..p
                }),
                pool@ == with_position(
                    old(pool)@,
                    k as int,
                    PositionView { ranges: credit_prefix(p.ranges, i as int, fee_amount, tot), ..p },
                ),
            decreases n - i,
        {
            let ghost before = pool@.enhanced_positions;
            assert(pool.enhanced_positions[k as int].ranges@ == credit_prefix(
                p.ranges,
                i as int,
                fee_amount,
                tot,
            ));
            let range = pool.enhanced_positions[k].ranges[i];
            assert(range == p.ranges[i as int]);
            assert((fee_amount as u128) * (range.liquidity as u128) <= 0xffff_ffff_ffff_ffffu128
                * 0xffff_ffff_ffff_ffffu128) by (nonlinear_arith);
            let range_fee = ((fee_amount as u128) * (range.liquidity as u128) / total) as u64;
            let collected = match range.fees_collected.checked_add(range_fee) {
                Some(c) => c,
                None => {
                    proof {
                        let m = first_credit_overflow(p.ranges, fee_amount, tot);
                        assert(is_first_credit_overflow(p.ranges, fee_amount, tot, i as int));
                        assert(is_first_credit_overflow(p.ranges, fee_amount, tot, m));
                        assert(m == i) by {
                            if m < i {
                                assert(!credit_overflows(p.ranges[m], fee_amount, tot));
                            } else if m > i {
                                assert(!credit_overflows(p.ranges[i as int], fee_amount, tot));
                            }
                        }
                    }
                    return Err(ConcentratedLiquidityError::ArithmeticOverflow.into());
                },
            };
            let ghost vb = pool.enhanced_positions@;
            pool.enhanced_positions[k].ranges[i].fees_collected = collected;
            proof {
                assert(pool.enhanced_positions@ =~= vb.update(
                    k as int,
                    pool.enhanced_positions@[k as int],
                ));
                lemma_position_views_update(vb, k as int, pool.enhanced_positions@[k as int]);
            }
            assert(credit_prefix(p.ranges, i as int + 1, fee_amount, tot) =~= credit_prefix(
                p.ranges,
                i as int,
                fee_amount,
                tot,
            ).update(i as int, credit(p.ranges[i as int], fee_amount, tot)));
            let ghost target = PositionView {
                ranges: credit_prefix(p.ranges, i as int + 1, fee_amount, tot),
                ..p
            };
            assert(pool.enhanced_positions[k as int]@.ranges =~= target.ranges);
            assert(pool.enhanced_positions[k as int]@ =~= target);
            assert(pool@.enhanced_positions =~= old_views.update(k as int, target));
            assert(pool@ =~= with_position(old(pool)@, k as int, target));
            i = i + 1;
        }
        assert(!some_credit_overflows(p.ranges, fee_amount, tot));
        assert(pool.enhanced_positions[k as int]@.ranges == credit_prefix(
            p.ranges,
            p.ranges.len() as int,
            fee_amount,
            tot,
        ));
        let ghost credited = PositionView {
            ranges: credit_prefix(p.ranges, p.ranges.len() as int, fee_amount, tot),
            ..p
        };
        let rewards = match pool.enhanced_positions[k].base_position.accumulated_rewards.checked_add(
            fee_amount,
        ) {
            Some(v) => v,
            None => return Err(ConcentratedLiquidityError::ArithmeticOverflow.into()),
        };
        let ghost vb = pool.enhanced_positions@;
        pool.enhanced_positions[k].base_position.accumulated_rewards = rewards;
        proof {
            assert(pool.enhanced_positions@ =~= vb.update(k as int, pool.enhanced_positions@[k as int]));
            lemma_position_views_update(vb, k as int, pool.enhanced_positions@[k as int]);
        }
        let ghost rewarded = PositionView {
            base_position: LiquidityPosition {
                accumulated_rewards: rewards,
                ..p.base_position
            },
            ..credited
        };
        assert(pool.enhanced_positions[k as int]@ =~= rewarded);
        assert(pool@.enhanced_positions =~= old_views.update(k as int, rewarded));
        assert(pool@ =~= with_position(old(pool)@, k as int, rewarded));
        let t = now?;
        let ghost vb2 = pool.enhanced_positions@;
        pool.enhanced_positions[k].updated_at = t;
        proof {
            assert(pool.enhanced_positions@ =~= vb2.update(k as int, pool.enhanced_positions@[k as int]));
            lemma_position_views_update(vb2, k as int, pool.enhanced_positions@[k as int]);
        }
        assert(pool@.enhanced_positions =~= old_views.update(
            k as int,
            PositionView { updated_at: t, ..rewarded },
        ));
        Ok(())
    }
    /// Collect the fees of a position: the fees of its ranges plus its
    /// accumulated rewards, all reset to zero; `now` is the clock's reading.
    pub fn collect_fees(pool: &mut SharedLiquidityPool, position_id: u64, now: Result<
        i64,
        ErrorCode,
    >) -> (r: Result<u64, ErrorCode>)
        requires
            !old(pool).emergency_pause.is_paused && has_position(
                old(pool)@.enhanced_positions,
                position_id,
            ) ==> total_fees(position_of(old(pool)@, position_id).ranges) <= u64::MAX,
        ensures
            collect_fees_outcome(*old(pool), *final(pool), r, position_id, now),
    {
        if pool.emergency_pause.is_paused {
            return Err(ConcentratedLiquidityError::PoolPaused.into());
        }
        let k = match find_position(pool, position_id) {
            Some(k) => k,
            None => return Err(ConcentratedLiquidityError::PositionNotFound.into()),
        };
        let ghost old_views = pool@.enhanced_positions;
        let ghost p = old_views[k as int];
        assert(p == pool.enhanced_positions[k as int]@);
        let total_fees = sum_fees(&pool.enhanced_positions[k].ranges);
        let total_rewards = pool.enhanced_positions[k].base_position.accumulated_rewards;
        let zeroed = zeroed_ranges(&pool.enhanced_positions[k].ranges);
        let ghost vb = pool.enhanced_positions@;
        pool.enhanced_positions[k].ranges = zeroed;
        pool.enhanced_positions[k].base_position.accumulated_rewards = 0;
        proof {
            assert(pool.enhanced_positions@ =~= vb.update(k as int, pool.enhanced_positions@[k as int]));
            lemma_position_views_update(vb, k as int, pool.enhanced_positions@[k as int]);
        }
        let ghost zeroed_view = PositionView {
            ranges: zero_fees(p.ranges),
            base_position: LiquidityPosition { accumulated_rewards: 0, ..p.base_position },
            ..p
        };
        assert(pool@.enhanced_positions =~= old_views.update(k as int, zeroed_view));
        let t = now?;
        let ghost vb2 = pool.enhanced_positions@;
        pool.enhanced_positions[k].updated_at = t;
        proof {
            assert(pool.enhanced_positions@ =~= vb2.update(k as int, pool.enhanced_positions@[k as int]));
            lemma_position_views_update(vb2, k as int, pool.enhanced_positions@[k as int]);
        }
        assert(pool@.enhanced_positions =~= old_views.update(
            k as int,
            PositionView { updated_at: t, ..zeroed_view },
        ));
        match total_fees.checked_add(total_rewards) {
            Some(c) => Ok(c),
            None => Err(ConcentratedLiquidityError::ArithmeticOverflow.into()),
        }
    }

    /// Replace a position's ranges by `target_ranges`, sharing the position's
    /// liquidity equally among them; `now` is the clock's reading.
    pub fn rebalance_ranges(
        pool: &mut SharedLiquidityPool,
        position_id: u64,
        target_ranges: Vec<(u64, u64)>,
        now: Result<i64, ErrorCode>,
    ) -> (r: Result<(), ErrorCode>)
        requires
            !old(pool).emergency_pause.is_paused && has_position(
                old(pool)@.enhanced_positions,
                position_id,
            ) && !has_invalid_target(target_ranges@) && !has_overlapping_targets(target_ranges@)
                ==> total_liquidity(position_of(old(pool)@, position_id).ranges) <= u64::MAX,
        ensures
            rebalance_outcome(*old(pool), *final(pool), r, position_id, target_ranges@, now),
    {
        if pool.emergency_pause.is_paused {
            return Err(ConcentratedLiquidityError::PoolPaused.into());
        }
        let k = match find_position(pool, position_id) {
            Some(k) => k,
            None => return Err(ConcentratedLiquidityError::PositionNotFound.into()),
        };
        let ghost old_views = pool@.enhanced_positions;
        let ghost p = old_views[k as int];
        assert(p == pool.enhanced_positions[k as int]@);
        let n = target_ranges.len();
        let mut i: usize = 0;
        while i < n
            invariant
                0 <= i <= n,
                n == target_ranges@.len(),
                pool@ == old(pool)@,
                !old(pool).emergency_pause.is_paused,
                has_position(old(pool)@.enhanced_positions, position_id),
                forall|j: int| 0 <= j < i ==> #[trigger] target_ranges@[j].0 < target_ranges@[j].1,
            decreases n - i,
        {
            if target_ranges[i].0 >= target_ranges[i].1 {
                assert(has_invalid_target(target_ranges@));
                return Err(ConcentratedLiquidityError::InvalidPriceRange.into());
            }
            i = i + 1;
        }
        let mut i: usize = 0;
        while i < n
            invariant
                0 <= i <= n,
                n == target_ranges@.len(),
                pool@ == old(pool)@,
                !old(pool).emergency_pause.is_paused,
                has_position(old(pool)@.enhanced_positions, position_id),
                !has_invalid_target(target_ranges@),
                forall|a: int, b: int|
                    0 <= a < i && a < b < n ==> !(#[trigger] target_ranges@[a].0
                        < #[trigger] target_ranges@[b].1 && target_ranges@[a].1
                        > target_ranges@[b].0),
            decreases n - i,
        {
            let mut j: usize = i + 1;
            while j < n
                invariant
                    i < n,
                    i + 1 <= j <= n,
                    n == target_ranges@.len(),
                    pool@ == old(pool)@,
                    !old(pool).emergency_pause.is_paused,
                    has_position(old(pool)@.enhanced_positions, position_id),
                    !has_invalid_target(target_ranges@),
                    forall|a: int, b: int|
                        0 <= a < i && a < b < n ==> !(#[trigger] target_ranges@[a].0
                            < #[trigger] target_ranges@[b].1 && target_ranges@[a].1
                            > target_ranges@[b].0),
                    forall|b: int|
                        i < b < j ==> !(target_ranges@[i as int].0 < #[trigger] target_ranges@[b].1
                            && target_ranges@[i as int].1 > target_ranges@[b].0),
                decreases n - j,
            {
                if target_ranges[i].0 < target_ranges[j].1 && target_ranges[i].1
                    > target_ranges[j].0 {
                    assert(has_overlapping_targets(target_ranges@));
                    return Err(ConcentratedLiquidityError::RangeOverlap.into());
                }
                j = j + 1;
            }
            i = i + 1;
        }
        assert(!has_overlapping_targets(target_ranges@));
        let total_liquidity = sum_liquidity_u64(&pool.enhanced_positions[k].ranges);
        let mut new_ranges: Vec<LiquidityRange> = Vec::new();
        if n > 0 {
            let t = now?;
            let liquidity = total_liquidity / (n as u64);
            let mut i: usize = 0;
            while i < n
                invariant
                    0 <= i <= n,
                    n == target_ranges@.len(),
                    new_ranges@ =~= rebalanced_ranges(target_ranges@, liquidity, t).take(i as int),
                decreases n - i,
            {
                let lower = target_ranges[i].0 as u32;
                let upper = target_ranges[i].1 as u32;
                let (token_a_amount, token_b_amount) = Self::held_amounts(liquidity, lower, upper);
                new_ranges.push(
                    LiquidityRange {
                        lower_price: lower,
                        upper_price: upper,
                        liquidity,
                        token_a_amount,
                        token_b_amount,
                        fees_collected: 0,
                        last_update: t,
                    },
                );
                assert(new_ranges@ =~= rebalanced_ranges(target_ranges@, liquidity, t).take(
                    i as int + 1,
                ));
                i = i + 1;
            }
            assert(new_ranges@ =~= rebalanced_ranges(target_ranges@, liquidity, t));
        }
        let ghost vb = pool.enhanced_positions@;
        pool.enhanced_positions[k].ranges = new_ranges;
        proof {
            assert(pool.enhanced_positions@ =~= vb.update(k as int, pool.enhanced_positions@[k as int]));
            lemma_position_views_update(vb, k as int, pool.enhanced_positions@[k as int]);
        }
        let t = now?;
        let ghost vb2 = pool.enhanced_positions@;
        pool.enhanced_positions[k].updated_at = t;
        proof {
            assert(pool.enhanced_positions@ =~= vb2.update(k as int, pool.enhanced_positions@[k as int]));
            lemma_position_views_update(vb2, k as int, pool.enhanced_positions@[k as int]);
        }
        if n == 0 {
            assert(pool@.enhanced_positions =~= old_views.update(
                k as int,
                PositionView { ranges: Seq::empty(), updated_at: t, ..p },
            ));
        } else {
            assert(pool@.enhanced_positions =~= old_views.update(
                k as int,
                PositionView {
                    ranges: rebalanced_ranges(
                        target_ranges@,
                        (total_liquidity / (n as u64)) as u64,
                        t,
                    ),
                    updated_at: t,
                    ..p
                },
            ));
        }
        Ok(())
    }
    /// Reorder a position's ranges by fees collected (highest first) and
    /// share its liquidity equally among the ranges that collected fees;
    /// `now` is the clock's reading.
    pub fn optimize_range_fees(pool: &mut SharedLiquidityPool, position_id: u64, now: Result<
        i64,
        ErrorCode,
    >) -> (r: Result<(), ErrorCode>)
        requires
            !old(pool).emergency_pause.is_paused && has_position(
                old(pool)@.enhanced_positions,
                position_id,
            ) ==> total_liquidity(position_of(old(pool)@, position_id).ranges) <= u64::MAX,
        ensures
            optimize_outcome(*old(pool), *final(pool), r, position_id, now),
    {
        if pool.emergency_pause.is_paused {
            return Err(ConcentratedLiquidityError::PoolPaused.into());
        }
        let k = match find_position(pool, position_id) {
            Some(k) => k,
            None => return Err(ConcentratedLiquidityError::PositionNotFound.into()),
        };
        let ghost old_views = pool@.enhanced_positions;
        let ghost p = old_views[k as int];
        assert(p == pool.enhanced_positions[k as int]@);
        let total_liquidity = sum_liquidity_u64(&pool.enhanced_positions[k].ranges);
        let mut ranges = copy_ranges(&pool.enhanced_positions[k].ranges);
        sort_ranges_by_fees(&mut ranges);
        let ghost sorted = ranges@;
        let count = count_profitable(&ranges);
        if count == 0 {
            let ghost vb = pool.enhanced_positions@;
            pool.enhanced_positions[k].ranges = ranges;
            proof {
                assert(pool.enhanced_positions@ =~= vb.update(k as int, pool.enhanced_positions@[k as int]));
                lemma_position_views_update(vb, k as int, pool.enhanced_positions@[k as int]);
                assert(pool@.enhanced_positions =~= old_views.update(
                    k as int,
                    PositionView { ranges: sorted, ..p },
                ));
            }
            return Ok(());
        }
        let liquidity_per_range = total_liquidity / count;
        let n = ranges.len();
        let mut i: usize = 0;
        while i < n
            invariant
                0 <= i <= n,
                n == sorted.len(),
                ranges@.len() == n,
                forall|j: int| 0 <= j < i ==> #[trigger] ranges@[j] == redistribute(sorted, liquidity_per_range)[j],
                forall|j: int| i <= j < n ==> #[trigger] ranges@[j] == sorted[j],
            decreases n - i,
        {
            if ranges[i].fees_collected > 0 {
                let range = ranges[i];
                ranges.set(i, LiquidityRange { liquidity: liquidity_per_range, ..range });
            }
            i = i + 1;
        }
        assert(ranges@ =~= redistribute(sorted, liquidity_per_range));
        let ghost vb = pool.enhanced_positions@;
        pool.enhanced_positions[k].ranges = ranges;
        pool.enhanced_positions[k].base_position.shares = total_liquidity;
        proof {
            assert(pool.enhanced_positions@ =~= vb.update(k as int, pool.enhanced_positions@[k as int]));
            lemma_position_views_update(vb, k as int, pool.enhanced_positions@[k as int]);
        }
        let ghost q = PositionView {
            ranges: redistribute(sorted, liquidity_per_range),
            base_position: LiquidityPosition { shares: total_liquidity, ..p.base_position },
            ..p
        };
        assert(pool@.enhanced_positions =~= old_views.update(k as int, q));
        let t = now?;
        let ghost vb2 = pool.enhanced_positions@;
        pool.enhanced_positions[k].updated_at = t;
        proof {
            assert(pool.enhanced_positions@ =~= vb2.update(k as int, pool.enhanced_positions@[k as int]));
            lemma_position_views_update(vb2, k as int, pool.enhanced_positions@[k as int]);
        }
        assert(pool@.enhanced_positions =~= old_views.update(
            k as int,
            PositionView { updated_at: t, ..q },
        ));
        Ok(())
    }

    /// Get `num_ranges` ranges around `current_price`, each one price step
    /// wider than the last
    pub fn get_optimal_ranges(pool: &SharedLiquidityPool, current_price: u64, num_ranges: u8) -> (r:
        Result<Vec<(u64, u64)>, ConcentratedLiquidityError>)
        ensures
            num_ranges == 0 || num_ranges > MAX_RANGES_PER_POSITION ==> (r matches Err(e) && e
                == ConcentratedLiquidityError::RangeLimitExceeded),
            0 < num_ranges <= MAX_RANGES_PER_POSITION ==> {
                let step = current_price / (num_ranges as u64);
                if current_price + step * num_ranges > u64::MAX {
                    (r matches Err(e) && e == ConcentratedLiquidityError::ArithmeticOverflow)
                } else {
                    (r matches Ok(v) && v@ == optimal_ranges(current_price, num_ranges))
                }
            },
    {
        if num_ranges == 0 || num_ranges > MAX_RANGES_PER_POSITION {
            return Err(ConcentratedLiquidityError::RangeLimitExceeded);
        }
        let mut ranges: Vec<(u64, u64)> = Vec::new();
        let price_step = current_price / (num_ranges as u64);
        assert(price_step * num_ranges <= current_price) by (nonlinear_arith)
            requires
                price_step == current_price / (num_ranges as u64),
                num_ranges > 0,
        ;
        let mut i: u8 = 0;
        while i < num_ranges
            invariant
                0 <= i <= num_ranges <= 10,
                price_step == current_price / (num_ranges as u64),
                price_step * num_ranges <= current_price,
                ranges@ =~= optimal_ranges(current_price, num_ranges).take(i as int),
                i > 0 ==> current_price + price_step * i <= u64::MAX,
            decreases num_ranges - i,
        {
            assert(price_step * (i + 1) <= price_step * num_ranges) by (nonlinear_arith)
                requires
                    i < num_ranges,
            ;
            let offset = price_step * ((i + 1) as u64);
            let lower = current_price - offset;
            let upper = match current_price.checked_add(offset) {
                Some(u) => u,
                None => {
                    assert(price_step * (i + 1) <= price_step * num_ranges) by (nonlinear_arith)
                        requires
                            i < num_ranges,
                    ;
                    return Err(ConcentratedLiquidityError::ArithmeticOverflow);
                },
            };
            ranges.push((lower, upper));
            assert(ranges@ =~= optimal_ranges(current_price, num_ranges).take(i as int + 1));
            i = i + 1;
        }
        assert(ranges@ =~= optimal_ranges(current_price, num_ranges));
        Ok(ranges)
    }
}

/// Outcome of `create_position`: how `post` and `r` relate to `pre`.
pub open spec fn create_position_outcome(
    pre: SharedLiquidityPool,
    post: SharedLiquidityPool,
    r: Result<u64, ErrorCode>,
    owner: Pubkey,
    amount_a: u64,
    amount_b: u64,
    lower_price: u64,
    upper_price: u64,
    now: Result<i64, ErrorCode>,
) -> bool {
    &&& (pre.emergency_pause.is_paused ==> r == Err::<u64, ErrorCode>(
        cl_err(ConcentratedLiquidityError::PoolPaused),
    ) && post@ == pre@)
    &&& (!pre.emergency_pause.is_paused && lower_price >= upper_price ==> r == Err::<
        u64,
        ErrorCode,
    >(cl_err(ConcentratedLiquidityError::InvalidPriceRange)) && post@ == pre@)
    &&& (!pre.emergency_pause.is_paused && lower_price < upper_price && range_liquidity(
        amount_a,
        amount_b,
        lower_price,
        upper_price,
    ) is Err ==> r == Err::<u64, ErrorCode>(cl_err(ConcentratedLiquidityError::ArithmeticOverflow))
        && post@ == pre@)
    &&& (!pre.emergency_pause.is_paused && lower_price < upper_price && range_liquidity(
        amount_a,
        amount_b,
        lower_price,
        upper_price,
    ) is Ok ==> match now {
        Err(e) => r == Err::<u64, ErrorCode>(e) && post@ == pre@,
        Ok(t) => {
            let id = pre.next_position_id;
            let p = new_position(
                owner,
                range_liquidity(amount_a, amount_b, lower_price, upper_price)->Ok_0,
                amount_a,
                amount_b,
                lower_price,
                upper_price,
                t,
                id,
            );
            let stored = PoolView {
                enhanced_positions: store_position(pre@.enhanced_positions, p),
                ..pre@
            };
            if id == u64::MAX {
                r == Err::<u64, ErrorCode>(cl_err(ConcentratedLiquidityError::ArithmeticOverflow))
                    && post@ == stored
            } else {
                r == Ok::<u64, ErrorCode>(id) && post@ == (PoolView {
                    next_position_id: (id + 1) as u64,
                    ..stored
                })
            }
        },
    })
}

/// Outcome of `add_range`: how `post` and `r` relate to `pre`.
pub open spec fn add_range_outcome(
    pre: SharedLiquidityPool,
    post: SharedLiquidityPool,
    r: Result<(), ErrorCode>,
    position_id: u64,
    amount_a: u64,
    amount_b: u64,
    lower_price: u64,
    upper_price: u64,
    now: Result<i64, ErrorCode>,
) -> bool {
    ({
        let s = pre@.enhanced_positions;
        let p = position_of(pre@, position_id);
        if pre.emergency_pause.is_paused {
            r == Err::<(), ErrorCode>(cl_err(ConcentratedLiquidityError::PoolPaused))
                && post@ == pre@
        } else if !has_position(s, position_id) {
            r == Err::<(), ErrorCode>(cl_err(ConcentratedLiquidityError::PositionNotFound))
                && post@ == pre@
        } else if p.ranges.len() >= MAX_RANGES_PER_POSITION {
            r == Err::<(), ErrorCode>(cl_err(ConcentratedLiquidityError::RangeLimitExceeded))
                && post@ == pre@
        } else if lower_price >= upper_price {
            r == Err::<(), ErrorCode>(cl_err(ConcentratedLiquidityError::InvalidPriceRange))
                && post@ == pre@
        } else if exists|i: int|
            0 <= i < p.ranges.len() && overlaps(#[trigger] p.ranges[i], lower_price, upper_price) {
            r == Err::<(), ErrorCode>(cl_err(ConcentratedLiquidityError::RangeOverlap))
                && post@ == pre@
        } else if range_liquidity(amount_a, amount_b, lower_price, upper_price) is Err {
            r == Err::<(), ErrorCode>(cl_err(ConcentratedLiquidityError::ArithmeticOverflow))
                && post@ == pre@
        } else {
            match now {
                Err(e) => r == Err::<(), ErrorCode>(e) && post@ == pre@,
                Ok(t) => r is Ok && post@ == with_position(
                    pre@,
                    position_index(s, position_id),
                    PositionView {
                        ranges: p.ranges.push(
                            new_range(
                                lower_price,
                                upper_price,
                                range_liquidity(amount_a, amount_b, lower_price, upper_price)->Ok_0,
                                amount_a,
                                amount_b,
                                t,
                            ),
                        ),
                        updated_at: t,
                        ..p
                    },
                ),
            }
        }
    })
}

/// Outcome of `remove_range`: how `post` and `r` relate to `pre`.
pub open spec fn remove_range_outcome(
    pre: SharedLiquidityPool,
    post: SharedLiquidityPool,
    r: Result<(u64, u64), ErrorCode>,
    position_id: u64,
    range_index: usize,
    now: Result<i64, ErrorCode>,
) -> bool {
    ({
        let s = pre@.enhanced_positions;
        let k = position_index(s, position_id);
        let p = position_of(pre@, position_id);
        if pre.emergency_pause.is_paused {
            r == Err::<(u64, u64), ErrorCode>(cl_err(ConcentratedLiquidityError::PoolPaused))
                && post@ == pre@
        } else if !has_position(s, position_id) {
            r == Err::<(u64, u64), ErrorCode>(
                cl_err(ConcentratedLiquidityError::PositionNotFound),
            ) && post@ == pre@
        } else if range_index >= p.ranges.len() {
            r == Err::<(u64, u64), ErrorCode>(
                cl_err(ConcentratedLiquidityError::InvalidRangeIndex),
            ) && post@ == pre@
        } else {
            let range = p.ranges[range_index as int];
            match range_token_amounts(
                range.liquidity,
                range.lower_price as u64,
                range.upper_price as u64,
            ) {
                Err(e) => r == Err::<(u64, u64), ErrorCode>(cl_err(e)) && post@ == pre@,
                Ok(_) => {
                    let amounts = (range.token_a_amount, range.token_b_amount);
                    let removed = PositionView {
                        ranges: p.ranges.remove(range_index as int),
                        ..p
                    };
                    match now {
                        Err(e) => r == Err::<(u64, u64), ErrorCode>(e) && post@
                            == with_position(pre@, k, removed),
                        Ok(t) => r == Ok::<(u64, u64), ErrorCode>(amounts) && post@
                            == with_position(
                            pre@,
                            k,
                            PositionView { updated_at: t, ..removed },
                        ),
                    }
                },
            }
        }
    })
}

/// No two ranges of the list share a price (bounds included).
pub open spec fn ranges_apart(ranges: Seq<LiquidityRange>) -> bool {
    forall|i: int, j: int|
        #![trigger ranges[i], ranges[j]]
        0 <= i < ranges.len() && 0 <= j < ranges.len() && i != j ==> !overlaps(
            ranges[i],
            ranges[j].lower_price as u64,
            ranges[j].upper_price as u64,
        )
}

/// The first position with a given id is the only one `position_index` can
/// name.
proof fn lemma_position_index_unique(s: Seq<PositionView>, id: u64, k: int)
    requires
        is_first_position(s, id, k),
    ensures
        position_index(s, id) == k,
{
    let i = position_index(s, id);
    assert(is_first_position(s, id, i));
    if i < k {
        assert(s[i].position_id != id);
    } else if i > k {
        assert(s[k].position_id != id);
    }
}

/// A successful `add_range` keeps the ranges of the position apart from one
/// another and within `MAX_RANGES_PER_POSITION`, for price bounds that fit in
/// the 32 bits in which a range stores them.
pub proof fn law_add_range_keeps_ranges_apart(
    pre: SharedLiquidityPool,
    post: SharedLiquidityPool,
    position_id: u64,
    amount_a: u64,
    amount_b: u64,
    lower_price: u64,
    upper_price: u64,
    now: Result<i64, ErrorCode>,
)
    requires
        add_range_outcome(
            pre,
            post,
            Ok(()),
            position_id,
            amount_a,
            amount_b,
            lower_price,
            upper_price,
            now,
        ),
        upper_price <= u32::MAX,
        ranges_apart(position_of(pre@, position_id).ranges),
    ensures
        has_position(post@.enhanced_positions, position_id),
        ranges_apart(position_of(post@, position_id).ranges),
        position_of(post@, position_id).ranges.len() <= MAX_RANGES_PER_POSITION,
{
    let s = pre@.enhanced_positions;
    let p = position_of(pre@, position_id);
    lemma_first_position(s, position_id);
    let k = position_index(s, position_id);
    let t = now.unwrap();
    let nr = new_range(
        lower_price,
        upper_price,
        range_liquidity(amount_a, amount_b, lower_price, upper_price)->Ok_0,
        amount_a,
        amount_b,
        t,
    );
    let np = PositionView { ranges: p.ranges.push(nr), updated_at: t, ..p };
    let s2 = s.update(k, np);
    assert(post@.enhanced_positions == s2);
    assert(s2[k].position_id == position_id);
    assert forall|j: int| 0 <= j < k implies #[trigger] s2[j].position_id != position_id by {
        assert(s2[j] == s[j]);
    }
    assert(is_first_position(s2, position_id, k));
    lemma_position_index_unique(s2, position_id, k);
    assert(position_of(post@, position_id) == np);
    assert(nr.lower_price == lower_price && nr.upper_price == upper_price);
    let rs = np.ranges;
    let n = p.ranges.len();
    assert forall|i: int, j: int|
        0 <= i < rs.len() && 0 <= j < rs.len() && i != j implies !overlaps(
        #[trigger] rs[i],
        #[trigger] rs[j].lower_price as u64,
        rs[j].upper_price as u64,
    ) by {
        if i < n && j < n {
            assert(rs[i] == p.ranges[i] && rs[j] == p.ranges[j]);
        } else if i < n {
            assert(rs[j] == nr);
            assert(!overlaps(p.ranges[i], lower_price, upper_price));
        } else {
            assert(rs[i] == nr);
            assert(rs[j] == p.ranges[j]);
            assert(!overlaps(p.ranges[j], lower_price, upper_price));
        }
    }
}

/// The position stored under `p`'s id is `p`.
proof fn lemma_store_position_of(s: Seq<PositionView>, p: PositionView)
    ensures
        has_position(store_position(s, p), p.position_id),
        ({
            let t = store_position(s, p);
            t[position_index(t, p.position_id)] == p
        }),
{
    let id = p.position_id;
    let t = store_position(s, p);
    if has_position(s, id) {
        lemma_first_position(s, id);
        let k = position_index(s, id);
        assert forall|j: int| 0 <= j < k implies #[trigger] t[j].position_id != id by {
            assert(t[j] == s[j]);
        }
        assert(is_first_position(t, id, k));
        lemma_position_index_unique(t, id, k);
    } else {
        let k = s.len() as int;
        assert forall|j: int| 0 <= j < k implies #[trigger] t[j].position_id != id by {
            assert(t[j] == s[j]);
        }
        assert(t[k] == p);
        assert(is_first_position(t, id, k));
        lemma_position_index_unique(t, id, k);
    }
}

/// Removing the range that a new position was created with gives back the
/// tokens deposited into it, when its lower bound is positive and both
/// bounds fit in the 32 bits in which a range stores them.
pub proof fn law_remove_range_returns_deposit(
    pre: SharedLiquidityPool,
    mid: SharedLiquidityPool,
    post: SharedLiquidityPool,
    owner: Pubkey,
    amount_a: u64,
    amount_b: u64,
    lower_price: u64,
    upper_price: u64,
    id: u64,
    r: Result<(u64, u64), ErrorCode>,
    now: Result<i64, ErrorCode>,
    later: i64,
)
    requires
        create_position_outcome(
            pre,
            mid,
            Ok(id),
            owner,
            amount_a,
            amount_b,
            lower_price,
            upper_price,
            now,
        ),
        0 < lower_price,
        upper_price <= u32::MAX,
        remove_range_outcome(mid, post, r, id, 0, Ok(later)),
    ensures
        r == Ok::<(u64, u64), ErrorCode>((amount_a, amount_b)),
        position_of(post@, id).ranges.len() == 0,
{
    let t = now.unwrap();
    let liquidity = range_liquidity(amount_a, amount_b, lower_price, upper_price)->Ok_0;
    let p = new_position(owner, liquidity, amount_a, amount_b, lower_price, upper_price, t, id);
    lemma_store_position_of(pre@.enhanced_positions, p);
    assert(mid@.enhanced_positions == store_position(pre@.enhanced_positions, p));
    assert(position_of(mid@, id) == p);
    let range = p.ranges[0];
    assert(range.lower_price == lower_price && range.upper_price == upper_price);
    let s = mid@.enhanced_positions;
    let k = position_index(s, id);
    lemma_first_position(s, id);
    let removed = PositionView { ranges: p.ranges.remove(0), updated_at: later, ..p };
    let s2 = s.update(k, removed);
    assert(post@.enhanced_positions == s2);
    assert forall|j: int| 0 <= j < k implies #[trigger] s2[j].position_id != id by {
        assert(s2[j] == s[j]);
    }
    assert(is_first_position(s2, id, k));
    lemma_position_index_unique(s2, id, k);
}

/// Outcome of `update_fees`: how `post` and `r` relate to `pre`.
pub open spec fn update_fees_outcome(
    pre: SharedLiquidityPool,
    post: SharedLiquidityPool,
    r: Result<(), ErrorCode>,
    position_id: u64,
    input_amount: u64,
    output_amount: u64,
    now: Result<i64, ErrorCode>,
) -> bool {
    ({
        let s = pre@.enhanced_positions;
        if pre.emergency_pause.is_paused {
            r == Err::<(), ErrorCode>(cl_err(ConcentratedLiquidityError::PoolPaused))
                && post@ == pre@
        } else if !has_position(s, position_id) {
            r == Err::<(), ErrorCode>(cl_err(ConcentratedLiquidityError::PositionNotFound))
                && post@ == pre@
        } else {
            let u = fee_update(
                position_of(pre@, position_id),
                swap_fee_amount(input_amount, pre.fee),
                now,
            );
            r == u.1 && post@ == with_position(
                pre@,
                position_index(s, position_id),
                u.0,
            )
        }
    })
}

/// Outcome of `collect_fees`: how `post` and `r` relate to `pre`.
pub open spec fn collect_fees_outcome(
    pre: SharedLiquidityPool,
    post: SharedLiquidityPool,
    r: Result<u64, ErrorCode>,
    position_id: u64,
    now: Result<i64, ErrorCode>,
) -> bool {
    ({
        let s = pre@.enhanced_positions;
        let k = position_index(s, position_id);
        let p = position_of(pre@, position_id);
        let zeroed = PositionView {
            ranges: zero_fees(p.ranges),
            base_position: LiquidityPosition { accumulated_rewards: 0, ..p.base_position },
            ..p
        };
        let collected = total_fees(p.ranges) + p.base_position.accumulated_rewards;
        if pre.emergency_pause.is_paused {
            r == Err::<u64, ErrorCode>(cl_err(ConcentratedLiquidityError::PoolPaused))
                && post@ == pre@
        } else if !has_position(s, position_id) {
            r == Err::<u64, ErrorCode>(cl_err(ConcentratedLiquidityError::PositionNotFound))
                && post@ == pre@
        } else {
            match now {
                Err(e) => r == Err::<u64, ErrorCode>(e) && post@ == with_position(
                    pre@,
                    k,
                    zeroed,
                ),
                Ok(t) => post@ == with_position(
                    pre@,
                    k,
                    PositionView { updated_at: t, ..zeroed },
                ) && if collected > u64::MAX {
                    r == Err::<u64, ErrorCode>(
                        cl_err(ConcentratedLiquidityError::ArithmeticOverflow),
                    )
                } else {
                    r == Ok::<u64, ErrorCode>(collected as u64)
                },
            }
        }
    })
}

/// Outcome of `rebalance_ranges`: how `post` and `r` relate to `pre`.
pub open spec fn rebalance_outcome(
    pre: SharedLiquidityPool,
    post: SharedLiquidityPool,
    r: Result<(), ErrorCode>,
    position_id: u64,
    target_ranges: Seq<(u64, u64)>,
    now: Result<i64, ErrorCode>,
) -> bool {
    ({
        let s = pre@.enhanced_positions;
        let k = position_index(s, position_id);
        let p = position_of(pre@, position_id);
        let n = target_ranges.len();
        let total = total_liquidity(p.ranges);
        if pre.emergency_pause.is_paused {
            r == Err::<(), ErrorCode>(cl_err(ConcentratedLiquidityError::PoolPaused))
                && post@ == pre@
        } else if !has_position(s, position_id) {
            r == Err::<(), ErrorCode>(cl_err(ConcentratedLiquidityError::PositionNotFound))
                && post@ == pre@
        } else if has_invalid_target(target_ranges) {
            r == Err::<(), ErrorCode>(cl_err(ConcentratedLiquidityError::InvalidPriceRange))
                && post@ == pre@
        } else if has_overlapping_targets(target_ranges) {
            r == Err::<(), ErrorCode>(cl_err(ConcentratedLiquidityError::RangeOverlap))
                && post@ == pre@
        } else if n == 0 {
            let emptied = PositionView { ranges: Seq::empty(), ..p };
            match now {
                Err(e) => r == Err::<(), ErrorCode>(e) && post@ == with_position(
                    pre@,
                    k,
                    emptied,
                ),
                Ok(t) => r is Ok && post@ == with_position(
                    pre@,
                    k,
                    PositionView { updated_at: t, ..emptied },
                ),
            }
        } else {
            match now {
                Err(e) => r == Err::<(), ErrorCode>(e) && post@ == pre@,
                Ok(t) => r is Ok && post@ == with_position(
                    pre@,
                    k,
                    PositionView {
                        ranges: rebalanced_ranges(target_ranges, (total / n as int) as u64, t),
                        updated_at: t,
                        ..p
                    },
                ),
            }
        }
    })
}

/// Outcome of `optimize_range_fees`: how `post` and `r` relate to `pre`.
pub open spec fn optimize_outcome(
    pre: SharedLiquidityPool,
    post: SharedLiquidityPool,
    r: Result<(), ErrorCode>,
    position_id: u64,
    now: Result<i64, ErrorCode>,
) -> bool {
    ({
        let s = pre@.enhanced_positions;
        let k = position_index(s, position_id);
        let p = position_of(pre@, position_id);
        let total = total_liquidity(p.ranges);
        if pre.emergency_pause.is_paused {
            r == Err::<(), ErrorCode>(cl_err(ConcentratedLiquidityError::PoolPaused))
                && post@ == pre@
        } else if !has_position(s, position_id) {
            r == Err::<(), ErrorCode>(cl_err(ConcentratedLiquidityError::PositionNotFound))
                && post@ == pre@
        } else {
            exists|sorted: Seq<LiquidityRange>|
                #![trigger is_fee_sort(p.ranges, sorted)]
                is_fee_sort(p.ranges, sorted) && {
                    let count = profitable_count(sorted);
                    if count == 0 {
                        r is Ok && post@ == with_position(
                            pre@,
                            k,
                            PositionView { ranges: sorted, ..p },
                        )
                    } else {
                        let q = PositionView {
                            ranges: redistribute(sorted, (total / count as int) as u64),
                            base_position: LiquidityPosition {
                                shares: total as u64,
                                ..p.base_position
                            },
                            ..p
                        };
                        match now {
                            Err(e) => r == Err::<(), ErrorCode>(e) && post@
                                == with_position(pre@, k, q),
                            Ok(t) => r is Ok && post@ == with_position(
                                pre@,
                                k,
                                PositionView { updated_at: t, ..q },
                            ),
                        }
                    }
                }
        }
    })
}

/// The ids of the positions, in order.
pub open spec fn position_ids(s: Seq<PositionView>) -> Seq<u64> {
    s.map_values(|p: PositionView| p.position_id)
}

/// No two positions share an id.
pub open spec fn position_ids_unique(s: Seq<PositionView>) -> bool {
    forall|i: int, j: int|
        #![trigger s[i], s[j]]
        0 <= i < s.len() && 0 <= j < s.len() && i != j ==> s[i].position_id != s[j].position_id
}

/// Replacing a position by one with the same id keeps the ids.
pub proof fn lemma_same_id_update(s: Seq<PositionView>)
    ensures
        forall|k: int, q: PositionView|
            0 <= k < s.len() && q.position_id == s[k].position_id ==> #[trigger] position_ids(
                s.update(k, q),
            ) == position_ids(s),
{
    assert forall|k: int, q: PositionView|
        0 <= k < s.len() && q.position_id == s[k].position_id implies #[trigger] position_ids(
        s.update(k, q),
    ) == position_ids(s) by {
        assert(position_ids(s.update(k, q)) =~= position_ids(s));
    }
}

/// The fee update of a position keeps its id.
pub proof fn lemma_fee_update_id(p: PositionView, fee: u64, now: Result<i64, ErrorCode>)
    ensures
        fee_update(p, fee, now).0.position_id == p.position_id,
{
}

/// Operations on one position keep the ids of all positions as they are:
/// adding or removing a range, updating or collecting fees, rebalancing and
/// optimizing ranges. So no such operation can make two positions share an
/// id.
pub proof fn law_range_operations_keep_ids(
    pre: SharedLiquidityPool,
    post: SharedLiquidityPool,
    position_id: u64,
    amount_a: u64,
    amount_b: u64,
    lower_price: u64,
    upper_price: u64,
    range_index: usize,
    input_amount: u64,
    output_amount: u64,
    target_ranges: Seq<(u64, u64)>,
    r_unit: Result<(), ErrorCode>,
    r_pair: Result<(u64, u64), ErrorCode>,
    r_fees: Result<u64, ErrorCode>,
    now: Result<i64, ErrorCode>,
)
    ensures
        add_range_outcome(
            pre,
            post,
            r_unit,
            position_id,
            amount_a,
            amount_b,
            lower_price,
            upper_price,
            now,
        ) ==> position_ids(post@.enhanced_positions) == position_ids(pre@.enhanced_positions),
        remove_range_outcome(pre, post, r_pair, position_id, range_index, now) ==> position_ids(
            post@.enhanced_positions,
        ) == position_ids(pre@.enhanced_positions),
        update_fees_outcome(pre, post, r_unit, position_id, input_amount, output_amount, now)
            ==> position_ids(post@.enhanced_positions) == position_ids(pre@.enhanced_positions),
        collect_fees_outcome(pre, post, r_fees, position_id, now) ==> position_ids(
            post@.enhanced_positions,
        ) == position_ids(pre@.enhanced_positions),
        rebalance_outcome(pre, post, r_unit, position_id, target_ranges, now) ==> position_ids(
            post@.enhanced_positions,
        ) == position_ids(pre@.enhanced_positions),
        optimize_outcome(pre, post, r_unit, position_id, now) ==> position_ids(
            post@.enhanced_positions,
        ) == position_ids(pre@.enhanced_positions),
{
    let s = pre@.enhanced_positions;
    lemma_same_id_update(s);
    if has_position(s, position_id) {
        lemma_first_position(s, position_id);
    }
    let p = position_of(pre@, position_id);
    lemma_fee_update_id(p, swap_fee_amount(input_amount, pre.fee), now);
}

/// Creating a position keeps the ids apart: the new position replaces the
/// one with its id, if there is one, or comes after all others.
pub proof fn law_create_position_keeps_ids_unique(
    pre: SharedLiquidityPool,
    post: SharedLiquidityPool,
    r: Result<u64, ErrorCode>,
    owner: Pubkey,
    amount_a: u64,
    amount_b: u64,
    lower_price: u64,
    upper_price: u64,
    now: Result<i64, ErrorCode>,
)
    requires
        create_position_outcome(
            pre,
            post,
            r,
            owner,
            amount_a,
            amount_b,
            lower_price,
            upper_price,
            now,
        ),
        position_ids_unique(pre@.enhanced_positions),
    ensures
        position_ids_unique(post@.enhanced_positions),
{
    let s = pre@.enhanced_positions;
    let t = post@.enhanced_positions;
    if t != s {
        let id = pre.next_position_id;
        if has_position(s, id) {
            lemma_first_position(s, id);
            let k = position_index(s, id);
            assert forall|i: int, j: int|
                0 <= i < t.len() && 0 <= j < t.len() && i != j implies #[trigger] t[i].position_id
                != #[trigger] t[j].position_id by {
                if i != k && j != k {
                    assert(t[i] == s[i] && t[j] == s[j]);
                } else if i == k {
                    assert(t[j] == s[j] && s[k].position_id == id);
                    assert(s[j].position_id != s[k].position_id);
                } else {
                    assert(t[i] == s[i] && s[k].position_id == id);
                    assert(s[i].position_id != s[k].position_id);
                }
            }
        } else {
            assert forall|i: int, j: int|
                0 <= i < t.len() && 0 <= j < t.len() && i != j implies #[trigger] t[i].position_id
                != #[trigger] t[j].position_id by {
                if i < s.len() && j < s.len() {
                    assert(t[i] == s[i] && t[j] == s[j]);
                } else if i < s.len() {
                    assert(t[i] == s[i]);
                    assert(s[i].position_id != id);
                } else {
                    assert(t[j] == s[j]);
                    assert(s[j].position_id != id);
                }
            }
        }
    }
}

/// The ranges of `ranges` that collected fees, in order.
pub open spec fn profitable_ranges(ranges: Seq<LiquidityRange>) -> Seq<LiquidityRange> {
    ranges.filter(|r: LiquidityRange| r.fees_collected > 0)
}

proof fn lemma_total_liquidity_nonneg(ranges: Seq<LiquidityRange>)
    ensures
        total_liquidity(ranges) >= 0,
    decreases ranges.len(),
{
    if ranges.len() > 0 {
        lemma_total_liquidity_nonneg(ranges.drop_last());
    }
}

proof fn lemma_profitable_count_is_filter(s: Seq<LiquidityRange>)
    ensures
        profitable_count(s) == profitable_ranges(s).len(),
    decreases s.len(),
{
    reveal(Seq::filter);
    if s.len() > 0 {
        lemma_profitable_count_is_filter(s.drop_last());
    }
}

proof fn lemma_profitable_count_positive(s: Seq<LiquidityRange>, j: int)
    requires
        0 <= j < s.len(),
        s[j].fees_collected > 0,
    ensures
        profitable_count(s) > 0,
    decreases s.len(),
{
    if j < s.len() - 1 {
        assert(s.drop_last()[j] == s[j]);
        lemma_profitable_count_positive(s.drop_last(), j);
    }
}

/// Redistributing liquidity leaves the ranges without fees as they were and
/// the number of ranges with fees unchanged.
proof fn lemma_redistribute_classes(s: Seq<LiquidityRange>, liquidity: u64)
    ensures
        fee_class(redistribute(s, liquidity), 0) == fee_class(s, 0),
        profitable_count(redistribute(s, liquidity)) == profitable_count(s),
    decreases s.len(),
{
    reveal(Seq::filter);
    if s.len() > 0 {
        let t = redistribute(s, liquidity);
        assert(t.drop_last() =~= redistribute(s.drop_last(), liquidity));
        lemma_redistribute_classes(s.drop_last(), liquidity);
        assert(t.last().fees_collected == s.last().fees_collected);
        if s.last().fees_collected == 0 {
            assert(t.last() == s.last());
        }
    }
}

/// What `optimize_range_fees` does to a position's ranges when it succeeds:
/// they keep their number and come out ordered by fees collected, highest
/// first; the ranges that collected no fees keep everything, their
/// liquidity included, and their order; and each range that collected fees
/// holds an equal share, rounded down, of the liquidity of all the ranges
/// before the call.
pub proof fn law_optimize_moves_liquidity_to_fee_ranges(
    pre: SharedLiquidityPool,
    post: SharedLiquidityPool,
    position_id: u64,
    now: Result<i64, ErrorCode>,
)
    requires
        optimize_outcome(pre, post, Ok(()), position_id, now),
        !pre.emergency_pause.is_paused,
        has_position(pre@.enhanced_positions, position_id),
        total_liquidity(position_of(pre@, position_id).ranges) <= u64::MAX,
    ensures
        has_position(post@.enhanced_positions, position_id),
        ({
            let before = position_of(pre@, position_id).ranges;
            let after = position_of(post@, position_id).ranges;
            &&& after.len() == before.len()
            &&& forall|i: int, j: int|
                0 <= i < j < after.len() ==> #[trigger] after[i].fees_collected
                    >= #[trigger] after[j].fees_collected
            &&& fee_class(after, 0) == fee_class(before, 0)
            &&& forall|j: int|
                0 <= j < after.len() && #[trigger] after[j].fees_collected > 0 ==> after[j].liquidity
                    == total_liquidity(before) / (profitable_ranges(after).len() as int)
        }),
{
    let s = pre@.enhanced_positions;
    lemma_first_position(s, position_id);
    let k = position_index(s, position_id);
    let p = s[k];
    let total = total_liquidity(p.ranges);
    let r = Ok::<(), ErrorCode>(());
    let sorted = choose|sorted: Seq<LiquidityRange>|
        #![trigger is_fee_sort(p.ranges, sorted)]
        is_fee_sort(p.ranges, sorted) && {
            let count = profitable_count(sorted);
            if count == 0 {
                r is Ok && post@ == with_position(pre@, k, PositionView { ranges: sorted, ..p })
            } else {
                let q = PositionView {
                    ranges: redistribute(sorted, (total / count as int) as u64),
                    base_position: LiquidityPosition { shares: total as u64, ..p.base_position },
                    ..p
                };
                match now {
                    Err(e) => r == Err::<(), ErrorCode>(e) && post@ == with_position(pre@, k, q),
                    Ok(t) => r is Ok && post@ == with_position(
                        pre@,
                        k,
                        PositionView { updated_at: t, ..q },
                    ),
                }
            }
        };
    assert(is_fee_sort(p.ranges, sorted));
    let count = profitable_count(sorted);
    let liquidity = (total / count as int) as u64;
    let new_ranges = if count == 0 {
        sorted
    } else {
        redistribute(sorted, liquidity)
    };
    let s2 = post@.enhanced_positions;
    assert(s2 == s.update(k, s2[k]));
    assert(s2[k].position_id == position_id);
    assert(s2[k].ranges == new_ranges);
    assert forall|j: int| 0 <= j < k implies #[trigger] s2[j].position_id != position_id by {
        assert(s2[j] == s[j]);
    }
    assert(is_first_position(s2, position_id, k));
    lemma_position_index_unique(s2, position_id, k);
    assert(position_of(post@, position_id).ranges == new_ranges);
    assert(fee_class(sorted, 0) == fee_class(p.ranges, 0));
    lemma_redistribute_classes(sorted, liquidity);
    lemma_profitable_count_is_filter(new_ranges);
    if count == 0 {
        assert forall|j: int| 0 <= j < sorted.len() implies #[trigger] sorted[j].fees_collected
            == 0 by {
            if sorted[j].fees_collected > 0 {
                lemma_profitable_count_positive(sorted, j);
            }
        }
    } else {
        lemma_total_liquidity_nonneg(p.ranges);
        assert(0 <= total / count as int <= total) by (nonlinear_arith)
            requires
                0 <= total,
                count > 0,
        ;
    }
}


} // verus!
