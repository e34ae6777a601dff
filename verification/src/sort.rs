use crate::types::LiquidityRange;
use vstd::prelude::*;

verus! {

/// `sorted` is `ranges` ordered by fees collected, highest first, with ranges
/// of equal fees kept in their original order.
pub open spec fn is_fee_sort(ranges: Seq<LiquidityRange>, sorted: Seq<LiquidityRange>) -> bool {
    &&& sorted.len() == ranges.len()
    &&& forall|i: int, j: int|
        0 <= i < j < sorted.len() ==> #[trigger] sorted[i].fees_collected
            >= #[trigger] sorted[j].fees_collected
    &&& forall|f: u64| #[trigger] fee_class(sorted, f) == fee_class(ranges, f)
}

/// The ranges of `ranges` that collected exactly `f` in fees, in order.
pub open spec fn fee_class(ranges: Seq<LiquidityRange>, f: u64) -> Seq<LiquidityRange> {
    ranges.filter(|r: LiquidityRange| r.fees_collected == f)
}

/// Sort key that orders ranges by fees collected, highest first.
pub fn descending_fee_key(range: &LiquidityRange) -> (key: u64)
    ensures
        key == u64::MAX - range.fees_collected,
{
    u64::MAX - range.fees_collected
}

/// Sorts `ranges` with std's `slice::sort_by_key` on `descending_fee_key`.
/// The std documentation states that the sort orders the slice by the key,
/// lowest first, and is stable (equal keys keep their order); here equal keys
/// are equal fees and a lower key is a higher fee.
#[verifier::external_body]
pub(crate) fn sort_ranges_by_fees(ranges: &mut Vec<LiquidityRange>)
    ensures
        is_fee_sort(old(ranges)@, final(ranges)@),
{
    ranges.sort_by_key(|r| descending_fee_key(r))
}

} // verus!
