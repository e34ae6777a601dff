use vstd::prelude::*;

verus! {

/// `r` is the integer square root of `n`: the largest integer whose square is
/// at most `n`.
pub open spec fn is_isqrt(n: int, r: int) -> bool {
    &&& 0 <= r
    &&& r * r <= n
    &&& n < (r + 1) * (r + 1)
}

proof fn lemma_square_below_2_128(m: u128)
    requires
        m < 0x1_0000_0000_0000_0000,
    ensures
        m * m <= 0xffff_ffff_ffff_fffe_0000_0000_0000_0001,
{
    assert(m * m <= 0xffff_ffff_ffff_ffffu128 * 0xffff_ffff_ffff_ffffu128) by (nonlinear_arith)
        requires
            m <= 0xffff_ffff_ffff_ffffu128,
    ;
}

/// Integer square root of a 128-bit number (rounded down), by bisection.
pub fn isqrt_u128(n: u128) -> (r: u64)
    ensures
        is_isqrt(n as int, r as int),
{
    let mut lo: u128 = 0;
    let mut hi: u128 = 0x1_0000_0000_0000_0000;
    assert(n < hi * hi) by (nonlinear_arith)
        requires
            hi == 0x1_0000_0000_0000_0000u128,
    ;
    while hi - lo > 1
        invariant
            lo < hi <= 0x1_0000_0000_0000_0000,
            lo * lo <= n,
            n < hi * hi,
        decreases hi - lo,
    {
        let mid = lo + (hi - lo) / 2;
        proof {
            lemma_square_below_2_128(mid);
        }
        if mid * mid <= n {
            lo = mid;
        } else {
            hi = mid;
        }
    }
    assert(hi == lo + 1);
    lo as u64
}

/// The product of two 64-bit numbers fits in 128 bits.
pub proof fn lemma_u64_product_fits(a: u64, b: u64)
    ensures
        a * b <= u128::MAX,
        0 <= a * b,
{
    assert(a * b <= 0xffff_ffff_ffff_ffffu64 * 0xffff_ffff_ffff_ffffu64) by (nonlinear_arith)
        requires
            a <= 0xffff_ffff_ffff_ffffu64,
            b <= 0xffff_ffff_ffff_ffffu64,
    ;
}

/// Scaling `a` by a fraction `b / c` that is at most one gives at most `a`.
pub proof fn lemma_scale_down(a: int, b: int, c: int)
    requires
        0 <= a,
        0 <= b <= c,
        0 < c,
    ensures
        0 <= a * b / c <= a,
{
    assert(0 <= a * b) by (nonlinear_arith)
        requires
            0 <= a,
            0 <= b,
    ;
    assert(a * b <= a * c) by (nonlinear_arith)
        requires
            0 <= a,
            b <= c,
    ;
    assert(a * c / c == a) by (nonlinear_arith)
        requires
            0 < c,
    ;
    vstd::arithmetic::div_mod::lemma_div_is_ordered(a * b, a * c, c);
    vstd::arithmetic::div_mod::lemma_div_pos_is_pos(a * b, c);
}

/// `(i + amount) * (o - out) >= i * o` for a constant-product output `out`
/// no larger than `o * after / (i + after)`, where `after <= amount`.
pub proof fn lemma_product_after_swap(i: int, o: int, amount: int, after: int, out: int)
    requires
        0 <= i,
        0 <= o,
        0 <= after <= amount,
        0 < i + after,
        0 <= out <= o * after / (i + after),
    ensures
        (i + amount) * (o - out) >= i * o,
        out <= o,
{
    let y = o * after / (i + after);
    lemma_scale_down(o, after, i + after);
    vstd::arithmetic::div_mod::lemma_fundamental_div_mod(o * after, i + after);
    vstd::arithmetic::div_mod::lemma_mod_bound(o * after, i + after);
    assert((i + after) * y <= o * after);
    assert((i + after) * (o - y) >= i * o) by (nonlinear_arith)
        requires
            (i + after) * y <= o * after,
    ;
    assert((i + amount) * (o - out) >= (i + after) * (o - y)) by (nonlinear_arith)
        requires
            0 <= i + after <= i + amount,
            0 <= o - y <= o - out,
    ;
}

} // verus!
