use vstd::prelude::*;

verus! {

/// Rounding of the rational `p / q` (for `q > 0`) to the nearest integer,
/// with ties rounded toward positive infinity.  All event times and
/// displacements of the simulation are fixed-point values rounded this way.
pub open spec fn round_nearest(p: int, q: int) -> int {
    (2 * p + q) / (2 * q)
}

/// `r` is the integer square root of `n`, rounded down.
pub open spec fn is_sqrt_floor(n: int, r: int) -> bool {
    &&& 0 <= r
    &&& r * r <= n
    &&& n < (r + 1) * (r + 1)
}

/// The integer square root of `n`, rounded down.
pub closed spec fn sqrt_floor(n: int) -> int {
    choose|r: int| is_sqrt_floor(n, r)
}

/// Two square roots of the same number agree.
pub proof fn lemma_sqrt_floor_unique(n: int, r1: int, r2: int)
    requires
        is_sqrt_floor(n, r1),
        is_sqrt_floor(n, r2),
    ensures
        r1 == r2,
{
    if r1 < r2 {
        assert((r1 + 1) * (r1 + 1) <= r2 * r2) by (nonlinear_arith)
            requires 0 <= r1, r1 < r2;
    }
    if r2 < r1 {
        assert((r2 + 1) * (r2 + 1) <= r1 * r1) by (nonlinear_arith)
            requires 0 <= r2, r2 < r1;
    }
}

/// A witness for `is_sqrt_floor` is the value of `sqrt_floor`.
pub proof fn lemma_sqrt_floor_is(n: int, r: int)
    requires
        is_sqrt_floor(n, r),
    ensures
        sqrt_floor(n) == r,
{
    let w = choose|x: int| is_sqrt_floor(n, x);
    lemma_sqrt_floor_unique(n, w, r);
}

/// Bounds of the Euclidean quotient for a positive divisor.
pub proof fn lemma_div_bounds(a: int, b: int)
    requires
        1 <= b,
    ensures
        a >= 0 ==> 0 <= a / b <= a,
        a < 0 ==> a <= a / b <= 0,
{
    vstd::arithmetic::div_mod::lemma_fundamental_div_mod(a, b);
    let q = a / b;
    let r = a % b;
    vstd::arithmetic::div_mod::lemma_mod_bound(a, b);
    assert(a == b * q + r);
    if a >= 0 {
        assert(0 <= q && q <= a) by (nonlinear_arith)
            requires a == b * q + r, 0 <= r < b, 1 <= b, a >= 0;
    } else {
        assert(a <= q && q <= 0) by (nonlinear_arith)
            requires a == b * q + r, 0 <= r < b, 1 <= b, a < 0;
    }
}

/// Bounds of the fixed-point rounding: it stays within one unit of the
/// rational it rounds.
pub proof fn lemma_round_nearest_bounds(p: int, q: int)
    requires
        1 <= q,
    ensures
        p >= 0 ==> round_nearest(p, q) >= 0,
        q * round_nearest(p, q) <= p + q,
        q * round_nearest(p, q) >= p - q,
{
    let r = round_nearest(p, q);
    vstd::arithmetic::div_mod::lemma_fundamental_div_mod(2 * p + q, 2 * q);
    vstd::arithmetic::div_mod::lemma_mod_bound(2 * p + q, 2 * q);
    if p >= 0 {
        assert(2 * p + q >= 0);
        vstd::arithmetic::div_mod::lemma_div_pos_is_pos(2 * p + q, 2 * q);
    }
    let rem = (2 * p + q) % (2 * q);
    assert(2 * p + q == 2 * q * r + rem);
    assert(q * r <= p + q && q * r >= p - q) by (nonlinear_arith)
        requires 2 * p + q == 2 * q * r + rem, 0 <= rem < 2 * q, 1 <= q;
}

/// Euclidean (floor) division for a positive divisor.
pub fn div_floor_i128(a: i128, b: i128) -> (q: i128)
    requires
        0 < b,
    ensures
        q == a as int / b as int,
{
    proof {
        lemma_div_bounds(a as int, b as int);
    }
    a.checked_div_euclid(b).unwrap()
}

/// Fixed-point rounding of `p / q` to the nearest integer, ties toward
/// positive infinity.
pub fn div_round_nearest_i128(p: i128, q: i128) -> (r: i128)
    requires
        0 < q < 0x1000_0000_0000_0000_0000_0000_0000_0000,
        -0x1000_0000_0000_0000_0000_0000_0000_0000 < p
            < 0x1000_0000_0000_0000_0000_0000_0000_0000,
    ensures
        r == round_nearest(p as int, q as int),
{
    div_floor_i128(2 * p + q, 2 * q)
}

/// The integer square root, rounded down, by bisection.
pub fn isqrt_u128(n: u128) -> (r: u128)
    ensures
        is_sqrt_floor(n as int, r as int),
        r == sqrt_floor(n as int),
{
    let mut lo: u128 = 0;
    let mut hi: u128 = 0xFFFF_FFFF_FFFF_FFFFu128;
    if n < hi {
        hi = n;
    }
    proof {
        assert(n < (hi + 1) * (hi + 1)) by (nonlinear_arith)
            requires
                hi == if n < 0xFFFF_FFFF_FFFF_FFFFu128 { n as int }
                    else { 0xFFFF_FFFF_FFFF_FFFFu128 as int },
                n <= 0xFFFF_FFFF_FFFF_FFFF_FFFF_FFFF_FFFF_FFFFu128;
    }
    while lo < hi
        invariant
            lo <= hi,
            hi <= 0xFFFF_FFFF_FFFF_FFFFu128,
            lo * lo <= n,
            n < (hi + 1) * (hi + 1),
        decreases hi - lo,
    {
        let mid: u128 = lo + (hi - lo + 1) / 2;
        assert(lo < mid <= hi);
        assert((mid as int) * (mid as int) <= 0xFFFF_FFFF_FFFF_FFFF_FFFF_FFFF_FFFF_FFFFint)
            by (nonlinear_arith)
            requires 0 <= mid <= 0xFFFF_FFFF_FFFF_FFFFu128;
        if mid * mid <= n {
            lo = mid;
        } else {
            hi = mid - 1;
        }
    }
    proof {
        lemma_sqrt_floor_is(n as int, lo as int);
    }
    lo
}

} // verus!
