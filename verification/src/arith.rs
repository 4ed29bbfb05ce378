//! Exact integer arithmetic helpers: floor division, floor remainder,
//! integer square root, and the bound lemmas the geometry needs.

use vstd::prelude::*;

verus! {

/// `r` is the integer square root of `x`: the greatest integer whose
/// square does not exceed `x`.
pub open spec fn is_sqrt_floor(x: int, r: int) -> bool {
    0 <= r && r * r <= x && x < (r + 1) * (r + 1)
}

/// The integer square root of `x` (meaningful for `x >= 0`).
pub open spec fn sqrt_floor(x: int) -> int {
    choose|r: int| is_sqrt_floor(x, r)
}

/// Any witness of `is_sqrt_floor` is the value `sqrt_floor` denotes.
pub proof fn lemma_sqrt_floor_unique(x: int, r: int)
    requires
        is_sqrt_floor(x, r),
    ensures
        sqrt_floor(x) == r,
{
    assert(exists|t: int| is_sqrt_floor(x, t)) by {
        assert(is_sqrt_floor(x, r));
    }
    let s = sqrt_floor(x);
    assert(s == r) by (nonlinear_arith)
        requires
            0 <= r,
            r * r <= x,
            x < (r + 1) * (r + 1),
            0 <= s,
            s * s <= x,
            x < (s + 1) * (s + 1),
    {
    }
}

/// Products stay inside a box: the workhorse for overflow reasoning.
pub proof fn lemma_mul_bound(a: int, b: int, ba: int, bb: int)
    by (nonlinear_arith)
    requires
        -ba <= a <= ba,
        -bb <= b <= bb,
        0 <= ba,
        0 <= bb,
    ensures
        -(ba * bb) <= a * b <= ba * bb,
{
}

/// Floor division by a positive divisor keeps the quotient inside any
/// box that contains the dividend scaled by the divisor.
pub proof fn lemma_div_range(n: int, d: int, b: int)
    by (nonlinear_arith)
    requires
        0 < d,
        0 <= b,
        -(b * d) <= n <= b * d,
    ensures
        -b <= n / d <= b,
{
}

/// Floor division of `n` by a positive divisor `d`.
pub fn floor_div(n: i128, d: i128) -> (q: i128)
    requires
        0 < d,
    ensures
        q == n as int / d as int,
{
    proof {
        assert(i128::MIN as int <= n as int / d as int <= i128::MAX as int)
            by (nonlinear_arith)
            requires
                0 < d as int,
                i128::MIN as int <= n as int <= i128::MAX as int,
        {
        }
    }
    n.checked_div_euclid(d).unwrap()
}

/// Floor remainder of `n` by a positive divisor `d`.
pub fn floor_rem(n: i128, d: i128) -> (r: i128)
    requires
        0 < d,
    ensures
        r == n as int % d as int,
{
    n.checked_rem_euclid(d).unwrap()
}

/// Integer square root by binary search.
pub fn isqrt(x: u128) -> (r: u64)
    requires
        x < 0x4000_0000_0000_0000_0000_0000_0000_0000u128,
    ensures
        is_sqrt_floor(x as int, r as int),
        r as int == sqrt_floor(x as int),
{
    let mut lo: u128 = 0;
    let mut hi: u128 = 0x8000_0000_0000_0000u128;
    proof {
        assert(0x8000_0000_0000_0000int * 0x8000_0000_0000_0000int
            == 0x4000_0000_0000_0000_0000_0000_0000_0000int) by (nonlinear_arith);
    }
    while lo + 1 < hi
        invariant
            lo < hi <= 0x8000_0000_0000_0000u128,
            lo as int * lo as int <= x as int,
            (x as int) < hi as int * hi as int,
        decreases hi - lo,
    {
        let mid: u128 = lo + (hi - lo) / 2;
        proof {
            lemma_mul_bound(mid as int, mid as int, 0x8000_0000_0000_0000int,
                0x8000_0000_0000_0000int);
        }
        if mid * mid <= x {
            lo = mid;
        } else {
            hi = mid;
        }
    }
    proof {
        assert(is_sqrt_floor(x as int, lo as int));
        lemma_sqrt_floor_unique(x as int, lo as int);
    }
    lo as u64
}

} // verus!
