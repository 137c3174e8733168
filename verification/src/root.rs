//! Integer square roots.

use vstd::prelude::*;

verus! {

/// `r` is the largest natural number whose square does not exceed `n`.
pub open spec fn is_sqrt_floor(n: nat, r: nat) -> bool {
    r * r <= n < (r + 1) * (r + 1)
}

/// The largest natural number whose square does not exceed `n`.
pub open spec fn sqrt_floor(n: nat) -> nat {
    choose|r: nat| is_sqrt_floor(n, r)
}

/// The smallest natural number whose square is at least `n`.
pub open spec fn sqrt_ceil(n: nat) -> nat {
    let r = sqrt_floor(n);
    if r * r == n {
        r
    } else {
        r + 1
    }
}

/// Squaring preserves order on the natural numbers, strictly.
pub proof fn lemma_square_monotonic(a: nat, b: nat)
    ensures
        a <= b ==> a * a <= b * b,
        a < b ==> a * a < b * b,
        a * a <= b * b ==> a <= b,
        a * a < b * b ==> a < b,
{
    assert(a <= b ==> a * a <= b * b) by (nonlinear_arith);
    assert(a < b ==> a * a < b * b) by (nonlinear_arith);
    assert(b < a ==> b * b < a * a) by (nonlinear_arith);
    assert(b <= a ==> b * b <= a * a) by (nonlinear_arith);
}

/// Some natural number sits at the square root of `n`.
proof fn lemma_sqrt_exists(n: nat)
    ensures
        exists|r: nat| is_sqrt_floor(n, r),
    decreases n,
{
    if n == 0 {
        assert(0nat * 0nat == 0 && (0nat + 1) * (0nat + 1) == 1) by (nonlinear_arith);
        assert(is_sqrt_floor(n, 0));
    } else {
        let m: nat = (n - 1) as nat;
        lemma_sqrt_exists(m);
        let p = choose|r: nat| is_sqrt_floor(m, r);
        if (p + 1) * (p + 1) <= n {
            let q = p + 1;
            assert((q + 1) * (q + 1) > q * q + 1) by (nonlinear_arith)
                requires
                    q >= 1,
            ;
            assert(is_sqrt_floor(n, q));
        } else {
            assert(is_sqrt_floor(n, p));
        }
    }
}

/// `sqrt_floor(n)` brackets `n` between two consecutive squares.
pub proof fn lemma_sqrt_floor_bounds(n: nat)
    ensures
        is_sqrt_floor(n, sqrt_floor(n)),
{
    lemma_sqrt_exists(n);
}

/// Only one natural number brackets `n` between consecutive squares.
pub proof fn lemma_sqrt_floor_unique(n: nat, r: nat)
    requires
        is_sqrt_floor(n, r),
    ensures
        r == sqrt_floor(n),
{
    lemma_sqrt_floor_bounds(n);
    let s = sqrt_floor(n);
    lemma_square_monotonic(r, s + 1);
    lemma_square_monotonic(s, r + 1);
}

/// `sqrt_ceil(n)` is the least number whose square reaches `n`.
pub proof fn lemma_sqrt_ceil_bounds(n: nat)
    ensures
        n <= sqrt_ceil(n) * sqrt_ceil(n),
        n > 0 ==> sqrt_ceil(n) >= 1 && (sqrt_ceil(n) - 1) * (sqrt_ceil(n) - 1) < n,
        n == 0 ==> sqrt_ceil(n) == 0,
{
    lemma_sqrt_floor_bounds(n);
    let r = sqrt_floor(n);
    if n == 0 {
        lemma_square_monotonic(r, 1);
    }
    if r * r != n {
        assert((r + 1) - 1 == r);
    } else if n > 0 {
        assert(r >= 1) by (nonlinear_arith)
            requires
                r * r == n,
                n > 0,
        ;
        assert((r - 1) * (r - 1) < r * r) by (nonlinear_arith)
            requires
                r >= 1,
        ;
    }
}

/// Computes the floor of the square root by bisection.
pub fn isqrt(n: u128) -> (r: u64)
    ensures
        r as nat == sqrt_floor(n as nat),
{
    let mut lo: u128 = 0;
    let mut hi: u128 = 0x1_0000_0000_0000_0000;
    assert(0x1_0000_0000_0000_0000int * 0x1_0000_0000_0000_0000int > u128::MAX) by (nonlinear_arith);
    while hi - lo > 1
        invariant
            lo < hi <= 0x1_0000_0000_0000_0000,
            lo * lo <= n < hi * hi,
        decreases hi - lo,
    {
        let mid: u128 = lo + (hi - lo) / 2;
        assert(mid * mid <= u128::MAX) by (nonlinear_arith)
            requires
                mid <= 0xffff_ffff_ffff_ffff,
        ;
        if mid * mid <= n {
            lo = mid;
        } else {
            hi = mid;
        }
    }
    proof {
        lemma_sqrt_floor_unique(n as nat, lo as nat);
    }
    lo as u64
}

/// Computes the ceiling of the square root.
pub fn isqrt_ceil(n: u128) -> (r: u128)
    ensures
        r as nat == sqrt_ceil(n as nat),
{
    let floor: u64 = isqrt(n);
    let wide: u128 = floor as u128;
    proof {
        lemma_sqrt_floor_bounds(n as nat);
    }
    assert(wide * wide <= u128::MAX) by (nonlinear_arith)
        requires
            wide <= 0xffff_ffff_ffff_ffff,
    ;
    if wide * wide == n {
        wide
    } else {
        wide + 1
    }
}

} // verus!
