//! Fixed-point scalar arithmetic: one world unit is `SCALE` steps of an
//! `i64`. Division always truncates toward zero, matching hardware
//! semantics for signed integers, and every helper carries bounds that
//! keep intermediate products inside `i64`.

use vstd::prelude::*;

verus! {

/// Steps per world unit.
pub const SCALE: i64 = 1000;

/// Magnitude cap on positions and velocities the library computes with.
pub const FX_LIMIT: i64 = 100_000_000;

/// Magnitude cap on per-actor speeds (milli-units per second).
pub const SPEED_LIMIT: i64 = 1_000_000;

/// Cap on a single tick's duration (milliseconds).
pub const DT_LIMIT: i64 = 1_000_000;

pub open spec fn fits(a: int) -> bool {
    -FX_LIMIT <= a <= FX_LIMIT
}

/// Division truncating toward zero (the value a signed hardware division
/// returns), defined for positive divisors.
pub open spec fn tdiv(a: int, b: int) -> int
    recommends
        b > 0,
{
    if a >= 0 {
        a / b
    } else {
        -((-a) / b)
    }
}

pub open spec fn abs_i(a: int) -> int {
    if a >= 0 {
        a
    } else {
        -a
    }
}

pub open spec fn max_i(a: int, b: int) -> int {
    if a >= b {
        a
    } else {
        b
    }
}

pub open spec fn min_i(a: int, b: int) -> int {
    if a <= b {
        a
    } else {
        b
    }
}

/// `r` is the least integer whose square reaches `n`.
pub open spec fn is_sqrt_ceil(n: int, r: int) -> bool {
    r >= 0 && r * r >= n && (r == 0 || (r - 1) * (r - 1) < n)
}

/// The least integer whose square reaches `n` (for `n >= 0`).
pub open spec fn sqrt_ceil(n: int) -> int {
    choose|r: int| is_sqrt_ceil(n, r)
}

proof fn sqrt_ceil_witness(n: nat) -> (r: nat)
    ensures
        is_sqrt_ceil(n as int, r as int),
    decreases n,
{
    if n == 0 {
        0
    } else {
        let p = sqrt_ceil_witness((n - 1) as nat);
        if p * p >= n {
            p
        } else {
            assert(is_sqrt_ceil(n as int, (p + 1) as int)) by (nonlinear_arith)
                requires
                    p * p >= n - 1,
                    p * p < n,
            ;
            p + 1
        }
    }
}

/// The chosen ceiling square root meets its own characterization.
pub proof fn lemma_sqrt_ceil_props(n: int)
    requires
        n >= 0,
    ensures
        is_sqrt_ceil(n, sqrt_ceil(n)),
{
    let w = sqrt_ceil_witness(n as nat);
    assert(is_sqrt_ceil(n, w as int));
}

pub proof fn lemma_sqrt_ceil_unique(n: int, r1: int, r2: int)
    requires
        is_sqrt_ceil(n, r1),
        is_sqrt_ceil(n, r2),
    ensures
        r1 == r2,
{
    assert(r1 == r2) by (nonlinear_arith)
        requires
            is_sqrt_ceil(n, r1),
            is_sqrt_ceil(n, r2),
    ;
}

pub proof fn lemma_sqrt_ceil_is(n: int, r: int)
    requires
        n >= 0,
        is_sqrt_ceil(n, r),
    ensures
        sqrt_ceil(n) == r,
{
    let w = sqrt_ceil_witness(n as nat);
    assert(is_sqrt_ceil(n, w as int));
    lemma_sqrt_ceil_unique(n, r, sqrt_ceil(n));
}

/// Absolute value.
pub fn abs64(a: i64) -> (r: i64)
    requires
        a != i64::MIN,
    ensures
        r == abs_i(a as int),
{
    if a >= 0 {
        a
    } else {
        -a
    }
}

/// The larger of two values.
pub fn max64(a: i64, b: i64) -> (r: i64)
    ensures
        r == max_i(a as int, b as int),
{
    if a >= b {
        a
    } else {
        b
    }
}

/// The smaller of two values.
pub fn min64(a: i64, b: i64) -> (r: i64)
    ensures
        r == min_i(a as int, b as int),
{
    if a <= b {
        a
    } else {
        b
    }
}

/// Clamp `a` into `[lo, hi]`.
pub fn clamp64(a: i64, lo: i64, hi: i64) -> (r: i64)
    requires
        lo <= hi,
    ensures
        r == min_i(max_i(a as int, lo as int), hi as int),
{
    if a < lo {
        lo
    } else if a > hi {
        hi
    } else {
        a
    }
}

/// Signed division truncating toward zero.
pub fn div_trunc(a: i64, b: i64) -> (r: i64)
    requires
        b > 0,
        a != i64::MIN,
    ensures
        r == tdiv(a as int, b as int),
        abs_i(r as int) <= abs_i(a as int),
{
    proof {
        vstd::arithmetic::div_mod::lemma_div_nonincreasing(abs_i(a as int), b as int);
        vstd::arithmetic::div_mod::lemma_div_pos_is_pos(abs_i(a as int), b as int);
    }
    if a >= 0 {
        let q: u64 = (a as u64) / (b as u64);
        q as i64
    } else {
        let q: u64 = ((-a) as u64) / (b as u64);
        -(q as i64)
    }
}

/// Least integer whose square reaches `n`, by binary search.
pub fn ceil_isqrt(n: u64) -> (r: u64)
    requires
        n <= 9_000_000_000_000_000_000,
    ensures
        is_sqrt_ceil(n as int, r as int),
        r as int == sqrt_ceil(n as int),
        r <= 3_000_000_000,
{
    if n == 0 {
        proof {
            lemma_sqrt_ceil_is(0, 0);
        }
        return 0;
    }
    let mut lo: u64 = 0;
    let mut hi: u64 = 3_000_000_000;
    while lo + 1 < hi
        invariant
            lo < hi <= 3_000_000_000,
            (lo as int) * (lo as int) < n,
            (hi as int) * (hi as int) >= n,
            n <= 9_000_000_000_000_000_000,
        decreases hi - lo,
    {
        let mid: u64 = lo + (hi - lo) / 2;
        proof {
            assert((mid as int) * (mid as int) <= 9_000_000_000_000_000_000) by (nonlinear_arith)
                requires
                    0 <= mid <= 3_000_000_000,
            ;
        }
        if mid * mid >= n {
            hi = mid;
        } else {
            lo = mid;
        }
    }
    proof {
        lemma_sqrt_ceil_is(n as int, hi as int);
    }
    hi
}

/// The truncated quotient keeps the dividend's sign and never grows it.
pub proof fn lemma_tdiv_bounds(a: int, b: int)
    requires
        b > 0,
    ensures
        abs_i(tdiv(a, b)) <= abs_i(a),
        a >= 0 ==> tdiv(a, b) >= 0,
        a <= 0 ==> tdiv(a, b) <= 0,
{
    if a >= 0 {
        vstd::arithmetic::div_mod::lemma_div_nonincreasing(a, b);
        vstd::arithmetic::div_mod::lemma_div_pos_is_pos(a, b);
    } else {
        vstd::arithmetic::div_mod::lemma_div_nonincreasing(-a, b);
        vstd::arithmetic::div_mod::lemma_div_pos_is_pos(-a, b);
    }
}

/// The truncated quotient's magnitude is the quotient of magnitudes.
pub proof fn lemma_tdiv_abs(a: int, b: int)
    requires
        b > 0,
    ensures
        abs_i(tdiv(a, b)) == tdiv(abs_i(a), b),
{
    lemma_tdiv_bounds(a, b);
}

/// Truncated division is monotone on magnitudes of like-signed values.
pub proof fn lemma_tdiv_mono_nonneg(a1: int, a2: int, b: int)
    requires
        b > 0,
        0 <= a1 <= a2,
    ensures
        tdiv(a1, b) <= tdiv(a2, b),
{
    vstd::arithmetic::div_mod::lemma_div_is_ordered(a1, a2, b);
}

/// Dividing an exact multiple recovers the factor.
pub proof fn lemma_tdiv_multiple(k: int, b: int)
    requires
        b > 0,
    ensures
        tdiv(k * b, b) == k,
{
    if k >= 0 {
        assert(k * b == b * k) by (nonlinear_arith);
        vstd::arithmetic::div_mod::lemma_div_multiples_vanish(k, b);
    } else {
        assert((-(k * b)) == b * (-k)) by (nonlinear_arith);
        vstd::arithmetic::div_mod::lemma_div_multiples_vanish(-k, b);
    }
}

} // verus!
