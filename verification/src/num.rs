//! Integer arithmetic helpers: floor square root, clamping, and
//! multiply-then-divide with truncation toward zero.
//!
//! The split engine works in whole world units and in thousandths for
//! ratios, so every fractional result is produced by one of these
//! operations and the contracts below pin the rounding down exactly.

use vstd::prelude::*;

verus! {

/// `r` is the floor of the square root of `n`.
pub open spec fn is_isqrt(n: int, r: int) -> bool {
    0 <= r && r * r <= n < (r + 1) * (r + 1)
}

/// The floor of the square root of a nonnegative `n`.
pub closed spec fn isqrt(n: int) -> int {
    choose|r: int| #[trigger] is_isqrt(n, r)
}

/// A floor square root exists for every nonnegative number.
pub proof fn lemma_isqrt_exists(n: int)
    requires
        n >= 0,
    ensures
        exists|r: int| #[trigger] is_isqrt(n, r),
    decreases n,
{
    if n == 0 {
        assert(is_isqrt(0, 0));
    } else {
        lemma_isqrt_exists(n - 1);
        let r = choose|r: int| #[trigger] is_isqrt(n - 1, r);
        if (r + 1) * (r + 1) <= n {
            assert((r + 2) * (r + 2) > n) by (nonlinear_arith)
                requires
                    r >= 0,
                    n - 1 < (r + 1) * (r + 1),
                    (r + 1) * (r + 1) <= n,
            {
            }
            assert(is_isqrt(n, r + 1));
        } else {
            assert(is_isqrt(n, r));
        }
    }
}

/// `isqrt(n)` satisfies the defining property.
pub proof fn lemma_isqrt_spec(n: int)
    requires
        n >= 0,
    ensures
        is_isqrt(n, isqrt(n)),
{
    lemma_isqrt_exists(n);
}

/// The floor square root is unique.
pub proof fn lemma_isqrt_unique(n: int, r: int)
    requires
        is_isqrt(n, r),
    ensures
        isqrt(n) == r,
{
    assert(n >= 0) by (nonlinear_arith)
        requires
            0 <= r,
            r * r <= n,
    {
    }
    lemma_isqrt_spec(n);
    let q = isqrt(n);
    if r < q {
        assert((r + 1) * (r + 1) <= q * q) by (nonlinear_arith)
            requires
                0 <= r + 1 <= q,
        {
        }
    } else if q < r {
        assert((q + 1) * (q + 1) <= r * r) by (nonlinear_arith)
            requires
                0 <= q + 1 <= r,
        {
        }
    }
}

/// Floor square root of a machine word, by bisection.
pub fn isqrt_u64(n: u64) -> (r: u64)
    ensures
        is_isqrt(n as int, r as int),
        r as int == isqrt(n as int),
{
    let mut lo: u64 = 0;
    let mut hi: u64 = 0x1_0000_0000;
    assert((hi as int) * (hi as int) > n as int) by (nonlinear_arith)
        requires
            hi == 0x1_0000_0000u64,
            n <= u64::MAX,
    {
    }
    while lo + 1 < hi
        invariant
            lo < hi <= 0x1_0000_0000u64,
            (lo as int) * (lo as int) <= n as int,
            (hi as int) * (hi as int) > n as int,
        decreases hi - lo,
    {
        let mid: u64 = lo + (hi - lo) / 2;
        assert(lo < mid < hi);
        assert((mid as int) * (mid as int) <= 0xffff_ffff_ffff_ffff) by (nonlinear_arith)
            requires
                mid < 0x1_0000_0000u64,
        {
        }
        if mid * mid <= n {
            lo = mid;
        } else {
            hi = mid;
        }
    }
    assert(is_isqrt(n as int, lo as int));
    proof {
        lemma_isqrt_unique(n as int, lo as int);
    }
    lo
}

/// `v` forced into the closed interval `[lo, hi]`.
pub open spec fn clamp_spec(v: int, lo: int, hi: int) -> int {
    if v < lo {
        lo
    } else if v > hi {
        hi
    } else {
        v
    }
}

/// Clamp a value into `[lo, hi]`.
pub fn clamp_i64(v: i64, lo: i64, hi: i64) -> (r: i64)
    requires
        lo <= hi,
    ensures
        r == clamp_spec(v as int, lo as int, hi as int),
{
    if v < lo {
        lo
    } else if v > hi {
        hi
    } else {
        v
    }
}

/// Division by a positive number, rounding toward zero.
pub open spec fn div_tz(a: int, d: int) -> int {
    if a >= 0 {
        a / d
    } else {
        -((-a) / d)
    }
}

/// `a * b / d`, with the division rounding toward zero.
pub open spec fn mul_div_tz(a: int, b: int, d: int) -> int {
    div_tz(a * b, d)
}

/// Scaling `a` by `b / d` with `-d <= a <= d` cannot leave `[-b, b]`:
/// the scaled value never exceeds the scale factor.
pub proof fn lemma_mul_div_tz_bound(a: int, b: int, d: int)
    requires
        0 < d,
        -d <= a <= d,
        0 <= b,
    ensures
        -b <= mul_div_tz(a, b, d) <= b,
{
    if a * b >= 0 {
        vstd::arithmetic::mul::lemma_mul_inequality(a, d, b);
        vstd::arithmetic::div_mod::lemma_div_is_ordered(a * b, d * b, d);
        vstd::arithmetic::div_mod::lemma_div_multiples_vanish(b, d);
        vstd::arithmetic::div_mod::lemma_div_pos_is_pos(a * b, d);
        assert(d * b == b * d) by (nonlinear_arith) {
        }
    } else {
        assert((-a) * b == -(a * b)) by (nonlinear_arith) {
        }
        vstd::arithmetic::mul::lemma_mul_inequality(-a, d, b);
        vstd::arithmetic::div_mod::lemma_div_is_ordered(-(a * b), d * b, d);
        vstd::arithmetic::div_mod::lemma_div_multiples_vanish(b, d);
        vstd::arithmetic::div_mod::lemma_div_pos_is_pos(-(a * b), d);
        assert(d * b == b * d) by (nonlinear_arith) {
        }
    }
}

/// Compute `a * b / d` rounding toward zero, without overflow.
pub fn mul_div_i64(a: i64, b: i64, d: i64) -> (r: i64)
    requires
        0 < d,
        -3_000_000_000 <= a <= 3_000_000_000,
        -3_000_000_000 <= b <= 3_000_000_000,
    ensures
        r == mul_div_tz(a as int, b as int, d as int),
        (a as int) * (b as int) >= 0 ==> 0 <= r <= (a as int) * (b as int),
        (a as int) * (b as int) < 0 ==> (a as int) * (b as int) <= r <= 0,
{
    let ma: u64 = if a < 0 {
        (-a) as u64
    } else {
        a as u64
    };
    let mb: u64 = if b < 0 {
        (-b) as u64
    } else {
        b as u64
    };
    let md: u64 = d as u64;
    assert((ma as int) * (mb as int) <= 9_000_000_000_000_000_000) by (nonlinear_arith)
        requires
            0 <= ma <= 3_000_000_000u64,
            0 <= mb <= 3_000_000_000u64,
    {
    }
    let prod: u64 = ma * mb;
    let q: u64 = prod / md;
    proof {
        let ai = a as int;
        let bi = b as int;
        assert(prod as int / md as int <= prod as int) by (nonlinear_arith)
            requires
                md >= 1u64,
                prod >= 0u64,
        {
        }
        if a >= 0 && b >= 0 {
            assert(ma as int == ai && mb as int == bi);
            assert(ma as int * mb as int == ai * bi && ai * bi >= 0) by (nonlinear_arith)
                requires
                    ma as int == ai,
                    mb as int == bi,
                    ai >= 0,
                    bi >= 0,
            {
            }
        } else if a < 0 && b < 0 {
            assert(ma as int == -ai && mb as int == -bi);
            assert(ma as int * mb as int == ai * bi && ai * bi >= 0) by (nonlinear_arith)
                requires
                    ma as int == -ai,
                    mb as int == -bi,
                    ai < 0,
                    bi < 0,
            {
            }
        } else if a < 0 {
            assert(ma as int == -ai && mb as int == bi);
            assert(ma as int * mb as int == -(ai * bi) && ai * bi <= 0) by (nonlinear_arith)
                requires
                    ma as int == -ai,
                    mb as int == bi,
                    ai < 0,
                    bi >= 0,
            {
            }
        } else {
            assert(ma as int == ai && mb as int == -bi);
            assert(ma as int * mb as int == -(ai * bi) && ai * bi <= 0) by (nonlinear_arith)
                requires
                    ma as int == ai,
                    mb as int == -bi,
                    ai >= 0,
                    bi < 0,
            {
            }
        }
    }
    if (a < 0) != (b < 0) && q > 0 {
        -(q as i64)
    } else {
        q as i64
    }
}

} // verus!
