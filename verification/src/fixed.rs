//! Fixed-point scalar arithmetic.
//!
//! A value `v` represents the real number `v / ONE`. All of the library's
//! continuous quantities (signals, weights, coordinates, radians) are stored
//! this way, so products must be rescaled by `ONE` after multiplying.

use vstd::prelude::*;

verus! {

/// The fixed-point scale: the representation of the real number 1.
pub const ONE: i64 = 65536;

/// Truncating fixed-point product: `a * b / ONE`, rounded toward zero.
pub open spec fn fmul(a: int, b: int) -> int {
    if a * b >= 0 {
        (abs_spec(a) * abs_spec(b)) / (ONE as int)
    } else {
        -((abs_spec(a) * abs_spec(b)) / (ONE as int))
    }
}

pub open spec fn abs_spec(a: int) -> int {
    if a >= 0 {
        a
    } else {
        -a
    }
}

/// Clamp `v` into `[lo, hi]`.
pub open spec fn clamp_spec(v: int, lo: int, hi: int) -> int {
    if v < lo {
        lo
    } else if v > hi {
        hi
    } else {
        v
    }
}

pub fn clamp(v: i64, lo: i64, hi: i64) -> (r: i64)
    requires
        lo <= hi,
    ensures
        r == clamp_spec(v as int, lo as int, hi as int),
        lo <= r <= hi,
{
    if v < lo {
        lo
    } else if v > hi {
        hi
    } else {
        v
    }
}

proof fn lemma_abs_mul(a: int, b: int)
    by (nonlinear_arith)
    ensures
        abs_spec(a) * abs_spec(b) == abs_spec(a * b),
        a < 0 && b > 0 ==> a * b < 0,
        a > 0 && b < 0 ==> a * b < 0,
        a >= 0 && b >= 0 ==> a * b >= 0,
        a <= 0 && b <= 0 ==> a * b >= 0,
{
}

/// Fixed-point multiplication, exact truncated semantics.
pub fn mul_fp(a: i64, b: i64) -> (r: i64)
    requires
        -0x4000_0000 <= a <= 0x4000_0000,
        -0x4000_0000 <= b <= 0x4000_0000,
    ensures
        r == fmul(a as int, b as int),
        abs_spec(r as int) * (ONE as int) <= abs_spec(a as int) * abs_spec(b as int),
{
    let aa: i64 = if a >= 0 {
        a
    } else {
        -a
    };
    let ab: i64 = if b >= 0 {
        b
    } else {
        -b
    };
    proof {
        assert(aa * ab <= 0x4000_0000 * 0x4000_0000) by (nonlinear_arith)
            requires
                0 <= aa <= 0x4000_0000,
                0 <= ab <= 0x4000_0000,
        ;
    }
    let p: i64 = (aa * ab) / ONE;
    proof {
        lemma_abs_mul(a as int, b as int);
        assert(p * (ONE as int) <= aa * ab) by {
            vstd::arithmetic::div_mod::lemma_fundamental_div_mod(aa as int * ab as int,
                ONE as int);
            vstd::arithmetic::div_mod::lemma_mod_bound(aa as int * ab as int, ONE as int);
        }
    }
    let neg: bool = (a < 0) != (b < 0);
    if neg {
        -p
    } else {
        p
    }
}

/// The integer square root: the largest `r` with `r * r <= n`.
pub fn isqrt(n: u64) -> (r: u64)
    ensures
        r * r <= n,
        n < (r + 1) * (r + 1),
{
    let mut lo: u64 = 0;
    let mut hi: u64 = 0x1_0000_0000;
    proof {
        assert(n < 0x1_0000_0000u64 * 0x1_0000_0000u64) by (nonlinear_arith)
            requires
                n <= u64::MAX,
        ;
    }
    while lo + 1 < hi
        invariant
            lo < hi <= 0x1_0000_0000,
            lo * lo <= n,
            n < hi * hi,
        decreases hi - lo,
    {
        let mid: u64 = lo + (hi - lo) / 2;
        proof {
            assert(mid * mid < 0x1_0000_0000u64 * 0x1_0000_0000u64) by (nonlinear_arith)
                requires
                    mid < 0x1_0000_0000u64,
            ;
        }
        if mid * mid <= n {
            lo = mid;
        } else {
            hi = mid;
        }
    }
    lo
}

} // verus!
