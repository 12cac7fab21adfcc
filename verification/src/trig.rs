//! Fixed-point approximations of the transcendental functions the
//! simulation needs: the hyperbolic tangent (the brain's aggregator), sine
//! and cosine (movement along a heading), and the two-argument arctangent
//! (bearing from one coordinate to another).
//!
//! Each function has an exact spec-level mirror, plus proved range bounds:
//! the tangent stays strictly inside `(-ONE, ONE)`, sine and cosine inside
//! `[-ONE, ONE]`, and the arctangent inside `[-PI, PI]`.

use vstd::prelude::*;

use crate::fixed::{abs_spec, ONE};

verus! {

/// One quarter turn, in fixed-point radians.
pub const HALF_PI: i64 = 102944;

/// Half a turn, in fixed-point radians.
pub const PI: i64 = 205888;

/// A full turn, in fixed-point radians.
pub const TAU: i64 = 411776;

/// One eighth of a turn, in fixed-point radians.
pub const QUARTER_PI: i64 = 51472;

/// The quadratic correction coefficient of the arctangent approximation.
pub const ATAN_COEFF: i64 = 17891;

proof fn lemma_div_below(n: int, d: int, b: int)
    by (nonlinear_arith)
    requires
        0 <= n,
        0 < d,
        n < d * b,
    ensures
        n / d < b,
{
}

proof fn lemma_div_at_most(n: int, d: int, b: int)
    by (nonlinear_arith)
    requires
        0 <= n,
        0 < d,
        n <= d * b,
    ensures
        n / d <= b,
{
}

proof fn lemma_div_nonneg(n: int, d: int)
    by (nonlinear_arith)
    requires
        0 <= n,
        0 < d,
    ensures
        0 <= n / d,
{
}

/// The rational tangent approximation on a non-negative argument:
/// `a * (27 + a^2) / (27 + 9 * a^2)` in real units, saturating to just
/// below one from three radians on.
pub open spec fn tanh_mag(a: int) -> int {
    if a >= 3 * (ONE as int) {
        ONE as int - 1
    } else {
        (a * (27 * (ONE as int) * (ONE as int) + a * a)) / (27 * (ONE as int) * (ONE as int) + 9
            * a * a)
    }
}

/// The fixed-point hyperbolic tangent, extended to negative arguments by
/// odd symmetry.
pub open spec fn tanh_spec(x: int) -> int {
    if x >= 0 {
        tanh_mag(x)
    } else {
        -tanh_mag(-x)
    }
}

/// The hyperbolic tangent. Its result is strictly inside `(-ONE, ONE)`
/// whatever the argument: this is what keeps feedback loops in the neuron
/// graph from blowing up.
pub fn tanh_fp(x: i64) -> (r: i64)
    requires
        -0x4000_0000_0000_0000 <= x <= 0x4000_0000_0000_0000,
    ensures
        r == tanh_spec(x as int),
        -ONE < r < ONE,
{
    let a: i64 = if x >= 0 {
        x
    } else {
        -x
    };
    let m: i64;
    if a >= 3 * ONE {
        m = ONE - 1;
    } else {
        proof {
            assert(0 <= a * a <= 0x9_0000_0000) by (nonlinear_arith)
                requires
                    0 <= a < 3 * 65536,
            ;
            assert(0 <= a * (27 * (ONE as int) * (ONE as int) + a * a) <= 0x30000 * (27
                * 0x1_0000_0000 + 0x9_0000_0000)) by (nonlinear_arith)
                requires
                    0 <= a < 3 * 65536,
                    0 <= a * a <= 0x9_0000_0000,
            ;
            assert(0 <= 9 * a * a <= 9 * 0x9_0000_0000) by (nonlinear_arith)
                requires
                    0 <= a < 3 * 65536,
            ;
        }
        let num: i64 = a * (27 * ONE * ONE + a * a);
        let den: i64 = 27 * ONE * ONE + 9 * a * a;
        proof {
            // The margin between the saturating bound and the rational form
            // is a perfect cube, hence positive below three radians.
            assert(den * (ONE as int) - num == (3 * (ONE as int) - a) * (3 * (ONE as int) - a) * (3
                * (ONE as int) - a)) by (nonlinear_arith)
                requires
                    num == a * (27 * (ONE as int) * (ONE as int) + a * a),
                    den == 27 * (ONE as int) * (ONE as int) + 9 * a * a,
            ;
            assert(0 < (3 * (ONE as int) - a) * (3 * (ONE as int) - a) * (3 * (ONE as int)
                - a)) by (nonlinear_arith)
                requires
                    0 < 3 * (ONE as int) - a,
            ;
            lemma_div_below(num as int, den as int, ONE as int);
            lemma_div_nonneg(num as int, den as int);
        }
        m = num / den;
    }
    if x >= 0 {
        m
    } else {
        -m
    }
}

/// The tangent approximation maps zero to zero: a neuron with no incoming
/// signal stays inert.
pub proof fn lemma_tanh_zero()
    ensures
        tanh_spec(0) == 0,
{
    assert(tanh_mag(0) == 0);
}

/// Bhaskara's rational sine approximation on the half turn `[0, PI]`:
/// `16 x (PI - x) / (5 PI^2 - 4 x (PI - x))`, scaled to fixed point.
pub open spec fn sin_half(x: int) -> int {
    (16 * (x * (PI as int - x)) * (ONE as int)) / (5 * (PI as int) * (PI as int) - 4 * (x * (
    PI as int - x)))
}

/// The fixed-point sine on a full turn, extended from the half turn by odd
/// symmetry.
pub open spec fn sin_spec(x: int) -> int {
    if x <= PI as int {
        sin_half(x)
    } else {
        -sin_half(x - PI as int)
    }
}

/// The fixed-point cosine: the sine shifted a quarter turn.
pub open spec fn cos_spec(x: int) -> int {
    if x + HALF_PI as int <= TAU as int {
        sin_spec(x + HALF_PI as int)
    } else {
        sin_spec(x + HALF_PI as int - TAU as int)
    }
}

fn sin_half_fp(x: i64) -> (r: i64)
    requires
        0 <= x <= PI,
    ensures
        r == sin_half(x as int),
        0 <= r <= ONE,
{
    proof {
        assert(0 <= x * ((PI as int) - x) && x * ((PI as int) - x) <= (PI as int) * (
        PI as int)) by (nonlinear_arith)
            requires
                0 <= x <= PI as int,
        ;
    }
    let u: i64 = x * (PI - x);
    let num: i64 = 16 * u * ONE;
    let den: i64 = 5 * PI * PI - 4 * u;
    proof {
        // 20 u <= 5 PI^2, because 4 x (PI - x) <= PI^2 is (PI - 2x)^2 >= 0.
        assert(4 * (x * ((PI as int) - x)) <= (PI as int) * (PI as int)) by (nonlinear_arith)
            requires
                0 <= x <= PI as int,
        ;
        lemma_div_at_most(num as int, den as int, ONE as int);
        lemma_div_nonneg(num as int, den as int);
    }
    num / den
}

/// The sine of an angle within one full turn.
pub fn sin_fp(x: i64) -> (r: i64)
    requires
        0 <= x <= TAU,
    ensures
        r == sin_spec(x as int),
        -ONE <= r <= ONE,
{
    if x <= PI {
        sin_half_fp(x)
    } else {
        -sin_half_fp(x - PI)
    }
}

/// The cosine of an angle within one full turn.
pub fn cos_fp(x: i64) -> (r: i64)
    requires
        0 <= x <= TAU,
    ensures
        r == cos_spec(x as int),
        -ONE <= r <= ONE,
{
    let shifted: i64 = if x + HALF_PI <= TAU {
        x + HALF_PI
    } else {
        x + HALF_PI - TAU
    };
    sin_fp(shifted)
}

/// The arctangent approximation on the unit interval:
/// `(PI/4) z + ATAN_COEFF z (1 - z)`, scaled to fixed point. Exact at both
/// endpoints, and never above a quarter turn plus the correction term.
pub open spec fn atan_unit(z: int) -> int {
    ((QUARTER_PI as int) * z) / (ONE as int) + (((ATAN_COEFF as int) * z / (ONE as int)) * ((
    ONE as int) - z)) / (ONE as int)
}

fn atan_unit_fp(z: i64) -> (r: i64)
    requires
        0 <= z <= ONE,
    ensures
        r == atan_unit(z as int),
        0 <= r <= QUARTER_PI + ATAN_COEFF,
{
    let linear: i64 = QUARTER_PI * z / ONE;
    proof {
        assert((QUARTER_PI as int) * z <= (ONE as int) * (QUARTER_PI as int)) by (nonlinear_arith)
            requires
                0 <= z <= ONE as int,
        ;
        lemma_div_at_most((QUARTER_PI as int) * z, ONE as int, QUARTER_PI as int);
        lemma_div_nonneg((QUARTER_PI as int) * z, ONE as int);
    }
    let scaled: i64 = ATAN_COEFF * z / ONE;
    proof {
        assert((ATAN_COEFF as int) * z <= (ONE as int) * (ATAN_COEFF as int)) by (nonlinear_arith)
            requires
                0 <= z <= ONE as int,
        ;
        lemma_div_at_most((ATAN_COEFF as int) * z, ONE as int, ATAN_COEFF as int);
        lemma_div_nonneg((ATAN_COEFF as int) * z, ONE as int);
    }
    proof {
        assert(scaled * ((ONE as int) - z) <= (ONE as int) * (ATAN_COEFF as int))
            by (nonlinear_arith)
            requires
                0 <= scaled <= ATAN_COEFF as int,
                0 <= z <= ONE as int,
        ;
        assert(0 <= scaled * ((ONE as int) - z)) by (nonlinear_arith)
            requires
                0 <= scaled,
                0 <= z <= ONE as int,
        ;
        lemma_div_at_most(scaled as int * ((ONE as int) - z), ONE as int, ATAN_COEFF as int);
        lemma_div_nonneg(scaled as int * ((ONE as int) - z), ONE as int);
    }
    let correction: i64 = scaled * (ONE - z) / ONE;
    linear + correction
}

/// The bearing of the vector `(x, y)`: a fixed-point angle in `[-PI, PI]`,
/// measured from the positive x axis, exact on the axes.
pub open spec fn atan2_spec(y: int, x: int) -> int {
    if x == 0 && y == 0 {
        0
    } else if x == 0 {
        if y > 0 {
            HALF_PI as int
        } else {
            -(HALF_PI as int)
        }
    } else if y == 0 {
        if x > 0 {
            0
        } else {
            PI as int
        }
    } else {
        let ay = abs_spec(y);
        let ax = abs_spec(x);
        let base = if ay <= ax {
            atan_unit((ay * (ONE as int)) / ax)
        } else {
            (HALF_PI as int) - atan_unit((ax * (ONE as int)) / ay)
        };
        if x > 0 && y > 0 {
            base
        } else if x < 0 && y > 0 {
            (PI as int) - base
        } else if x < 0 {
            -((PI as int) - base)
        } else {
            -base
        }
    }
}

/// The two-argument arctangent.
pub fn atan2_fp(y: i64, x: i64) -> (r: i64)
    requires
        -0x100_0000_0000 <= y <= 0x100_0000_0000,
        -0x100_0000_0000 <= x <= 0x100_0000_0000,
    ensures
        r == atan2_spec(y as int, x as int),
        -PI <= r <= PI,
{
    if x == 0 && y == 0 {
        0
    } else if x == 0 {
        if y > 0 {
            HALF_PI
        } else {
            -HALF_PI
        }
    } else if y == 0 {
        if x > 0 {
            0
        } else {
            PI
        }
    } else {
        let ay: i64 = if y >= 0 {
            y
        } else {
            -y
        };
        let ax: i64 = if x >= 0 {
            x
        } else {
            -x
        };
        let base: i64;
        if ay <= ax {
            proof {
                assert(ay * (ONE as int) <= ax * (ONE as int)) by (nonlinear_arith)
                    requires
                        0 <= ay <= ax,
                ;
                lemma_div_at_most(ay as int * (ONE as int), ax as int, ONE as int);
                lemma_div_nonneg(ay as int * (ONE as int), ax as int);
            }
            let z: i64 = ay * ONE / ax;
            base = atan_unit_fp(z);
        } else {
            proof {
                assert(ax * (ONE as int) <= ay * (ONE as int)) by (nonlinear_arith)
                    requires
                        0 <= ax <= ay,
                ;
                lemma_div_at_most(ax as int * (ONE as int), ay as int, ONE as int);
                lemma_div_nonneg(ax as int * (ONE as int), ay as int);
            }
            let z: i64 = ax * ONE / ay;
            base = HALF_PI - atan_unit_fp(z);
        }
        if x > 0 && y > 0 {
            base
        } else if x < 0 && y > 0 {
            PI - base
        } else if x < 0 {
            -(PI - base)
        } else {
            -base
        }
    }
}

} // verus!
