//! Fixed-point scalar arithmetic: scale constant, sign helpers, truncating
//! and ceiling division, and an integer square root.

use vstd::arithmetic::div_mod::lemma_div_is_ordered;
use vstd::prelude::*;

verus! {

/// Number of fixed-point steps per unit: a velocity of `1.0` units per
/// second is stored as `SCALE`, a tenth of a second as `SCALE / 10`.
pub const SCALE: i64 = 1000;

/// Magnitude bound under which the vector routines are free of overflow.
pub const VEC_LIMIT: i64 = 1_000_000_000_000_000;

/// Largest tick length the systems accept: one hundred seconds.
pub const DT_LIMIT: i64 = 100_000;

/// Largest acceleration the systems accept, in fixed-point units per
/// second squared.
pub const ACCEL_LIMIT: i64 = 1_000_000_000;

/// Largest speed gain of a single tick: `ACCEL_LIMIT * DT_LIMIT / SCALE`.
pub const ACCEL_STEP_LIMIT: i64 = 100_000_000_000;

/// Largest absolute simulation time the systems accept.
pub const TIME_LIMIT: i64 = 1_000_000_000_000_000;

/// One more than the largest `u64`, as a `u128`.
pub const TWO_POW_64: u128 = 0x1_0000_0000_0000_0000;

/// Absolute value.
pub open spec fn abs_of(v: int) -> int {
    if v < 0 {
        -v
    } else {
        v
    }
}

/// Sign of a value: -1, 0 or 1.
pub open spec fn sgn(v: int) -> int {
    if v > 0 {
        1int
    } else if v < 0 {
        -1int
    } else {
        0int
    }
}

/// Division rounding towards zero (what Rust's `/` computes), for a
/// positive divisor.
pub open spec fn tdiv(a: int, b: int) -> int {
    if a >= 0 {
        a / b
    } else {
        -((-a) / b)
    }
}

/// Division rounding towards positive infinity, for a positive divisor
/// (spec `/` rounds towards negative infinity there).
pub open spec fn cdiv(a: int, b: int) -> int {
    -((-a) / b)
}

/// Truncating division shrinks magnitudes: `|tdiv(a, b) * b| <= |a|`,
/// and the result keeps the sign of `a`.
pub proof fn lemma_tdiv_bounds(a: int, b: int)
    requires
        b > 0,
    ensures
        abs_of(tdiv(a, b)) * b <= abs_of(a),
        abs_of(tdiv(a, b)) <= abs_of(a),
        a >= 0 ==> tdiv(a, b) >= 0,
        a <= 0 ==> tdiv(a, b) <= 0,
{
    let m = abs_of(a);
    assert(m >= 0);
    assert(m / b * b <= m) by {
        vstd::arithmetic::div_mod::lemma_fundamental_div_mod(m, b);
        vstd::arithmetic::div_mod::lemma_mod_bound(m, b);
        vstd::arithmetic::mul::lemma_mul_is_commutative(m / b, b);
    };
    assert(m / b >= 0) by {
        vstd::arithmetic::div_mod::lemma_div_pos_is_pos(m, b);
    };
    assert(m / b <= m) by {
        if m / b > m {
            assert((m / b) * b >= m / b) by (nonlinear_arith)
                requires
                    b >= 1,
                    m / b >= 0,
            ;
        }
    };
}

/// Ceiling division never lands below the exact quotient:
/// `cdiv(a, b) * b >= a`.
pub proof fn lemma_cdiv_lower(a: int, b: int)
    requires
        b > 0,
    ensures
        cdiv(a, b) * b >= a,
        abs_of(cdiv(a, b)) <= abs_of(a) + 1,
{
    vstd::arithmetic::div_mod::lemma_fundamental_div_mod(-a, b);
    vstd::arithmetic::div_mod::lemma_mod_bound(-a, b);
    let q = (-a) / b;
    assert(cdiv(a, b) * b == -(b * q)) by (nonlinear_arith)
        requires
            cdiv(a, b) == -q,
    ;
    assert(abs_of(-q) <= abs_of(a) + 1) by {
        let r = (-a) % b;
        if a <= 0 {
            lemma_tdiv_bounds(-a, b);
            assert(tdiv(-a, b) == q);
        } else {
            if r == 0 {
                assert((-q) * b + 0 == a) by (nonlinear_arith)
                    requires
                        -a == b * q + r,
                        r == 0,
                ;
                vstd::arithmetic::div_mod::lemma_fundamental_div_mod_converse(a, b, -q, 0);
            } else {
                assert((-q - 1) * b + (b - r) == a) by (nonlinear_arith)
                    requires
                        -a == b * q + r,
                ;
                vstd::arithmetic::div_mod::lemma_fundamental_div_mod_converse(a, b, -q - 1, b - r);
            }
            lemma_tdiv_bounds(a, b);
            assert(a / b <= a);
        }
    };
}

/// A product of bounded factors is bounded by the product of the bounds.
pub proof fn lemma_mul_bounds(a: int, b: int, ma: int, mb: int)
    by (nonlinear_arith)
    requires
        -ma <= a <= ma,
        -mb <= b <= mb,
        0 <= ma,
        0 <= mb,
    ensures
        -(ma * mb) <= a * b <= ma * mb,
{
}

/// `r` is the integer square root of `n`, rounded down.
pub open spec fn is_floor_sqrt(n: int, r: int) -> bool {
    0 <= r && r * r <= n && n < (r + 1) * (r + 1)
}

/// Integer square root of a nonnegative `n`, rounded down.
pub open spec fn floor_sqrt(n: int) -> int {
    choose|r: int| is_floor_sqrt(n, r)
}

/// Integer square root of a nonnegative `n`, rounded up.
pub open spec fn ceil_sqrt(n: int) -> int {
    if floor_sqrt(n) * floor_sqrt(n) == n {
        floor_sqrt(n)
    } else {
        floor_sqrt(n) + 1
    }
}

/// Every nonnegative `n` has a floor square root, so `floor_sqrt(n)`
/// denotes it.
pub proof fn lemma_floor_sqrt(n: int)
    requires
        0 <= n,
    ensures
        is_floor_sqrt(n, floor_sqrt(n)),
    decreases n,
{
    if n == 0 {
        assert(is_floor_sqrt(0, 0));
    } else {
        lemma_floor_sqrt(n - 1);
        let r = floor_sqrt(n - 1);
        assert(is_floor_sqrt(n - 1, r));
        if (r + 1) * (r + 1) <= n {
            assert(is_floor_sqrt(n, r + 1)) by (nonlinear_arith)
                requires
                    0 <= r,
                    r * r <= n - 1,
                    n - 1 < (r + 1) * (r + 1),
                    (r + 1) * (r + 1) <= n,
            ;
        } else {
            assert(is_floor_sqrt(n, r));
        }
    }
    assert(exists|r: int| is_floor_sqrt(n, r));
}

/// The ceiling square root dominates `n`: its square is at least `n`.
pub proof fn lemma_ceil_sqrt(n: int)
    requires
        0 <= n,
    ensures
        0 <= ceil_sqrt(n),
        n <= ceil_sqrt(n) * ceil_sqrt(n),
        1 <= n ==> 1 <= ceil_sqrt(n),
{
    lemma_floor_sqrt(n);
    let f = floor_sqrt(n);
    if f * f != n {
        assert(ceil_sqrt(n) == f + 1);
        assert(n < (f + 1) * (f + 1));
    }
}

/// Two floor square roots of the same number are equal.
pub proof fn lemma_floor_sqrt_unique(n: int, a: int, b: int)
    by (nonlinear_arith)
    requires
        is_floor_sqrt(n, a),
        is_floor_sqrt(n, b),
    ensures
        a == b,
{
}

/// Integer square root of a `u128`, rounded down, by bisection.
pub fn floor_sqrt_u128(n: u128) -> (r: u64)
    ensures
        r as int == floor_sqrt(n as int),
        is_floor_sqrt(n as int, r as int),
{
    let mut lo: u128 = 0;
    let mut hi: u128 = TWO_POW_64;
    proof {
        assert(n < TWO_POW_64 * TWO_POW_64) by (nonlinear_arith)
            requires
                n <= u128::MAX,
            ;
    }
    while lo + 1 < hi
        invariant
            0 <= lo < hi <= TWO_POW_64,
            lo * lo <= n,
            n < hi * hi,
        decreases hi - lo,
    {
        let mid: u128 = lo + (hi - lo) / 2;
        assert(lo < mid < hi);
        proof {
            assert(mid * mid < TWO_POW_64 * TWO_POW_64) by (nonlinear_arith)
                requires
                    0 <= mid < TWO_POW_64,
            ;
        }
        if mid * mid <= n {
            lo = mid;
        } else {
            hi = mid;
        }
    }
    proof {
        assert(hi == lo + 1);
        assert(is_floor_sqrt(n as int, lo as int));
        lemma_floor_sqrt(n as int);
        lemma_floor_sqrt_unique(n as int, lo as int, floor_sqrt(n as int));
    }
    lo as u64
}

/// The square of the largest `u64`.
pub const U64_MAX_SQUARED: u128 = 0xFFFF_FFFF_FFFF_FFFE_0000_0000_0000_0001;

/// Integer square root of a `u128`, rounded up.
pub fn ceil_sqrt_u128(n: u128) -> (r: u64)
    requires
        n < U64_MAX_SQUARED,
    ensures
        r as int == ceil_sqrt(n as int),
{
    let f = floor_sqrt_u128(n);
    let ff = (f as u128) * (f as u128);
    if ff == n {
        f
    } else {
        proof {
            assert(f < 0xFFFF_FFFF_FFFF_FFFFu64) by (nonlinear_arith)
                requires
                    (f as int) * (f as int) <= n as int,
                    (n as int) < 0xFFFF_FFFF_FFFF_FFFE_0000_0000_0000_0001,
            ;
        }
        f + 1
    }
}

/// Division of an `i128` by a positive divisor, rounding towards zero.
pub fn tdiv_i128(a: i128, b: i128) -> (r: i128)
    requires
        b > 0,
        a > i128::MIN,
    ensures
        r as int == tdiv(a as int, b as int),
        abs_of(r as int) <= abs_of(a as int),
{
    proof {
        lemma_tdiv_bounds(a as int, b as int);
    }
    if a >= 0 {
        let q = (a as u128) / (b as u128);
        proof {
            lemma_div_is_ordered(0, a as int, b as int);
        }
        q as i128
    } else {
        let q = ((-a) as u128) / (b as u128);
        proof {
            lemma_div_is_ordered(0, -(a as int), b as int);
        }
        -(q as i128)
    }
}

/// Division of an `i128` by a positive divisor, rounding towards positive
/// infinity.
pub fn cdiv_i128(a: i128, b: i128) -> (r: i128)
    requires
        b > 0,
        i128::MIN < a < i128::MAX,
    ensures
        r as int == cdiv(a as int, b as int),
        abs_of(r as int) <= abs_of(a as int) + 1,
{
    if a <= 0 {
        let q = ((-a) as u128) / (b as u128);
        proof {
            lemma_div_is_ordered(0, -(a as int), b as int);
            lemma_tdiv_bounds(-(a as int), b as int);
        }
        -(q as i128)
    } else {
        let q = (a as u128) / (b as u128);
        let rem = (a as u128) % (b as u128);
        proof {
            let ai = a as int;
            let bi = b as int;
            lemma_div_is_ordered(0, ai, bi);
            lemma_tdiv_bounds(ai, bi);
            vstd::arithmetic::div_mod::lemma_fundamental_div_mod(ai, bi);
            vstd::arithmetic::div_mod::lemma_mod_bound(ai, bi);
            let qi = ai / bi;
            let ri = ai % bi;
            if ri == 0 {
                assert((-qi) * bi + 0 == -ai) by (nonlinear_arith)
                    requires
                        ai == bi * qi + ri,
                        ri == 0,
                ;
                vstd::arithmetic::div_mod::lemma_fundamental_div_mod_converse(-ai, bi, -qi, 0);
            } else {
                assert((-qi - 1) * bi + (bi - ri) == -ai) by (nonlinear_arith)
                    requires
                        ai == bi * qi + ri,
                ;
                vstd::arithmetic::div_mod::lemma_fundamental_div_mod_converse(
                    -ai,
                    bi,
                    -qi - 1,
                    bi - ri,
                );
                assert(qi < ai) by (nonlinear_arith)
                    requires
                        ai == bi * qi + ri,
                        ri > 0,
                        bi >= 1,
                        qi >= 0,
                        ai > 0,
                ;
            }
        }
        if rem == 0 {
            q as i128
        } else {
            (q as i128) + 1
        }
    }
}

/// True when `number` lies within `margin` of `target`, in either
/// direction.
pub fn value_near(number: i64, target: i64, margin: i64) -> (r: bool)
    ensures
        r == (target - margin <= number <= target + margin),
{
    (number as i128) >= (target as i128) - (margin as i128) && (number as i128) <= (target as i128)
        + (margin as i128)
}

} // verus!
