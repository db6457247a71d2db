//! Fixed-point scalars.
//!
//! A real value `x` is carried as the signed 64-bit integer nearest to
//! `x * SCALE`.  The scale is `5604 * 1000`: 5604 is the largest entry of the
//! partition-count table, so every normalized lattice peak `p / 5604` has an
//! exact representation (`p * 1000` raw units).

use vstd::prelude::*;

verus! {

use vstd::arithmetic::div_mod::lemma_div_is_ordered;
use vstd::arithmetic::div_mod::lemma_fundamental_div_mod;
use vstd::arithmetic::div_mod::lemma_fundamental_div_mod_converse;

/// Raw units per 1.0.
pub const SCALE: i64 = 5_604_000;

/// Largest raw magnitude a matrix entry may carry (about 196 000 in real
/// units).  Anything beyond this bound is treated as a non-finite result,
/// the fixed-point analogue of a floating-point overflow.
pub const MAX_RAW: i64 = 0x100_0000_0000;

/// A raw value small enough to be stored in a matrix.
pub open spec fn fits(x: int) -> bool {
    -MAX_RAW <= x <= MAX_RAW
}

/// The fixed-point product of two raw values: `a * b` carries scale
/// `SCALE * SCALE`, so one factor of `SCALE` is divided back out
/// (Euclidean division: the quotient rounds toward minus infinity).
pub open spec fn scaled(a: int, b: int) -> int {
    (a * b) / (SCALE as int)
}

/// Absolute distance between two values.
pub open spec fn abs_diff(x: int, y: int) -> int {
    if x >= y {
        x - y
    } else {
        y - x
    }
}

/// Fixed-point multiplication.  The asymmetric bounds admit one factor above
/// `MAX_RAW` (standard deviations and noise deviates run up to a few times
/// the entry bound) while keeping the quotient inside `i64`.
pub fn fixed_mul(a: i64, b: i64) -> (r: i64)
    requires
        fits(a as int),
        -4 * MAX_RAW <= b <= 4 * MAX_RAW,
    ensures
        r == scaled(a as int, b as int),
{
    assert(-0x4_0000_0000_0000_0000_0000 <= a as int * b as int <= 0x4_0000_0000_0000_0000_0000)
        by (nonlinear_arith)
        requires
            -MAX_RAW <= a <= MAX_RAW,
            -4 * MAX_RAW <= b <= 4 * MAX_RAW,
    ;
    let p: i128 = (a as i128) * (b as i128);
    proof {
        lemma_scaled_range(p as int, 0x4_0000_0000_0000_0000_0000);
    }
    let q: i128 = p.checked_div_euclid(SCALE as i128).unwrap();
    q as i64
}

/// The Euclidean quotient by `SCALE` of a value bounded by `m` in magnitude
/// is bounded by `m / SCALE` above and one further unit below.
pub proof fn lemma_scaled_range(p: int, m: int)
    requires
        0 <= m,
        -m <= p <= m,
    ensures
        -(m / SCALE as int) - 1 <= p / SCALE as int <= m / SCALE as int,
{
    let s = SCALE as int;
    lemma_div_is_ordered(p, m, s);
    lemma_fundamental_div_mod(m, s);
    let q = m / s;
    let r = m % s;
    if r == 0 {
        lemma_fundamental_div_mod_converse(-m, s, -q, 0);
    } else {
        lemma_fundamental_div_mod_converse(-m, s, -q - 1, s - r);
    }
    lemma_div_is_ordered(-m, p, s);
}

/// A scaled product of a nonnegative value `a` with a value between
/// `-c * SCALE` and `c * SCALE` lies between `-c * a` and `c * a`.
pub proof fn lemma_scaled_of_bounded(a: int, b: int, c: int)
    requires
        0 <= a,
        0 <= c,
        -c * SCALE as int <= b <= c * SCALE as int,
    ensures
        -(c * a) <= scaled(a, b) <= c * a,
{
    let s = SCALE as int;
    assert(a * b <= (c * a) * s && (-(c * a)) * s <= a * b) by (nonlinear_arith)
        requires
            0 <= a,
            0 < s,
            (-c) * s <= b <= c * s,
    ;
    lemma_div_is_ordered(a * b, (c * a) * s, s);
    lemma_div_is_ordered((-(c * a)) * s, a * b, s);
    lemma_exact_div(c * a, s);
    lemma_exact_div(-(c * a), s);
}

/// `(q * d) / d == q` for a positive divisor.
pub proof fn lemma_exact_div(q: int, d: int)
    requires
        0 < d,
    ensures
        (q * d) / d == q,
{
    lemma_fundamental_div_mod_converse(q * d, d, q, 0);
}

} // verus!
