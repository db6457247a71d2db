//! Sums, means, population variance and integer square roots over raw
//! fixed-point values.
//!
//! The resolution score needs the mean of one matrix and the population
//! standard deviation of another.  Both are defined here over flat sequences
//! of raw entries; the square root is the exact floor square root, pinned by
//! the relational predicate [`is_sqrt_floor`].

use vstd::prelude::*;

verus! {

use crate::fixed::MAX_RAW;
use crate::fixed::fits;
use vstd::arithmetic::div_mod::lemma_div_is_ordered;
use vstd::arithmetic::div_mod::lemma_div_pos_is_pos;
use vstd::arithmetic::div_mod::lemma_fundamental_div_mod;
use crate::fixed::lemma_exact_div;

/// Sum of a sequence of raw values.
pub open spec fn sum_of(s: Seq<i64>) -> int
    decreases s.len(),
{
    if s.len() == 0 {
        0
    } else {
        sum_of(s.drop_last()) + s.last()
    }
}

/// Mean of a non-empty sequence (Euclidean quotient).
pub open spec fn mean_of(s: Seq<i64>) -> int {
    sum_of(s) / s.len() as int
}

/// Sum of squared deviations from `m`.
pub open spec fn sum_sq_dev(s: Seq<i64>, m: int) -> int
    decreases s.len(),
{
    if s.len() == 0 {
        0
    } else {
        sum_sq_dev(s.drop_last(), m) + (s.last() - m) * (s.last() - m)
    }
}

/// Population variance of a non-empty sequence: squared deviations from the
/// mean, divided by the population size (not size minus one).
pub open spec fn variance_of(s: Seq<i64>) -> int {
    sum_sq_dev(s, mean_of(s)) / s.len() as int
}

/// Upper bound on one squared deviation: `(2 * MAX_RAW + 1)` squared is
/// below `2^83`.
pub open spec fn dev_sq_bound() -> int {
    0x8_0000_0000_0000_0000_0000
}

/// `r` is the floor of the square root of `v`.
pub open spec fn is_sqrt_floor(v: int, r: int) -> bool {
    &&& 0 <= r
    &&& r * r <= v
    &&& v < (r + 1) * (r + 1)
}

/// The floor square root is unique.
pub proof fn lemma_sqrt_floor_unique(v: int, r1: int, r2: int)
    requires
        is_sqrt_floor(v, r1),
        is_sqrt_floor(v, r2),
    ensures
        r1 == r2,
{
    assert(r1 == r2) by (nonlinear_arith)
        requires
            0 <= r1 && r1 * r1 <= v && v < (r1 + 1) * (r1 + 1),
            0 <= r2 && r2 * r2 <= v && v < (r2 + 1) * (r2 + 1),
    ;
}

/// Extending a prefix by one element adds that element to its sum.
pub proof fn lemma_sum_take_step(s: Seq<i64>, i: int)
    requires
        0 <= i < s.len(),
    ensures
        sum_of(s.take(i + 1)) == sum_of(s.take(i)) + s[i],
{
    let t = s.take(i + 1);
    assert(t.drop_last() =~= s.take(i));
}

/// Extending a prefix by one element adds its squared deviation.
pub proof fn lemma_sum_sq_dev_take_step(s: Seq<i64>, m: int, i: int)
    requires
        0 <= i < s.len(),
    ensures
        sum_sq_dev(s.take(i + 1), m) == sum_sq_dev(s.take(i), m) + (s[i] - m) * (s[i] - m),
{
    let t = s.take(i + 1);
    assert(t.drop_last() =~= s.take(i));
}

/// The sum of values that fit is bounded by the length times the entry bound.
pub proof fn lemma_sum_bound(s: Seq<i64>)
    requires
        forall|k: int| 0 <= k < s.len() ==> fits(s[k] as int),
    ensures
        -(s.len() * (MAX_RAW as int)) <= sum_of(s) <= s.len() * (MAX_RAW as int),
    decreases s.len(),
{
    if s.len() > 0 {
        lemma_sum_bound(s.drop_last());
    }
}

/// Squared deviations from a bounded center are nonnegative and bounded.
pub proof fn lemma_sum_sq_dev_bound(s: Seq<i64>, m: int)
    requires
        forall|k: int| 0 <= k < s.len() ==> fits(s[k] as int),
        -(MAX_RAW as int) - 1 <= m <= MAX_RAW as int,
    ensures
        0 <= sum_sq_dev(s, m),
        sum_sq_dev(s, m) <= s.len() * dev_sq_bound(),
    decreases s.len(),
{
    if s.len() > 0 {
        lemma_sum_sq_dev_bound(s.drop_last(), m);
        let d = s.last() - m;
        assert(0 <= d * d <= dev_sq_bound()) by (nonlinear_arith)
            requires
                -(2 * (MAX_RAW as int) + 1) <= d <= 2 * (MAX_RAW as int) + 1,
        ;
    }
}

/// The mean of a non-empty sequence of fitting values is itself nearly in
/// range: one unit below the lower entry bound at worst.
pub proof fn lemma_mean_bound(s: Seq<i64>)
    requires
        s.len() > 0,
        forall|k: int| 0 <= k < s.len() ==> fits(s[k] as int),
    ensures
        -(MAX_RAW as int) - 1 <= mean_of(s) <= MAX_RAW as int,
{
    let n = s.len() as int;
    lemma_sum_bound(s);
    lemma_div_is_ordered(sum_of(s), n * (MAX_RAW as int), n);
    lemma_div_is_ordered(-(n * (MAX_RAW as int)), sum_of(s), n);
    lemma_exact_div(MAX_RAW as int, n);
    lemma_exact_div(-(MAX_RAW as int), n);
    assert(n * (MAX_RAW as int) == (MAX_RAW as int) * n);
    assert(-(n * (MAX_RAW as int)) == (-(MAX_RAW as int)) * n) by (nonlinear_arith);
}

/// Sum of the entries, exact, in 128-bit arithmetic.
pub fn sum_i128(data: &Vec<i64>) -> (s: i128)
    requires
        data@.len() <= 0x1_0000_0000,
        forall|k: int| 0 <= k < data@.len() ==> fits(data@[k] as int),
    ensures
        s == sum_of(data@),
{
    let n = data.len();
    let mut s: i128 = 0;
    let mut i: usize = 0;
    assert(data@.take(0) =~= Seq::<i64>::empty());
    while i < n
        invariant
            0 <= i <= n,
            n == data@.len() <= 0x1_0000_0000,
            forall|k: int| 0 <= k < data@.len() ==> fits(data@[k] as int),
            s == sum_of(data@.take(i as int)),
            -(i as int) * (MAX_RAW as int) <= s <= (i as int) * (MAX_RAW as int),
        decreases n - i,
    {
        proof {
            lemma_sum_take_step(data@, i as int);
        }
        s = s + (data[i] as i128);
        i = i + 1;
    }
    proof {
        assert(data@.take(n as int) =~= data@);
    }
    s
}

/// Mean of the entries (Euclidean quotient by the population size).
pub fn mean_i64(data: &Vec<i64>) -> (m: i64)
    requires
        0 < data@.len() <= 0x1_0000_0000,
        forall|k: int| 0 <= k < data@.len() ==> fits(data@[k] as int),
    ensures
        m == mean_of(data@),
        -(MAX_RAW as int) - 1 <= m <= MAX_RAW as int,
{
    let s = sum_i128(data);
    proof {
        lemma_mean_bound(data@);
    }
    let q = s.checked_div_euclid(data.len() as i128).unwrap();
    q as i64
}

/// Population variance of the entries: exact Euclidean quotient of the sum
/// of squared deviations from the mean by the population size.
pub fn variance_i128(data: &Vec<i64>) -> (v: i128)
    requires
        0 < data@.len() <= 0x1_0000_0000,
        forall|k: int| 0 <= k < data@.len() ==> fits(data@[k] as int),
    ensures
        v == variance_of(data@),
        0 <= v <= dev_sq_bound(),
{
    let n = data.len();
    let m = mean_i64(data);
    let ghost mg = m as int;
    let mut ssd: i128 = 0;
    let mut i: usize = 0;
    assert(data@.take(0) =~= Seq::<i64>::empty());
    while i < n
        invariant
            0 <= i <= n,
            n == data@.len() <= 0x1_0000_0000,
            forall|k: int| 0 <= k < data@.len() ==> fits(data@[k] as int),
            -(MAX_RAW as int) - 1 <= mg <= MAX_RAW as int,
            m == mg,
            ssd == sum_sq_dev(data@.take(i as int), mg),
            0 <= ssd <= (i as int) * dev_sq_bound(),
        decreases n - i,
    {
        proof {
            lemma_sum_sq_dev_take_step(data@, mg, i as int);
        }
        let d: i64 = data[i] - m;
        proof {
            assert(0 <= (d as int) * (d as int) <= dev_sq_bound()) by (nonlinear_arith)
                requires
                    -(2 * (MAX_RAW as int) + 1) <= d as int <= 2 * (MAX_RAW as int) + 1,
            ;
        }
        let sq: i128 = (d as i128) * (d as i128);
        ssd = ssd + sq;
        i = i + 1;
    }
    proof {
        assert(data@.take(n as int) =~= data@);
        lemma_sum_sq_dev_bound(data@, mg);
        let nn = n as int;
        lemma_div_pos_is_pos(ssd as int, nn);
        lemma_div_is_ordered(ssd as int, nn * dev_sq_bound(), nn);
        lemma_exact_div(dev_sq_bound(), nn);
        assert(nn * dev_sq_bound() == dev_sq_bound() * nn);
    }
    let v = ssd.checked_div_euclid(n as i128).unwrap();
    v
}

/// Floor square root by bisection.
pub fn isqrt(v: u128) -> (r: u128)
    ensures
        is_sqrt_floor(v as int, r as int),
        r <= 0xFFFF_FFFF_FFFF_FFFF,
{
    if v == 0 {
        assert(is_sqrt_floor(0, 0));
        return 0;
    }
    let mut lo: u128 = 0;
    let mut hi: u128 = if v <= 0xFFFF_FFFF_FFFF_FFFF {
        v + 1
    } else {
        0x1_0000_0000_0000_0000
    };
    proof {
        if v <= 0xFFFF_FFFF_FFFF_FFFF {
            assert((v as int) < ((v as int) + 1) * ((v as int) + 1)) by (nonlinear_arith)
                requires
                    1 <= v as int,
            ;
        }
    }
    while lo + 1 < hi
        invariant
            lo < hi <= 0x1_0000_0000_0000_0000,
            lo * lo <= (v as int),
            (v as int) < hi * hi,
        decreases hi - lo,
    {
        let mid = lo + (hi - lo) / 2;
        proof {
            lemma_fundamental_div_mod((hi - lo) as int, 2);
            assert(mid * mid < 0x1_0000_0000_0000_0000_0000_0000_0000_0000) by (nonlinear_arith)
                requires
                    mid < 0x1_0000_0000_0000_0000,
            ;
        }
        let sq = mid * mid;
        if sq <= v {
            lo = mid;
        } else {
            hi = mid;
        }
    }
    lo
}

} // verus!
