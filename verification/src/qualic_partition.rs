//! The discretization lattice: normalized integer-partition counts.
//!
//! The table holds the number of integer partitions of `n` for `n` from 1 to
//! 30 (1, 2, 3, 5, 7, ..., 5604).  Each entry is normalized by the table's
//! maximum, 5604; with `SCALE == 5604 * 1000` the normalized peak for index
//! `n` is exactly `partition_count(n) * 1000` raw units, so the lattice is
//! exact.

use vstd::prelude::*;

verus! {

use crate::fixed::MAX_RAW;
use crate::fixed::SCALE;
use crate::fixed::abs_diff;
use crate::fixed::fits;
use crate::matrix::Matrix;
use crate::matrix::lemma_flat_index;

/// Number of entries in the partition-count table.
pub const TABLE_LEN: usize = 30;

/// The partition-count table by index: `partition_count(n)` is the number of
/// integer partitions of `n + 1`, for indices 0 through 29.
pub open spec fn partition_count(n: int) -> int {
    if n == 0 {
        1
    } else if n == 1 {
        2
    } else if n == 2 {
        3
    } else if n == 3 {
        5
    } else if n == 4 {
        7
    } else if n == 5 {
        11
    } else if n == 6 {
        15
    } else if n == 7 {
        22
    } else if n == 8 {
        30
    } else if n == 9 {
        42
    } else if n == 10 {
        56
    } else if n == 11 {
        77
    } else if n == 12 {
        101
    } else if n == 13 {
        135
    } else if n == 14 {
        176
    } else if n == 15 {
        231
    } else if n == 16 {
        297
    } else if n == 17 {
        385
    } else if n == 18 {
        490
    } else if n == 19 {
        627
    } else if n == 20 {
        792
    } else if n == 21 {
        1002
    } else if n == 22 {
        1255
    } else if n == 23 {
        1575
    } else if n == 24 {
        1958
    } else if n == 25 {
        2436
    } else if n == 26 {
        3010
    } else if n == 27 {
        3718
    } else if n == 28 {
        4565
    } else if n == 29 {
        5604
    } else {
        0
    }
}

/// The normalized lattice value for table index `n`, in raw fixed-point
/// units: `partition_count(n) / 5604` scaled by `SCALE`.
pub open spec fn peak_value(n: int) -> int {
    partition_count(n) * 1000
}

/// The lattice produced for a requested depth: the first `min(max_n, 30)`
/// normalized table entries, in table order.
pub open spec fn peaks_spec(max_n: int) -> Seq<i64> {
    Seq::new(
        (if max_n > TABLE_LEN as int {
            TABLE_LEN as int
        } else {
            max_n
        }) as nat,
        |i: int| peak_value(i) as i64,
    )
}

/// The partition-count table entry at `n`, executable form.
pub fn partition_count_at(n: usize) -> (r: i64)
    requires
        n < TABLE_LEN,
    ensures
        r as int == partition_count(n as int),
        1 <= r <= 5604,
{
    match n {
        0 => 1,
        1 => 2,
        2 => 3,
        3 => 5,
        4 => 7,
        5 => 11,
        6 => 15,
        7 => 22,
        8 => 30,
        9 => 42,
        10 => 56,
        11 => 77,
        12 => 101,
        13 => 135,
        14 => 176,
        15 => 231,
        16 => 297,
        17 => 385,
        18 => 490,
        19 => 627,
        20 => 792,
        21 => 1002,
        22 => 1255,
        23 => 1575,
        24 => 1958,
        25 => 2436,
        26 => 3010,
        27 => 3718,
        28 => 4565,
        _ => 5604,
    }
}

/// Adjacent table entries strictly increase.
proof fn lemma_partition_adjacent(n: int)
    requires
        0 <= n < 29,
    ensures
        partition_count(n) < partition_count(n + 1),
{
}

/// The table strictly increases over its whole index range.
pub proof fn lemma_partition_increasing(i: int, j: int)
    requires
        0 <= i < j < 30,
    ensures
        partition_count(i) < partition_count(j),
    decreases j - i,
{
    if j == i + 1 {
        lemma_partition_adjacent(i);
    } else {
        lemma_partition_increasing(i, j - 1);
        lemma_partition_adjacent(j - 1);
    }
}

/// Builds the lattice of normalized partition peaks for the requested depth.
///
/// Returns the first `min(max_n, 30)` table entries, each divided by the
/// table maximum 5604: strictly increasing values in `(0, 1]`.  A depth of 0
/// yields an empty lattice; a depth beyond the table is clamped to the table
/// length (a guaranteed behavior, exercised by the tests, not an error).
pub fn compute_partition_peaks(max_n: usize) -> (peaks: Vec<i64>)
    ensures
        peaks@ == peaks_spec(max_n as int),
        peaks@.len() == if max_n > TABLE_LEN {
            TABLE_LEN as int
        } else {
            max_n as int
        },
        forall|i: int| 0 <= i < peaks@.len() ==> peaks@[i] as int == peak_value(i),
        forall|i: int| 0 <= i < peaks@.len() ==> 0 < #[trigger] peaks@[i] && peaks@[i] <= SCALE,
        forall|i: int, j: int| #![trigger peaks@[i], peaks@[j]] 0 <= i < j < peaks@.len() ==> peaks@[i] < peaks@[j],
        max_n >= TABLE_LEN ==> peaks@.last() as int == SCALE as int,
{
    let n_eff: usize = if max_n > TABLE_LEN {
        TABLE_LEN
    } else {
        max_n
    };
    let mut peaks: Vec<i64> = Vec::new();
    let mut i: usize = 0;
    while i < n_eff
        invariant
            0 <= i <= n_eff <= TABLE_LEN,
            peaks@.len() == i,
            forall|t: int| 0 <= t < i ==> peaks@[t] as int == peak_value(t),
        decreases n_eff - i,
    {
        let c = partition_count_at(i);
        peaks.push(c * 1000);
        i = i + 1;
    }
    proof {
        assert(peaks@ =~= peaks_spec(max_n as int));
        assert forall|t: int| 0 <= t < peaks@.len() implies 0 < #[trigger] peaks@[t] && peaks@[t]
            <= SCALE by {
            if t < 29 {
                lemma_partition_increasing(t, 29);
            }
        }
        assert forall|a: int, b: int| 0 <= a < b < peaks@.len() implies peaks@[a] < peaks@[b] by {
            lemma_partition_increasing(a, b);
        }
    }
    peaks
}

/// `i` indexes a closest lattice entry to `x`, and no earlier index comes as
/// close: the canonical tie-broken choice.
pub open spec fn nearest_at(lat: Seq<i64>, x: int, i: int) -> bool {
    &&& 0 <= i < lat.len()
    &&& forall|j: int|
        0 <= j < lat.len() ==> abs_diff(x, lat[i] as int) <= #[trigger] abs_diff(x, lat[j] as int)
    &&& forall|j: int| 0 <= j < i ==> #[trigger] abs_diff(x, lat[j] as int) > abs_diff(x, lat[i] as int)
}

/// `r` is the lattice entry closest to `x`, ties broken toward the lowest
/// lattice index.
pub open spec fn is_nearest(lat: Seq<i64>, x: int, r: int) -> bool {
    exists|i: int| #[trigger] nearest_at(lat, x, i) && r == lat[i]
}

/// Absolute distance, executable form.
fn abs_diff_i64(a: i64, b: i64) -> (r: i64)
    requires
        -32 * MAX_RAW <= a <= 32 * MAX_RAW,
        -32 * MAX_RAW <= b <= 32 * MAX_RAW,
    ensures
        r == abs_diff(a as int, b as int),
{
    if a >= b {
        a - b
    } else {
        b - a
    }
}

/// The lattice entry with minimal absolute distance to `x`; among equally
/// close entries the one with the lowest index wins.
pub fn nearest_peak(x: i64, peaks: &Vec<i64>) -> (r: i64)
    requires
        peaks@.len() >= 1,
        forall|k: int| 0 <= k < peaks@.len() ==> fits(peaks@[k] as int),
        -16 * MAX_RAW <= x <= 16 * MAX_RAW,
    ensures
        is_nearest(peaks@, x as int, r as int),
        peaks@.contains(r),
        fits(r as int),
{
    let n = peaks.len();
    let mut best: i64 = peaks[0];
    let mut bd: i64 = abs_diff_i64(x, best);
    let ghost mut bi: int = 0;
    let mut k: usize = 1;
    while k < n
        invariant
            1 <= k <= n,
            n == peaks@.len(),
            forall|t: int| 0 <= t < peaks@.len() ==> fits(peaks@[t] as int),
            -16 * MAX_RAW <= x <= 16 * MAX_RAW,
            0 <= bi < k,
            best == peaks@[bi],
            bd == abs_diff(x as int, best as int),
            forall|j: int|
                0 <= j < k ==> abs_diff(x as int, best as int) <= #[trigger] abs_diff(
                    x as int,
                    peaks@[j] as int,
                ),
            forall|j: int|
                0 <= j < bi ==> #[trigger] abs_diff(x as int, peaks@[j] as int) > abs_diff(
                    x as int,
                    best as int,
                ),
        decreases n - k,
    {
        let c = peaks[k];
        let d = abs_diff_i64(x, c);
        if d < bd {
            best = c;
            bd = d;
            proof {
                bi = k as int;
            }
        }
        k = k + 1;
    }
    proof {
        assert(nearest_at(peaks@, x as int, bi));
        assert(peaks@[bi] == best);
    }
    best
}

/// Snaps every entry of `tensor` onto the lattice: the output has the same
/// shape, every output entry is a lattice value, and each lies at least as
/// close to the corresponding input entry as any other lattice value does.
pub fn discretize_to_peaks(tensor: &Matrix, peaks: &Vec<i64>) -> (r: Matrix)
    requires
        tensor.wf(),
        peaks@.len() >= 1,
        forall|k: int| 0 <= k < peaks@.len() ==> fits(peaks@[k] as int),
    ensures
        r.wf(),
        r.nrows() == tensor.nrows(),
        r.ncols() == tensor.ncols(),
        forall|i: int, j: int|
            0 <= i < r.nrows() && 0 <= j < r.ncols() ==> is_nearest(
                peaks@,
                tensor.entry(i, j),
                r.entry(i, j),
            ),
        forall|k: int| 0 <= k < r.vals().len() ==> peaks@.contains(#[trigger] r.vals()[k]),
{
    let rows = tensor.rows();
    let cols = tensor.cols();
    let n = tensor.entry_count();
    let mut data: Vec<i64> = Vec::new();
    let mut k: usize = 0;
    while k < n
        invariant
            0 <= k <= n,
            n == tensor.vals().len(),
            tensor.wf(),
            peaks@.len() >= 1,
            forall|t: int| 0 <= t < peaks@.len() ==> fits(peaks@[t] as int),
            data@.len() == k,
            forall|t: int|
                0 <= t < k ==> is_nearest(peaks@, tensor.vals()[t] as int, #[trigger] data@[t] as int),
            forall|t: int| 0 <= t < k ==> peaks@.contains(#[trigger] data@[t]),
            forall|t: int| 0 <= t < k ==> fits(#[trigger] data@[t] as int),
        decreases n - k,
    {
        let v = tensor.raw_at(k);
        let s = nearest_peak(v, peaks);
        data.push(s);
        k = k + 1;
    }
    let r = Matrix::from_parts(rows, cols, data);
    proof {
        assert forall|i: int, j: int|
            0 <= i < r.nrows() && 0 <= j < r.ncols() implies is_nearest(
            peaks@,
            tensor.entry(i, j),
            r.entry(i, j),
        ) by {
            lemma_flat_index(r.nrows(), r.ncols(), i, j);
        }
    }
    r
}

} // verus!
