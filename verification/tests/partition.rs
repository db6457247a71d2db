//! Lattice construction and discretization.

use weave_lang::Matrix;
use weave_lang::fixed::SCALE;
use weave_lang::qualic_partition::compute_partition_peaks;
use weave_lang::qualic_partition::discretize_to_peaks;

fn to_float(raw: i64) -> f64 {
    raw as f64 / SCALE as f64
}

fn from_float(x: f64) -> i64 {
    (x * SCALE as f64).round() as i64
}

fn matrix_from(rows: usize, cols: usize, vals: &[f64]) -> Matrix {
    let data: Vec<i64> = vals.iter().map(|&x| from_float(x)).collect();
    Matrix::new(rows, cols, data).unwrap()
}

#[test]
fn test_partition_peaks() {
    let peaks = compute_partition_peaks(5);
    let expected = [1.0 / 5604.0, 2.0 / 5604.0, 3.0 / 5604.0, 5.0 / 5604.0, 7.0 / 5604.0];
    assert_eq!(peaks.len(), 5);
    let total: f64 = peaks
        .iter()
        .zip(expected.iter())
        .map(|(&p, &e)| (to_float(p) - e).abs())
        .sum();
    assert!(total < 1e-10);
}

#[test]
fn test_discretize() {
    let peaks = compute_partition_peaks(3);
    let tensor = matrix_from(2, 2, &[0.1, 0.4, 0.7, 0.2]);
    let discretized = discretize_to_peaks(&tensor, &peaks);
    for i in 0..2 {
        for j in 0..2 {
            let x = to_float(discretized.get(i, j));
            assert!(peaks.iter().any(|&p| (x - to_float(p)).abs() < 1e-10));
        }
    }
}

#[test]
fn test_partition_peaks_accuracy() {
    let peaks = compute_partition_peaks(5);
    let expected = [1.0 / 5604.0, 2.0 / 5604.0, 3.0 / 5604.0, 5.0 / 5604.0, 7.0 / 5604.0];
    let total: f64 = peaks
        .iter()
        .zip(expected.iter())
        .map(|(&p, &e)| (to_float(p) - e).abs())
        .sum();
    assert!(total < 1e-10);
}

#[test]
fn test_discretize_tensor() {
    let peaks = compute_partition_peaks(3);
    let tensor = matrix_from(2, 2, &[0.1, 0.4, 0.7, 0.2]);
    let discretized = discretize_to_peaks(&tensor, &peaks);
    for i in 0..2 {
        for j in 0..2 {
            let x = to_float(discretized.get(i, j));
            assert!(peaks.iter().any(|&p| (x - to_float(p)).abs() < 1e-10));
        }
    }
}

#[test]
fn test_build_zero_empty_and_clamp() {
    assert_eq!(compute_partition_peaks(0).len(), 0);
    assert_eq!(compute_partition_peaks(30).len(), 30);
    assert_eq!(compute_partition_peaks(45).len(), 30);
    let peaks = compute_partition_peaks(30);
    assert!((to_float(*peaks.last().unwrap()) - 1.0).abs() < 1e-12);
}

#[test]
fn test_build_monotone_in_unit_interval() {
    for n in 1..=30usize {
        let peaks = compute_partition_peaks(n);
        assert_eq!(peaks.len(), n);
        for w in peaks.windows(2) {
            assert!(w[0] < w[1]);
        }
        for &p in &peaks {
            let v = to_float(p);
            assert!(v > 0.0 && v <= 1.0);
        }
    }
}

#[test]
fn test_discretize_collapses_to_largest_peak() {
    // Every tensor entry is three orders of magnitude above the three-point
    // lattice, so every output collapses onto the largest peak, 3/5604.
    let peaks = compute_partition_peaks(3);
    let tensor = matrix_from(2, 2, &[0.1, 0.4, 0.7, 0.2]);
    let discretized = discretize_to_peaks(&tensor, &peaks);
    for i in 0..2 {
        for j in 0..2 {
            assert_eq!(discretized.get(i, j), from_float(3.0 / 5604.0));
        }
    }
}

#[test]
fn test_nearest_tie_prefers_lowest_index() {
    // 2.5/5604 sits exactly between the second and third peaks; the lower
    // index must win.
    let peaks = compute_partition_peaks(3);
    let tensor = matrix_from(1, 1, &[2.5 / 5604.0]);
    let discretized = discretize_to_peaks(&tensor, &peaks);
    assert_eq!(discretized.get(0, 0), 2000);
}
