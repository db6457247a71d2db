//! The tension, drift, resolution and full-cycle phases.

use weave_lang::Matrix;
use weave_lang::TensionCycle;
use weave_lang::fixed::SCALE;
use weave_lang::qualic_partition::compute_partition_peaks;

fn to_float(raw: i64) -> f64 {
    raw as f64 / SCALE as f64
}

fn from_float(x: f64) -> i64 {
    (x * SCALE as f64).round() as i64
}

fn matrix_from(rows: usize, cols: usize, vals: &[f64]) -> Matrix {
    let data: Vec<i64> = vals.iter().map(|&x| from_float(x)).collect();
    Matrix::new(rows, cols, data).unwrap()
}

#[test]
fn test_tension_phase() {
    let cycle = TensionCycle::new(2, 3, false).unwrap();
    let sensors = matrix_from(2, 3, &[1.0, 2.0, 3.0, 4.0, 5.0, 6.0]);
    let c_q = cycle.tension(&sensors).unwrap();
    assert_eq!((c_q.rows(), c_q.cols()), (2, 2));
    // Constant weight 0.7: the first entry is 0.7 * (1 + 2 + 3) = 4.2.
    assert!((to_float(c_q.get(0, 0)) - 4.2).abs() < 1e-10);
    assert!((to_float(c_q.get(1, 1)) - 0.7 * (4.0 + 5.0 + 6.0)).abs() < 1e-10);
}

#[test]
fn test_drift_phase_continuous() {
    let mut cycle = TensionCycle::new(2, 3, false).unwrap();
    let c_q = matrix_from(2, 2, &[1.0, 2.0, 3.0, 4.0]);
    let f_q = cycle.drift(&c_q).unwrap();
    assert_eq!((f_q.rows(), f_q.cols()), (2, 2));
    // Every entry carries one noise sample from the configured distribution
    // (mean 0.5, deviation 0.2, support within six deviations of the mean).
    for i in 0..2 {
        for j in 0..2 {
            let added = to_float(f_q.get(i, j)) - to_float(c_q.get(i, j));
            assert!(added >= 0.5 - 1.2 - 1e-6 && added <= 0.5 + 1.2 + 1e-6);
        }
    }
}

#[test]
fn test_drift_phase_discretized() {
    let mut cycle = TensionCycle::new(2, 3, true).unwrap();
    let c_q = matrix_from(2, 2, &[0.1, 0.4, 0.7, 0.2]);
    let f_q = cycle.drift(&c_q).unwrap();
    let peaks = compute_partition_peaks(30);
    assert_eq!((f_q.rows(), f_q.cols()), (2, 2));
    for i in 0..2 {
        for j in 0..2 {
            let x = to_float(f_q.get(i, j));
            assert!(peaks.iter().any(|&p| (x - to_float(p)).abs() < 1e-10));
        }
    }
}

#[test]
fn test_resolution_phase() {
    let cycle = TensionCycle::new(2, 3, false).unwrap();
    let c_q = matrix_from(2, 2, &[1.0, 2.0, 3.0, 4.0]);
    let f_q = matrix_from(2, 2, &[1.5, 2.5, 3.5, 4.5]);
    let j_q = cycle.resolution(&c_q, &f_q).unwrap();
    let expected = 0.6 * (1.0 + 2.0 + 3.0 + 4.0) / 4.0
        + 0.4
            * ((1.5f64 - 3.0).powi(2) + (2.5f64 - 3.0).powi(2) + (3.5f64 - 3.0).powi(2)
                + (4.5f64 - 3.0).powi(2))
            .sqrt()
            / 2.0;
    assert!((to_float(j_q) - expected).abs() < 1e-6);
}

#[test]
fn test_full_cycle() {
    let mut cycle = TensionCycle::new(2, 3, true).unwrap();
    let sensors = matrix_from(2, 3, &[1.0, 2.0, 3.0, 4.0, 5.0, 6.0]);
    let out = cycle.cycle(&sensors).unwrap();
    assert_eq!((out.c_q.rows(), out.c_q.cols()), (2, 2));
    assert_eq!((out.f_q.rows(), out.f_q.cols()), (2, 2));
    let peaks = compute_partition_peaks(30);
    for i in 0..2 {
        for j in 0..2 {
            let x = to_float(out.f_q.get(i, j));
            assert!(peaks.iter().any(|&p| (x - to_float(p)).abs() < 1e-10));
        }
    }
    assert!(out.iterations <= 100);
}
