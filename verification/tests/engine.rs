//! Configuration, determinism, termination, errors and the registry.

use weave_lang::EngineConfig;
use weave_lang::Matrix;
use weave_lang::Metaweave;
use weave_lang::TdrError;
use weave_lang::TensionCycle;
use weave_lang::TerminationReason;
use weave_lang::fixed::MAX_RAW;
use weave_lang::fixed::SCALE;

fn from_float(x: f64) -> i64 {
    (x * SCALE as f64).round() as i64
}

fn matrix_from(rows: usize, cols: usize, vals: &[f64]) -> Matrix {
    let data: Vec<i64> = vals.iter().map(|&x| from_float(x)).collect();
    Matrix::new(rows, cols, data).unwrap()
}

fn seeded_config(seed: u64, discretize: bool) -> EngineConfig {
    let mut cfg = EngineConfig::default();
    cfg.agent_count = 2;
    cfg.sensor_dim = 3;
    cfg.discretize = discretize;
    cfg.seed = seed;
    cfg
}

#[test]
fn test_cycle_reproducible_with_same_seed() {
    let sensors = matrix_from(2, 3, &[1.0, 2.0, 3.0, 4.0, 5.0, 6.0]);
    let out1 = TensionCycle::with_config(&seeded_config(42, false))
        .unwrap()
        .cycle(&sensors)
        .unwrap();
    let out2 = TensionCycle::with_config(&seeded_config(42, false))
        .unwrap()
        .cycle(&sensors)
        .unwrap();
    assert_eq!(out1.j_q, out2.j_q);
    assert_eq!(out1.iterations, out2.iterations);
    for i in 0..2 {
        for j in 0..2 {
            assert_eq!(out1.c_q.get(i, j), out2.c_q.get(i, j));
            assert_eq!(out1.f_q.get(i, j), out2.f_q.get(i, j));
        }
    }
}

#[test]
fn test_cycle_seeds_differ_in_drift_only() {
    let sensors = matrix_from(2, 3, &[1.0, 2.0, 3.0, 4.0, 5.0, 6.0]);
    let out1 = TensionCycle::with_config(&seeded_config(1, false))
        .unwrap()
        .cycle(&sensors)
        .unwrap();
    let out2 = TensionCycle::with_config(&seeded_config(2, false))
        .unwrap()
        .cycle(&sensors)
        .unwrap();
    let mut same_c = true;
    let mut same_f = true;
    for i in 0..2 {
        for j in 0..2 {
            same_c = same_c && out1.c_q.get(i, j) == out2.c_q.get(i, j);
            same_f = same_f && out1.f_q.get(i, j) == out2.f_q.get(i, j);
        }
    }
    assert!(same_c);
    assert!(!same_f);
}

#[test]
fn test_resolution_is_pure() {
    let cycle = TensionCycle::new(2, 3, false).unwrap();
    let c_q = matrix_from(2, 2, &[1.0, 2.0, 3.0, 4.0]);
    let f_q = matrix_from(2, 2, &[1.5, 2.5, 3.5, 4.5]);
    let j1 = cycle.resolution(&c_q, &f_q).unwrap();
    let j2 = cycle.resolution(&c_q, &f_q).unwrap();
    assert_eq!(j1, j2);
    // Another engine with the same coefficients scores identically.
    let other = TensionCycle::new(5, 9, true).unwrap();
    assert_eq!(other.resolution(&c_q, &f_q).unwrap(), j1);
}

#[test]
fn test_cycle_respects_iteration_budget() {
    let sensors = matrix_from(2, 3, &[1.0, 2.0, 3.0, 4.0, 5.0, 6.0]);
    let mut cfg = seeded_config(7, false);
    cfg.max_iterations = 3;
    cfg.convergence_threshold = 0;
    let out = TensionCycle::with_config(&cfg).unwrap().cycle(&sensors).unwrap();
    assert!(out.iterations <= 3);
    assert_eq!(out.iterations, 3);
    assert_eq!(out.reason, TerminationReason::BudgetExhausted);
}

#[test]
fn test_cycle_converges_under_large_threshold() {
    let sensors = matrix_from(2, 3, &[1.0, 2.0, 3.0, 4.0, 5.0, 6.0]);
    let mut cfg = seeded_config(7, false);
    cfg.convergence_threshold = from_float(1000.0);
    let out = TensionCycle::with_config(&cfg).unwrap().cycle(&sensors).unwrap();
    assert_eq!(out.iterations, 0);
    assert_eq!(out.reason, TerminationReason::Converged);
}

#[test]
fn test_dimension_mismatch() {
    let mut cycle = TensionCycle::new(2, 3, false).unwrap();
    let bad = matrix_from(2, 2, &[1.0, 2.0, 3.0, 4.0]);
    assert!(matches!(cycle.tension(&bad), Err(TdrError::DimensionMismatch)));
    assert!(matches!(cycle.cycle(&bad), Err(TdrError::DimensionMismatch)));
    let c_q = matrix_from(2, 2, &[1.0, 2.0, 3.0, 4.0]);
    let f_q = matrix_from(1, 2, &[1.0, 2.0]);
    assert_eq!(cycle.resolution(&c_q, &f_q), Err(TdrError::DimensionMismatch));
}

#[test]
fn test_invalid_configuration() {
    assert!(matches!(
        TensionCycle::new(0, 3, false),
        Err(TdrError::InvalidConfiguration)
    ));
    assert!(matches!(
        TensionCycle::new(2, 0, false),
        Err(TdrError::InvalidConfiguration)
    ));
    let mut cfg = EngineConfig::default();
    cfg.noise_std = -1;
    assert!(matches!(
        TensionCycle::with_config(&cfg),
        Err(TdrError::InvalidConfiguration)
    ));
    // Statistics over an empty matrix are undefined.
    let cycle = TensionCycle::new(2, 3, false).unwrap();
    let empty = Matrix::new(0, 0, Vec::new()).unwrap();
    let other = Matrix::new(0, 0, Vec::new()).unwrap();
    assert_eq!(cycle.resolution(&empty, &other), Err(TdrError::InvalidConfiguration));
}

#[test]
fn test_non_finite_result() {
    // An entry beyond the representable range is rejected at the door.
    assert!(matches!(
        Matrix::new(1, 1, vec![MAX_RAW + 1]),
        Err(TdrError::NonFiniteResult)
    ));
    // A projection that leaves the range is reported, not propagated.
    let mut cfg = EngineConfig::default();
    cfg.weight_value = MAX_RAW;
    let cycle = TensionCycle::with_config(&cfg).unwrap();
    let sensors = Matrix::new(1, 1, vec![MAX_RAW]).unwrap();
    assert!(matches!(cycle.tension(&sensors), Err(TdrError::NonFiniteResult)));
}

#[test]
fn test_set_coefficient() {
    let mut cycle = TensionCycle::new(2, 3, false).unwrap();
    assert!(cycle.set_coefficient("alpha", from_float(0.9)).is_ok());
    assert_eq!(cycle.alpha_raw(), from_float(0.9));
    assert!(cycle.set_coefficient("beta", from_float(0.1)).is_ok());
    assert_eq!(cycle.beta_raw(), from_float(0.1));
    assert_eq!(
        cycle.set_coefficient("gamma", from_float(0.5)),
        Err(TdrError::InvalidConfiguration)
    );
    assert_eq!(cycle.alpha_raw(), from_float(0.9));
    assert_eq!(
        cycle.set_coefficient("alpha", MAX_RAW + 1),
        Err(TdrError::InvalidConfiguration)
    );
}

#[test]
fn test_set_partition_depth() {
    let mut cycle = TensionCycle::new(2, 3, false).unwrap();
    assert_eq!(cycle.lattice_len(), 0);
    cycle.set_partition_depth(3);
    assert_eq!(cycle.lattice_len(), 3);
    cycle.set_partition_depth(99);
    assert_eq!(cycle.lattice_len(), 30);
    cycle.set_partition_depth(0);
    assert_eq!(cycle.lattice_len(), 0);
}

#[test]
fn test_metaweave_registry() {
    let mut weave = Metaweave::new();
    assert_eq!(weave.primitives, vec!["sense_light".to_string(), "act_move".to_string()]);
    assert_eq!(weave.partition_kmax, 5);
    weave.add_primitive("sense_wind_7".to_string());
    assert_eq!(weave.primitives.len(), 3);
    assert_eq!(weave.primitives[2], "sense_wind_7");
    weave.update_partitions(9);
    assert_eq!(weave.partition_kmax, 9);
}
