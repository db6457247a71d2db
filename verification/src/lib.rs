//! A tension-drift-resolution convergence engine.
//!
//! Given a batch of sensor readings, the engine projects it through a fixed
//! weight matrix into a tension matrix, perturbs that matrix with bounded
//! stochastic noise (optionally snapping each entry onto a lattice of
//! normalized integer-partition counts), and scores the pair with a scalar
//! resolution metric.  The cycle repeats until the score stabilizes or an
//! iteration budget runs out.
//!
//! All quantities are fixed-point numbers: the real value `x` is carried as
//! the integer closest to `x * fixed::SCALE`.  The scale is a multiple of
//! 5604, the largest entry of the partition-count table, so every lattice
//! value is exact.

pub mod errors;
pub mod fixed;
pub mod matrix;
pub mod metaweave;
pub mod noise;
pub mod qualic_partition;
pub mod stats;
pub mod tension_cycle;

pub use errors::TdrError;
pub use matrix::Matrix;
pub use metaweave::Metaweave;
pub use tension_cycle::CycleOutcome;
pub use tension_cycle::EngineConfig;
pub use tension_cycle::TensionCycle;
pub use tension_cycle::TerminationReason;
