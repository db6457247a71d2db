//! The tension-drift-resolution engine.
//!
//! `tension` projects a sensor batch through the transposed weight matrix,
//! `drift` perturbs the result with bounded stochastic noise (optionally
//! snapping onto the partition lattice), `resolution` blends the tension's
//! mean with the drift's population standard deviation, and `cycle` repeats
//! drift and scoring until the score stabilizes or the iteration budget is
//! spent.

use vstd::prelude::*;

verus! {

use crate::errors::TdrError;
use crate::fixed::MAX_RAW;
use crate::fixed::SCALE;
use crate::fixed::fits;
use crate::fixed::fixed_mul;
use crate::fixed::lemma_scaled_range;
use crate::fixed::scaled;
use crate::matrix::MAX_DIM;
use crate::matrix::Matrix;
use crate::matrix::lemma_dims_product;
use crate::matrix::lemma_flat_index;
use crate::noise::noise_sample;
use crate::noise::rng_from_seed;
use crate::qualic_partition::TABLE_LEN;
use crate::qualic_partition::compute_partition_peaks;
use crate::qualic_partition::is_nearest;
use crate::qualic_partition::nearest_peak;
use crate::qualic_partition::peaks_spec;
use crate::stats::dev_sq_bound;
use crate::stats::is_sqrt_floor;
use crate::stats::isqrt;
use crate::stats::lemma_sqrt_floor_unique;
use crate::stats::mean_i64;
use crate::stats::mean_of;
use crate::stats::variance_i128;
use crate::stats::variance_of;
use vstd::arithmetic::div_mod::lemma_div_pos_is_pos;
use vstd::arithmetic::div_mod::lemma_fundamental_div_mod;
use vstd::arithmetic::div_mod::lemma_mod_division_less_than_divisor;
use vstd::arithmetic::div_mod::lemma_multiply_divide_lt;

/// Default weight value: 0.7 in raw units.
pub const DEFAULT_WEIGHT: i64 = 3_922_800;

/// Default coherence coefficient: 0.6 in raw units.
pub const DEFAULT_ALPHA: i64 = 3_362_400;

/// Default fertility coefficient: 0.4 in raw units.
pub const DEFAULT_BETA: i64 = 2_241_600;

/// Default convergence threshold: 0.01 in raw units.
pub const DEFAULT_THRESHOLD: i64 = 56_040;

/// Default noise mean: 0.5 in raw units.
pub const DEFAULT_NOISE_MEAN: i64 = 2_802_000;

/// Default noise standard deviation: 0.2 in raw units.
pub const DEFAULT_NOISE_STD: i64 = 1_120_800;

/// Default iteration budget.
pub const DEFAULT_MAX_ITERATIONS: usize = 100;

/// How a cycle ended: the score stabilized under the threshold, or the
/// iteration budget ran out first.
#[derive(Clone, Copy, Debug, PartialEq, Eq, Structural)]
pub enum TerminationReason {
    /// Two consecutive scores differed by no more than the threshold.
    Converged,
    /// The iteration budget was exhausted before the score stabilized.
    BudgetExhausted,
}

/// What one `cycle` call produces: the tension matrix, the final drifted
/// matrix, the final score, the iteration count and why the loop stopped.
pub struct CycleOutcome {
    /// The tension matrix, computed once per cycle.
    pub c_q: Matrix,
    /// The drifted matrix from the final iteration.
    pub f_q: Matrix,
    /// The resolution score of the final pair.
    pub j_q: i64,
    /// How many re-evaluations the loop performed.
    pub iterations: usize,
    /// Why the loop stopped.
    pub reason: TerminationReason,
}

/// Full engine configuration, in raw fixed-point units.
pub struct EngineConfig {
    /// Number of agents: rows of the weight matrix.
    pub agent_count: usize,
    /// Sensor dimension: columns of the weight matrix.
    pub sensor_dim: usize,
    /// Snap drifted entries onto the partition lattice.
    pub discretize: bool,
    /// Value filling the weight matrix.
    pub weight_value: i64,
    /// Coherence coefficient.
    pub alpha: i64,
    /// Fertility coefficient.
    pub beta: i64,
    /// Minimum score change that keeps the loop running.
    pub convergence_threshold: i64,
    /// Iteration budget.
    pub max_iterations: usize,
    /// Noise mean.
    pub noise_mean: i64,
    /// Noise standard deviation.
    pub noise_std: i64,
    /// Seed of the engine's own noise generator.
    pub seed: u64,
}

impl EngineConfig {
    /// True when every field is admissible: positive bounded dimensions, a
    /// nonnegative bounded deviation and threshold, and in-range parameters.
    pub open spec fn valid(self) -> bool {
        &&& 1 <= self.agent_count <= MAX_DIM
        &&& 1 <= self.sensor_dim <= MAX_DIM
        &&& fits(self.weight_value as int)
        &&& fits(self.alpha as int)
        &&& fits(self.beta as int)
        &&& fits(self.noise_mean as int)
        &&& 0 <= self.noise_std <= MAX_RAW
        &&& 0 <= self.convergence_threshold
    }
}

impl Default for EngineConfig {
    /// The defaults named throughout the design: a 1 x 1 continuous engine
    /// with weight 0.7, coefficients 0.6 and 0.4, threshold 0.01, budget
    /// 100, noise 0.5 +/- 0.2 and seed 0.
    fn default() -> (c: EngineConfig)
        ensures
            c.agent_count == 1,
            c.sensor_dim == 1,
            !c.discretize,
            c.weight_value == DEFAULT_WEIGHT,
            c.alpha == DEFAULT_ALPHA,
            c.beta == DEFAULT_BETA,
            c.convergence_threshold == DEFAULT_THRESHOLD,
            c.max_iterations == DEFAULT_MAX_ITERATIONS,
            c.noise_mean == DEFAULT_NOISE_MEAN,
            c.noise_std == DEFAULT_NOISE_STD,
            c.seed == 0,
            c.valid(),
    {
        EngineConfig {
            agent_count: 1,
            sensor_dim: 1,
            discretize: false,
            weight_value: DEFAULT_WEIGHT,
            alpha: DEFAULT_ALPHA,
            beta: DEFAULT_BETA,
            convergence_threshold: DEFAULT_THRESHOLD,
            max_iterations: DEFAULT_MAX_ITERATIONS,
            noise_mean: DEFAULT_NOISE_MEAN,
            noise_std: DEFAULT_NOISE_STD,
            seed: 0,
        }
    }
}

/// The engine: an immutable weight matrix and lattice, scoring and noise
/// parameters, and an owned, seeded noise generator.
pub struct TensionCycle {
    weights: Matrix,
    alpha: i64,
    beta: i64,
    noise_mean: i64,
    noise_std: i64,
    convergence_threshold: i64,
    max_iterations: usize,
    peaks: Vec<i64>,
    rng: rand::rngs::StdRng,
}

impl TensionCycle {
    /// The weight matrix.
    pub closed spec fn spec_weights(self) -> Matrix {
        self.weights
    }

    /// Coherence coefficient.
    pub closed spec fn spec_alpha(self) -> int {
        self.alpha as int
    }

    /// Fertility coefficient.
    pub closed spec fn spec_beta(self) -> int {
        self.beta as int
    }

    /// Noise mean.
    pub closed spec fn spec_noise_mean(self) -> int {
        self.noise_mean as int
    }

    /// Noise standard deviation.
    pub closed spec fn spec_noise_std(self) -> int {
        self.noise_std as int
    }

    /// Convergence threshold.
    pub closed spec fn spec_threshold(self) -> int {
        self.convergence_threshold as int
    }

    /// Iteration budget.
    pub closed spec fn spec_max_iterations(self) -> int {
        self.max_iterations as int
    }

    /// The discretization lattice; empty in continuous mode.
    pub closed spec fn lattice(self) -> Seq<i64> {
        self.peaks@
    }

    /// Number of agents.
    pub open spec fn agent_count(self) -> int {
        self.spec_weights().nrows()
    }

    /// Sensor dimension.
    pub open spec fn sensor_dim(self) -> int {
        self.spec_weights().ncols()
    }

    /// Whether drifted entries are snapped onto the lattice.
    pub open spec fn discretizing(self) -> bool {
        self.lattice().len() > 0
    }

    /// Smallest noise value a drift step can add.
    pub open spec fn noise_lo(self) -> int {
        self.spec_noise_mean() - 6 * self.spec_noise_std()
    }

    /// Largest noise value a drift step can add.
    pub open spec fn noise_hi(self) -> int {
        self.spec_noise_mean() + 6 * self.spec_noise_std()
    }

    /// Internal invariant: a well-formed, non-degenerate weight matrix,
    /// in-range parameters and a lattice of positive normalized peaks.
    pub open spec fn wf(self) -> bool {
        &&& self.spec_weights().wf()
        &&& 1 <= self.agent_count()
        &&& 1 <= self.sensor_dim()
        &&& fits(self.spec_alpha())
        &&& fits(self.spec_beta())
        &&& fits(self.spec_noise_mean())
        &&& 0 <= self.spec_noise_std() <= MAX_RAW as int
        &&& 0 <= self.spec_threshold()
        &&& self.lattice().len() <= TABLE_LEN as int
        &&& forall|k: int|
            0 <= k < self.lattice().len() ==> 0 < #[trigger] self.lattice()[k] && self.lattice()[k]
                <= SCALE
    }

    /// Everything but the noise generator's state agrees.
    pub open spec fn config_eq(self, other: TensionCycle) -> bool {
        &&& self.spec_weights() == other.spec_weights()
        &&& self.spec_alpha() == other.spec_alpha()
        &&& self.spec_beta() == other.spec_beta()
        &&& self.spec_noise_mean() == other.spec_noise_mean()
        &&& self.spec_noise_std() == other.spec_noise_std()
        &&& self.spec_threshold() == other.spec_threshold()
        &&& self.spec_max_iterations() == other.spec_max_iterations()
        &&& self.lattice() == other.lattice()
    }

    /// Builds an engine from a full configuration.
    pub fn with_config(cfg: &EngineConfig) -> (r: Result<TensionCycle, TdrError>)
        ensures
            r is Ok <==> cfg.valid(),
            r is Err ==> r->Err_0 == TdrError::InvalidConfiguration,
            r is Ok ==> {
                let t = r->Ok_0;
                &&& t.wf()
                &&& t.agent_count() == cfg.agent_count
                &&& t.sensor_dim() == cfg.sensor_dim
                &&& forall|i: int, j: int|
                    0 <= i < cfg.agent_count && 0 <= j < cfg.sensor_dim
                        ==> t.spec_weights().entry(i, j) == cfg.weight_value
                &&& t.spec_alpha() == cfg.alpha
                &&& t.spec_beta() == cfg.beta
                &&& t.spec_noise_mean() == cfg.noise_mean
                &&& t.spec_noise_std() == cfg.noise_std
                &&& t.spec_threshold() == cfg.convergence_threshold
                &&& t.spec_max_iterations() == cfg.max_iterations
                &&& (cfg.discretize ==> t.lattice() == peaks_spec(TABLE_LEN as int))
                &&& (!cfg.discretize ==> t.lattice().len() == 0)
            },
    {
        if cfg.agent_count == 0 || cfg.agent_count > MAX_DIM || cfg.sensor_dim == 0
            || cfg.sensor_dim > MAX_DIM {
            return Result::Err(TdrError::InvalidConfiguration);
        }
        if cfg.weight_value < -MAX_RAW || cfg.weight_value > MAX_RAW {
            return Result::Err(TdrError::InvalidConfiguration);
        }
        if cfg.alpha < -MAX_RAW || cfg.alpha > MAX_RAW {
            return Result::Err(TdrError::InvalidConfiguration);
        }
        if cfg.beta < -MAX_RAW || cfg.beta > MAX_RAW {
            return Result::Err(TdrError::InvalidConfiguration);
        }
        if cfg.noise_mean < -MAX_RAW || cfg.noise_mean > MAX_RAW {
            return Result::Err(TdrError::InvalidConfiguration);
        }
        if cfg.noise_std < 0 || cfg.noise_std > MAX_RAW {
            return Result::Err(TdrError::InvalidConfiguration);
        }
        if cfg.convergence_threshold < 0 {
            return Result::Err(TdrError::InvalidConfiguration);
        }
        let weights = match Matrix::from_element(cfg.agent_count, cfg.sensor_dim, cfg.weight_value) {
            Result::Ok(w) => w,
            Result::Err(_) => {
                return Result::Err(TdrError::InvalidConfiguration);
            },
        };
        let peaks: Vec<i64> = if cfg.discretize {
            compute_partition_peaks(TABLE_LEN)
        } else {
            Vec::new()
        };
        Result::Ok(
            TensionCycle {
                weights,
                alpha: cfg.alpha,
                beta: cfg.beta,
                noise_mean: cfg.noise_mean,
                noise_std: cfg.noise_std,
                convergence_threshold: cfg.convergence_threshold,
                max_iterations: cfg.max_iterations,
                peaks,
                rng: rng_from_seed(cfg.seed),
            },
        )
    }

    /// Builds an engine with the default parameters: constant weight 0.7,
    /// coefficients 0.6 and 0.4, threshold 0.01, budget 100, noise
    /// 0.5 +/- 0.2, seed 0, and — when `discretize` is set — the full
    /// 30-point partition lattice.
    pub fn new(agent_count: usize, sensor_dim: usize, discretize: bool) -> (r: Result<
        TensionCycle,
        TdrError,
    >)
        ensures
            r is Ok <==> (1 <= agent_count <= MAX_DIM && 1 <= sensor_dim <= MAX_DIM),
            r is Err ==> r->Err_0 == TdrError::InvalidConfiguration,
            r is Ok ==> {
                let t = r->Ok_0;
                &&& t.wf()
                &&& t.agent_count() == agent_count
                &&& t.sensor_dim() == sensor_dim
                &&& forall|i: int, j: int|
                    0 <= i < agent_count && 0 <= j < sensor_dim ==> t.spec_weights().entry(i, j)
                        == DEFAULT_WEIGHT
                &&& t.spec_alpha() == DEFAULT_ALPHA
                &&& t.spec_beta() == DEFAULT_BETA
                &&& t.spec_noise_mean() == DEFAULT_NOISE_MEAN
                &&& t.spec_noise_std() == DEFAULT_NOISE_STD
                &&& t.spec_threshold() == DEFAULT_THRESHOLD
                &&& t.spec_max_iterations() == DEFAULT_MAX_ITERATIONS
                &&& (discretize ==> t.lattice() == peaks_spec(TABLE_LEN as int))
                &&& (!discretize ==> t.lattice().len() == 0)
            },
    {
        let mut cfg = EngineConfig::default();
        cfg.agent_count = agent_count;
        cfg.sensor_dim = sensor_dim;
        cfg.discretize = discretize;
        TensionCycle::with_config(&cfg)
    }
}

/// The first `k` terms of the scaled dot product of sensor row `i` with
/// weight row `j`.
pub open spec fn dot_prefix(s: Matrix, w: Matrix, i: int, j: int, k: int) -> int
    decreases k,
{
    if k <= 0 {
        0
    } else {
        dot_prefix(s, w, i, j, k - 1) + scaled(s.entry(i, k - 1), w.entry(j, k - 1))
    }
}

/// Entry `(i, j)` of the tension matrix: sensor row `i` projected onto
/// weight row `j` (the weight matrix enters transposed).
pub open spec fn tension_entry(s: Matrix, w: Matrix, i: int, j: int) -> int {
    dot_prefix(s, w, i, j, w.ncols())
}

/// Every tension entry stays in the representable range.
pub open spec fn tension_fits(s: Matrix, w: Matrix) -> bool {
    forall|i: int, j: int|
        0 <= i < s.nrows() && 0 <= j < w.nrows() ==> fits(#[trigger] tension_entry(s, w, i, j))
}

/// Each term of the scaled dot product is small, so any prefix is bounded
/// by its length times a per-term bound.
proof fn lemma_dot_prefix_bound(s: Matrix, w: Matrix, i: int, j: int, k: int)
    requires
        s.wf(),
        w.wf(),
        0 <= i < s.nrows(),
        0 <= j < w.nrows(),
        0 <= k <= w.ncols(),
        s.ncols() == w.ncols(),
    ensures
        -k * 0x400_0000_0000_0000 <= dot_prefix(s, w, i, j, k) <= k * 0x400_0000_0000_0000,
    decreases k,
{
    if k > 0 {
        lemma_dot_prefix_bound(s, w, i, j, k - 1);
        lemma_flat_index(s.nrows(), s.ncols(), i, k - 1);
        lemma_flat_index(w.nrows(), w.ncols(), j, k - 1);
        lemma_scaled_fits_in_term_bound(s.entry(i, k - 1), w.entry(j, k - 1));
    }
}

/// An already-finished row stays inside the store: `p * a + q < i * a`
/// whenever `p < i` and `q < a`.
proof fn lemma_row_prefix(p: int, q: int, i: int, a: int)
    by (nonlinear_arith)
    requires
        0 <= p < i,
        0 <= q < a,
    ensures
        0 <= p * a + q < i * a,
{
}

/// The scaled product of two in-range values is bounded by `2^58`.
proof fn lemma_scaled_fits_in_term_bound(a: int, b: int)
    requires
        fits(a),
        fits(b),
    ensures
        -0x400_0000_0000_0000 <= scaled(a, b) <= 0x400_0000_0000_0000,
{
    assert(-0x1_0000_0000_0000_0000_0000 <= a * b <= 0x1_0000_0000_0000_0000_0000)
        by (nonlinear_arith)
        requires
            -MAX_RAW <= a <= MAX_RAW,
            -MAX_RAW <= b <= MAX_RAW,
    ;
    lemma_scaled_range(a * b, 0x1_0000_0000_0000_0000_0000);
}

impl TensionCycle {
    /// Projects a sensor batch into the tension matrix `sensors * weights'`.
    ///
    /// Succeeds exactly when the batch has the configured shape and every
    /// projected entry stays in range; the weight matrix is never touched.
    pub fn tension(&self, sensors: &Matrix) -> (r: Result<Matrix, TdrError>)
        requires
            self.wf(),
            sensors.wf(),
        ensures
            (r == Result::<Matrix, TdrError>::Err(TdrError::DimensionMismatch) <==> !(
            sensors.nrows() == self.agent_count() && sensors.ncols() == self.sensor_dim())),
            sensors.nrows() == self.agent_count() && sensors.ncols() == self.sensor_dim() ==> (
            r is Ok <==> tension_fits(*sensors, self.spec_weights())),
            r is Err ==> (r->Err_0 == TdrError::DimensionMismatch || r->Err_0
                == TdrError::NonFiniteResult),
            r is Ok ==> {
                let c = r->Ok_0;
                &&& c.wf()
                &&& c.nrows() == self.agent_count()
                &&& c.ncols() == self.agent_count()
                &&& forall|i: int, j: int|
                    0 <= i < c.nrows() && 0 <= j < c.ncols() ==> c.entry(i, j) == tension_entry(
                        *sensors,
                        self.spec_weights(),
                        i,
                        j,
                    )
            },
    {
        let a = self.weights.rows();
        let d = self.weights.cols();
        if sensors.rows() != a || sensors.cols() != d {
            return Result::Err(TdrError::DimensionMismatch);
        }
        proof {
            lemma_dims_product(a as int, a as int);
        }
        let n = a * a;
        let mut data: Vec<i64> = Vec::new();
        let mut i: usize = 0;
        while i < a
            invariant
                0 <= i <= a,
                self.wf(),
                sensors.wf(),
                a == self.agent_count(),
                d == self.sensor_dim(),
                sensors.nrows() == a,
                sensors.ncols() == d,
                data@.len() == i * a,
                i * a <= a * a <= 0x4000_0000,
                forall|p: int, q: int|
                    0 <= p < i && 0 <= q < a ==> data@[p * (a as int) + q] as int
                        == #[trigger] tension_entry(*sensors, self.spec_weights(), p, q),
                forall|t: int| 0 <= t < data@.len() ==> fits(#[trigger] data@[t] as int),
            decreases a - i,
        {
            let mut j: usize = 0;
            while j < a
                invariant
                    0 <= i < a,
                    0 <= j <= a,
                    self.wf(),
                    sensors.wf(),
                    a == self.agent_count(),
                    d == self.sensor_dim(),
                    sensors.nrows() == a,
                    sensors.ncols() == d,
                    data@.len() == i * a + j,
                    i * a + j <= a * a <= 0x4000_0000,
                    forall|p: int, q: int|
                        0 <= p < i && 0 <= q < a ==> data@[p * (a as int) + q] as int
                            == #[trigger] tension_entry(*sensors, self.spec_weights(), p, q),
                    forall|q: int|
                        0 <= q < j ==> data@[i * (a as int) + q] as int == #[trigger] tension_entry(
                            *sensors,
                            self.spec_weights(),
                            i as int,
                            q,
                        ),
                    forall|t: int| 0 <= t < data@.len() ==> fits(#[trigger] data@[t] as int),
                decreases a - j,
            {
                let mut acc: i128 = 0;
                let mut k: usize = 0;
                while k < d
                    invariant
                        0 <= k <= d,
                        0 <= i < a,
                        0 <= j < a,
                        self.wf(),
                        sensors.wf(),
                        a == self.agent_count(),
                        d == self.sensor_dim(),
                        sensors.nrows() == a,
                        sensors.ncols() == d,
                        acc == dot_prefix(*sensors, self.spec_weights(), i as int, j as int, k as int),
                        -(k as int) * 0x400_0000_0000_0000 <= acc <= (k as int)
                            * 0x400_0000_0000_0000,
                    decreases d - k,
                {
                    let sv = sensors.get(i, k);
                    let wv = self.weights.get(j, k);
                    let term = fixed_mul(sv, wv);
                    proof {
                        lemma_scaled_fits_in_term_bound(sv as int, wv as int);
                    }
                    acc = acc + (term as i128);
                    k = k + 1;
                }
                if acc < -(MAX_RAW as i128) || acc > (MAX_RAW as i128) {
                    proof {
                        assert(!fits(tension_entry(*sensors, self.spec_weights(), i as int, j as int)));
                    }
                    return Result::Err(TdrError::NonFiniteResult);
                }
                let entry = acc as i64;
                data.push(entry);
                proof {
                    lemma_flat_index(a as int, a as int, i as int, j as int);
                    assert forall|p: int, q: int|
                        #![trigger data@[p * (a as int) + q]]
                        0 <= p < i && 0 <= q < a implies 0 <= p * (a as int) + q < (i as int) * (
                    a as int) by {
                        lemma_row_prefix(p, q, i as int, a as int);
                    }
                }
                j = j + 1;
            }
            i = i + 1;
            proof {
                assert((i as int) * (a as int) == (i as int - 1) * (a as int) + (a as int))
                    by (nonlinear_arith);
                assert forall|p: int, q: int|
                    #![trigger data@[p * (a as int) + q]]
                    0 <= p < i && 0 <= q < a implies 0 <= p * (a as int) + q < (i as int) * (
                a as int) by {
                    lemma_row_prefix(p, q, i as int, a as int);
                }
            }
        }
        proof {
            assert((a as int) * (a as int) == n as int);
        }
        let c = Matrix::from_parts(a, a, data);
        proof {
            assert forall|i: int, j: int| 0 <= i < c.nrows() && 0 <= j < c.ncols() implies c.entry(
                i,
                j,
            ) == tension_entry(*sensors, self.spec_weights(), i, j) by {
                lemma_flat_index(a as int, a as int, i, j);
            }
            assert forall|i: int, j: int|
                0 <= i < sensors.nrows() && 0 <= j < self.spec_weights().nrows() implies fits(
                #[trigger] tension_entry(*sensors, self.spec_weights(), i, j)) by {
                lemma_flat_index(a as int, a as int, i, j);
                assert(c.entry(i, j) == tension_entry(*sensors, self.spec_weights(), i, j));
            }
        }
        Result::Ok(c)
    }
}

/// `j` is the resolution score of the pair `(c, f)` under coefficients
/// `alpha` and `beta`: `alpha` times the mean of `c` plus `beta` times the
/// floor square root of the population variance of `f`.
pub open spec fn resolution_rel(alpha: int, beta: int, c: Seq<i64>, f: Seq<i64>, j: int) -> bool {
    exists|sd: int|
        #[trigger] is_sqrt_floor(variance_of(f), sd) && j == scaled(alpha, mean_of(c)) + scaled(
            beta,
            sd,
        )
}

/// The resolution score is a pure function of the coefficients and the two
/// matrices' entries: any two scores satisfying the resolution relation for
/// the same arguments coincide.  No generator state or other hidden input
/// can influence it.
pub proof fn lemma_resolution_deterministic(
    alpha: int,
    beta: int,
    c: Seq<i64>,
    f: Seq<i64>,
    j1: int,
    j2: int,
)
    requires
        resolution_rel(alpha, beta, c, f, j1),
        resolution_rel(alpha, beta, c, f, j2),
    ensures
        j1 == j2,
{
    let sd1 = choose|sd: int|
        #[trigger] is_sqrt_floor(variance_of(f), sd) && j1 == scaled(alpha, mean_of(c)) + scaled(
            beta,
            sd,
        );
    let sd2 = choose|sd: int|
        #[trigger] is_sqrt_floor(variance_of(f), sd) && j2 == scaled(alpha, mean_of(c)) + scaled(
            beta,
            sd,
        );
    lemma_sqrt_floor_unique(variance_of(f), sd1, sd2);
}

impl TensionCycle {
    /// Reduces a tension/drift pair to the scalar resolution score
    /// `alpha * mean(c_q) + beta * stddev(f_q)` (population deviation).
    ///
    /// Pure: depends on nothing but the two matrices and the configured
    /// coefficients.  Fails exactly when the shapes disagree
    /// (`DimensionMismatch`) or the matrices are empty
    /// (`InvalidConfiguration`, the statistics being undefined there).
    pub fn resolution(&self, c_q: &Matrix, f_q: &Matrix) -> (r: Result<i64, TdrError>)
        requires
            self.wf(),
            c_q.wf(),
            f_q.wf(),
        ensures
            (r == Result::<i64, TdrError>::Err(TdrError::DimensionMismatch) <==> !c_q.same_shape(
                *f_q,
            )),
            c_q.same_shape(*f_q) ==> (r == Result::<i64, TdrError>::Err(
                TdrError::InvalidConfiguration,
            ) <==> c_q.spec_is_empty()),
            r is Ok <==> (c_q.same_shape(*f_q) && !c_q.spec_is_empty()),
            r is Ok ==> resolution_rel(
                self.spec_alpha(),
                self.spec_beta(),
                c_q.vals(),
                f_q.vals(),
                r->Ok_0 as int,
            ),
            r is Ok ==> -0x2000_0000_0000_0000 <= r->Ok_0 <= 0x2000_0000_0000_0000,
    {
        if c_q.rows() != f_q.rows() || c_q.cols() != f_q.cols() {
            return Result::Err(TdrError::DimensionMismatch);
        }
        let n = c_q.entry_count();
        if n == 0 {
            return Result::Err(TdrError::InvalidConfiguration);
        }
        proof {
            lemma_dims_product(c_q.nrows(), c_q.ncols());
            lemma_dims_product(f_q.nrows(), f_q.ncols());
        }
        let m = mean_i64(c_q.raw_data());
        let var = variance_i128(f_q.raw_data());
        let sd_wide = isqrt(var as u128);
        proof {
            assert(sd_wide * sd_wide <= dev_sq_bound() ==> sd_wide <= 0x400_0000_0000)
                by (nonlinear_arith);
        }
        let sd = sd_wide as i64;
        let t1 = fixed_mul(self.alpha, m);
        let t2 = fixed_mul(self.beta, sd);
        proof {
            lemma_term_small(self.spec_alpha(), m as int);
            lemma_term_small(self.spec_beta(), sd as int);
            assert(is_sqrt_floor(variance_of(f_q.vals()), sd as int));
        }
        Result::Ok(t1 + t2)
    }
}

/// The scaled product of an in-range coefficient with a statistic bounded by
/// four entry bounds stays well inside `i64`.
proof fn lemma_term_small(a: int, b: int)
    requires
        fits(a),
        -4 * (MAX_RAW as int) <= b <= 4 * (MAX_RAW as int),
    ensures
        -0x1000_0000_0000_0000 <= scaled(a, b) <= 0x1000_0000_0000_0000,
{
    assert(-0x4_0000_0000_0000_0000_0000 <= a * b <= 0x4_0000_0000_0000_0000_0000)
        by (nonlinear_arith)
        requires
            -MAX_RAW <= a <= MAX_RAW,
            -4 * (MAX_RAW as int) <= b <= 4 * (MAX_RAW as int),
    ;
    lemma_scaled_range(a * b, 0x4_0000_0000_0000_0000_0000);
}

impl TensionCycle {
    /// `y` is an admissible drift of the entry `x` under this engine: some
    /// noise value in the sampler's range was added, and the sum was snapped
    /// onto the lattice when one is configured.
    pub open spec fn drift_with(self, x: int, d: int, y: int) -> bool {
        &&& self.noise_lo() <= d <= self.noise_hi()
        &&& if self.discretizing() {
            is_nearest(self.lattice(), x + d, y)
        } else {
            y == x + d
        }
    }

    /// `y` can be the drifted version of `x`.
    pub open spec fn drift_entry_ok(self, x: int, y: int) -> bool {
        exists|d: int| #[trigger] self.drift_with(x, d, y)
    }

    /// Adds one independent noise sample to every entry of the tension
    /// matrix; when a lattice is configured, each perturbed entry is replaced
    /// by its nearest lattice value.
    ///
    /// Discretized drift always succeeds (lattice values are in range);
    /// continuous drift succeeds whenever no perturbed entry leaves the
    /// representable range, and in particular whenever every input entry
    /// keeps six standard deviations of headroom.  Only the noise
    /// generator's state changes.
    pub fn drift(&mut self, c_q: &Matrix) -> (r: Result<Matrix, TdrError>)
        requires
            old(self).wf(),
            c_q.wf(),
        ensures
            final (self).wf(),
            final (self).config_eq(*old(self)),
            r is Err ==> r->Err_0 == TdrError::NonFiniteResult && !old(self).discretizing(),
            old(self).discretizing() ==> r is Ok,
            (forall|k: int|
                0 <= k < c_q.vals().len() ==> -MAX_RAW - old(self).noise_lo()
                    <= #[trigger] c_q.vals()[k] && c_q.vals()[k] <= MAX_RAW - old(self).noise_hi())
                ==> r is Ok,
            r is Ok ==> {
                let f = r->Ok_0;
                &&& f.wf()
                &&& f.nrows() == c_q.nrows()
                &&& f.ncols() == c_q.ncols()
                &&& forall|i: int, j: int|
                    0 <= i < f.nrows() && 0 <= j < f.ncols() ==> old(self).drift_entry_ok(
                        c_q.entry(i, j),
                        #[trigger] f.entry(i, j),
                    )
                &&& old(self).discretizing() ==> forall|k: int|
                    0 <= k < f.vals().len() ==> old(self).lattice().contains(#[trigger] f.vals()[k])
            },
    {
        let rows = c_q.rows();
        let cols = c_q.cols();
        let n = c_q.entry_count();
        let mut data: Vec<i64> = Vec::new();
        let mut k: usize = 0;
        while k < n
            invariant
                0 <= k <= n,
                n == c_q.vals().len(),
                c_q.wf(),
                self.wf(),
                self.config_eq(*old(self)),
                data@.len() == k,
                forall|t: int|
                    0 <= t < k ==> old(self).drift_entry_ok(
                        c_q.vals()[t] as int,
                        #[trigger] data@[t] as int,
                    ),
                forall|t: int| 0 <= t < k ==> fits(#[trigger] data@[t] as int),
                old(self).discretizing() ==> forall|t: int|
                    0 <= t < k ==> old(self).lattice().contains(#[trigger] data@[t]),
            decreases n - k,
        {
            let x = c_q.raw_at(k);
            let d = noise_sample(&mut self.rng, self.noise_mean, self.noise_std);
            let cand = x + d;
            if self.peaks.len() > 0 {
                let y = nearest_peak(cand, &self.peaks);
                proof {
                    assert(old(self).drift_with(c_q.vals()[k as int] as int, d as int, y as int));
                }
                data.push(y);
            } else {
                if cand < -MAX_RAW || cand > MAX_RAW {
                    proof {
                        let t = k as int;
                        if cand > MAX_RAW {
                            assert(!(c_q.vals()[t] <= MAX_RAW - self.noise_hi()));
                        } else {
                            assert(!(-MAX_RAW - self.noise_lo() <= c_q.vals()[t]));
                        }
                    }
                    return Result::Err(TdrError::NonFiniteResult);
                }
                proof {
                    assert(old(self).drift_with(c_q.vals()[k as int] as int, d as int, cand as int));
                }
                data.push(cand);
            }
            k = k + 1;
        }
        let f = Matrix::from_parts(rows, cols, data);
        proof {
            assert forall|i: int, j: int|
                0 <= i < f.nrows() && 0 <= j < f.ncols() implies old(self).drift_entry_ok(
                c_q.entry(i, j),
                #[trigger] f.entry(i, j),
            ) by {
                lemma_flat_index(f.nrows(), f.ncols(), i, j);
            }
        }
        Result::Ok(f)
    }
}

impl TensionCycle {
    /// Every tension entry of this batch keeps six standard deviations of
    /// headroom inside the representable range, so no continuous drift step
    /// can push it out, whatever the generator returns.
    pub open spec fn drift_headroom(self, sensors: Matrix) -> bool {
        forall|i: int, j: int|
            0 <= i < sensors.nrows() && 0 <= j < sensors.nrows() ==> -MAX_RAW - self.noise_lo()
                <= #[trigger] tension_entry(sensors, self.spec_weights(), i, j) && tension_entry(
                sensors,
                self.spec_weights(),
                i,
                j,
            ) <= MAX_RAW - self.noise_hi()
    }
}

/// Headroom stated over row and column indices transfers to the flat
/// row-major store of the computed tension matrix.
proof fn lemma_headroom_flat(eng: TensionCycle, sensors: Matrix, c: Matrix)
    requires
        c.wf(),
        c.ncols() >= 1,
        c.nrows() == sensors.nrows(),
        c.ncols() == sensors.nrows(),
        eng.drift_headroom(sensors),
        forall|i: int, j: int|
            0 <= i < c.nrows() && 0 <= j < c.ncols() ==> c.entry(i, j) == tension_entry(
                sensors,
                eng.spec_weights(),
                i,
                j,
            ),
    ensures
        forall|k: int|
            0 <= k < c.vals().len() ==> -MAX_RAW - eng.noise_lo() <= #[trigger] c.vals()[k]
                && c.vals()[k] <= MAX_RAW - eng.noise_hi(),
{
    assert forall|k: int|
        0 <= k < c.vals().len() implies -MAX_RAW - eng.noise_lo() <= #[trigger] c.vals()[k]
        && c.vals()[k] <= MAX_RAW - eng.noise_hi() by {
        let a = c.ncols();
        let i = k / a;
        let j = k % a;
        lemma_fundamental_div_mod(k, a);
        lemma_mod_division_less_than_divisor(k, a);
        lemma_div_pos_is_pos(k, a);
        assert(k < a * c.nrows()) by (nonlinear_arith)
            requires
                k < c.nrows() * a,
        ;
        lemma_multiply_divide_lt(k, a, c.nrows());
        assert(i * a == a * i) by (nonlinear_arith);
        assert(k == i * a + j);
        assert(c.entry(i, j) == tension_entry(sensors, eng.spec_weights(), i, j));
    }
}

/// An engine with equal configuration admits the same drifted entries.
proof fn lemma_drift_ok_congruence(s1: TensionCycle, s2: TensionCycle, x: int, y: int)
    requires
        s1.config_eq(s2),
        s1.drift_entry_ok(x, y),
    ensures
        s2.drift_entry_ok(x, y),
{
    let d = choose|d: int| #[trigger] s1.drift_with(x, d, y);
    assert(s2.drift_with(x, d, y));
}

impl TensionCycle {
    /// Runs one full tension-drift-resolution cycle on a sensor batch.
    ///
    /// The tension matrix is computed once; drift and scoring repeat while
    /// consecutive scores differ by more than the threshold and the budget
    /// allows.  Because the previous score starts at zero, a first score
    /// already within the threshold of zero converges immediately with zero
    /// iterations; that degenerate edge is deliberate, not smoothed over.
    /// The outcome names the final pair, their score, the iteration count,
    /// and whether the loop stabilized or ran out of budget.
    ///
    /// Success is owed whenever the batch has the configured shape, every
    /// tension entry is representable, and either a lattice is configured
    /// (snapped entries are always in range) or every tension entry keeps
    /// six standard deviations of headroom; a well-shaped batch whose
    /// projection leaves the range is reported as a non-finite result.
    pub fn cycle(&mut self, sensors: &Matrix) -> (r: Result<CycleOutcome, TdrError>)
        requires
            old(self).wf(),
            sensors.wf(),
        ensures
            final (self).wf(),
            final (self).config_eq(*old(self)),
            (r == Result::<CycleOutcome, TdrError>::Err(TdrError::DimensionMismatch) <==> !(
            sensors.nrows() == old(self).agent_count() && sensors.ncols() == old(
                self,
            ).sensor_dim())),
            r is Err ==> (r->Err_0 == TdrError::DimensionMismatch || r->Err_0
                == TdrError::NonFiniteResult),
            r is Ok ==> {
                let o = r->Ok_0;
                &&& o.c_q.wf()
                &&& o.c_q.nrows() == old(self).agent_count()
                &&& o.c_q.ncols() == old(self).agent_count()
                &&& forall|i: int, j: int|
                    0 <= i < o.c_q.nrows() && 0 <= j < o.c_q.ncols() ==> o.c_q.entry(i, j)
                        == tension_entry(*sensors, old(self).spec_weights(), i, j)
                &&& o.f_q.wf()
                &&& o.f_q.nrows() == o.c_q.nrows()
                &&& o.f_q.ncols() == o.c_q.ncols()
                &&& forall|i: int, j: int|
                    0 <= i < o.f_q.nrows() && 0 <= j < o.f_q.ncols() ==> old(self).drift_entry_ok(
                        o.c_q.entry(i, j),
                        #[trigger] o.f_q.entry(i, j),
                    )
                &&& (old(self).discretizing() ==> forall|k: int|
                    0 <= k < o.f_q.vals().len() ==> old(self).lattice().contains(
                        #[trigger] o.f_q.vals()[k],
                    ))
                &&& resolution_rel(
                    old(self).spec_alpha(),
                    old(self).spec_beta(),
                    o.c_q.vals(),
                    o.f_q.vals(),
                    o.j_q as int,
                )
                &&& -0x2000_0000_0000_0000 <= o.j_q <= 0x2000_0000_0000_0000
                &&& o.iterations <= old(self).spec_max_iterations()
                &&& (o.reason == TerminationReason::BudgetExhausted ==> o.iterations == old(
                    self,
                ).spec_max_iterations())
            },
            (sensors.nrows() == old(self).agent_count() && sensors.ncols() == old(
                self,
            ).sensor_dim() && !tension_fits(*sensors, old(self).spec_weights())) ==> r
                == Result::<CycleOutcome, TdrError>::Err(TdrError::NonFiniteResult),
            (sensors.nrows() == old(self).agent_count() && sensors.ncols() == old(
                self,
            ).sensor_dim() && tension_fits(*sensors, old(self).spec_weights()) && (old(
                self,
            ).discretizing() || old(self).drift_headroom(*sensors))) ==> r is Ok,
    {
        let c_q = match self.tension(sensors) {
            Result::Ok(c) => c,
            Result::Err(e) => {
                return Result::Err(e);
            },
        };
        proof {
            assert(c_q.nrows() * c_q.ncols() >= 1) by (nonlinear_arith)
                requires
                    c_q.nrows() >= 1,
                    c_q.ncols() >= 1,
            ;
        }
        let mut f_q = match self.drift(&c_q) {
            Result::Ok(f) => f,
            Result::Err(e) => {
                proof {
                    if old(self).drift_headroom(*sensors) {
                        lemma_headroom_flat(*old(self), *sensors, c_q);
                    }
                }
                return Result::Err(e);
            },
        };
        let mut j_q = match self.resolution(&c_q, &f_q) {
            Result::Ok(j) => j,
            Result::Err(_) => {
                proof {
                    assert(false);
                }
                return Result::Err(TdrError::NonFiniteResult);
            },
        };
        let mut j_prev: i64 = 0;
        let mut iterations: usize = 0;
        loop
            invariant
                self.wf(),
                self.config_eq(*old(self)),
                sensors.wf(),
                sensors.nrows() == old(self).agent_count(),
                sensors.ncols() == old(self).sensor_dim(),
                c_q.wf(),
                c_q.nrows() == old(self).agent_count(),
                c_q.ncols() == old(self).agent_count(),
                c_q.nrows() * c_q.ncols() >= 1,
                old(self).wf(),
                tension_fits(*sensors, old(self).spec_weights()),
                forall|i: int, j: int|
                    0 <= i < c_q.nrows() && 0 <= j < c_q.ncols() ==> c_q.entry(i, j)
                        == tension_entry(*sensors, old(self).spec_weights(), i, j),
                f_q.wf(),
                f_q.nrows() == c_q.nrows(),
                f_q.ncols() == c_q.ncols(),
                forall|i: int, j: int|
                    0 <= i < f_q.nrows() && 0 <= j < f_q.ncols() ==> old(self).drift_entry_ok(
                        c_q.entry(i, j),
                        #[trigger] f_q.entry(i, j),
                    ),
                old(self).discretizing() ==> forall|k: int|
                    0 <= k < f_q.vals().len() ==> old(self).lattice().contains(
                        #[trigger] f_q.vals()[k],
                    ),
                resolution_rel(
                    old(self).spec_alpha(),
                    old(self).spec_beta(),
                    c_q.vals(),
                    f_q.vals(),
                    j_q as int,
                ),
                -0x2000_0000_0000_0000 <= j_q <= 0x2000_0000_0000_0000,
                -0x2000_0000_0000_0000 <= j_prev <= 0x2000_0000_0000_0000,
                0 <= iterations <= old(self).spec_max_iterations(),
            ensures
                (j_q >= j_prev ==> j_q - j_prev <= self.spec_threshold()) && (j_prev > j_q
                    ==> j_prev - j_q <= self.spec_threshold()) || iterations == old(
                self,
                ).spec_max_iterations(),
            decreases old(self).spec_max_iterations() - iterations,
        {
            let diff = if j_q >= j_prev {
                j_q - j_prev
            } else {
                j_prev - j_q
            };
            if !(diff > self.convergence_threshold && iterations < self.max_iterations) {
                break;
            }
            j_prev = j_q;
            let ghost pre = *self;
            f_q = match self.drift(&c_q) {
                Result::Ok(f) => f,
                Result::Err(e) => {
                    proof {
                        if old(self).discretizing() {
                            assert(pre.discretizing());
                            assert(false);
                        } else if old(self).drift_headroom(*sensors) {
                            lemma_headroom_flat(*old(self), *sensors, c_q);
                            assert forall|k: int|
                                0 <= k < c_q.vals().len() implies -MAX_RAW - pre.noise_lo()
                                <= #[trigger] c_q.vals()[k] && c_q.vals()[k] <= MAX_RAW
                                - pre.noise_hi() by {}
                            assert(false);
                        }
                    }
                    return Result::Err(e);
                },
            };
            proof {
                assert forall|i: int, j: int|
                    0 <= i < f_q.nrows() && 0 <= j < f_q.ncols() implies old(
                    self,
                ).drift_entry_ok(c_q.entry(i, j), #[trigger] f_q.entry(i, j)) by {
                    lemma_drift_ok_congruence(pre, *old(self), c_q.entry(i, j), f_q.entry(i, j));
                }
            }
            j_q = match self.resolution(&c_q, &f_q) {
                Result::Ok(j) => j,
                Result::Err(_) => {
                    proof {
                        assert(false);
                    }
                    return Result::Err(TdrError::NonFiniteResult);
                },
            };
            iterations = iterations + 1;
        }
        let diff = if j_q >= j_prev {
            j_q - j_prev
        } else {
            j_prev - j_q
        };
        let reason = if diff <= self.convergence_threshold {
            TerminationReason::Converged
        } else {
            TerminationReason::BudgetExhausted
        };
        Result::Ok(CycleOutcome { c_q, f_q, j_q, iterations, reason })
    }
}

impl TensionCycle {
    /// Coherence coefficient, raw units.
    pub fn alpha_raw(&self) -> (r: i64)
        ensures
            r as int == self.spec_alpha(),
    {
        self.alpha
    }

    /// Fertility coefficient, raw units.
    pub fn beta_raw(&self) -> (r: i64)
        ensures
            r as int == self.spec_beta(),
    {
        self.beta
    }

    /// Number of lattice points; zero in continuous mode.
    pub fn lattice_len(&self) -> (r: usize)
        ensures
            r as int == self.lattice().len(),
    {
        self.peaks.len()
    }

    /// Adjusts one scoring coefficient by name, the narrow contract offered
    /// to a command front end: `"alpha"` or `"beta"`, with an in-range value.
    /// Any other name, or an out-of-range value, is rejected and the engine
    /// is left untouched.
    pub fn set_coefficient(&mut self, name: &str, value: i64) -> (r: Result<(), TdrError>)
        requires
            old(self).wf(),
        ensures
            final (self).wf(),
            r is Ok <==> (fits(value as int) && (name@ == "alpha"@ || name@ == "beta"@)),
            r is Err ==> r->Err_0 == TdrError::InvalidConfiguration && *final (self) == *old(self),
            r is Ok && name@ == "alpha"@ ==> final (self).spec_alpha() == value && final (self).spec_beta() == old(self).spec_beta(),
            r is Ok && name@ == "beta"@ ==> final (self).spec_beta() == value && final (self).spec_alpha() == old(self).spec_alpha(),
            final (self).spec_weights() == old(self).spec_weights(),
            final (self).spec_noise_mean() == old(self).spec_noise_mean(),
            final (self).spec_noise_std() == old(self).spec_noise_std(),
            final (self).spec_threshold() == old(self).spec_threshold(),
            final (self).spec_max_iterations() == old(self).spec_max_iterations(),
            final (self).lattice() == old(self).lattice(),
    {
        proof {
            reveal_strlit("alpha");
            reveal_strlit("beta");
            assert("alpha"@.len() == 5);
            assert("beta"@.len() == 4);
            assert("alpha"@ != "beta"@);
        }
        if value < -MAX_RAW || value > MAX_RAW {
            return Result::Err(TdrError::InvalidConfiguration);
        }
        let n = name.to_owned();
        if n == "alpha".to_owned() {
            self.alpha = value;
            Result::Ok(())
        } else if n == "beta".to_owned() {
            self.beta = value;
            Result::Ok(())
        } else {
            Result::Err(TdrError::InvalidConfiguration)
        }
    }

    /// Adjusts the lattice depth, the other narrow front-end contract: the
    /// lattice becomes the first `min(kmax, 30)` normalized partition peaks.
    /// Zero turns discretization off; a depth beyond the table is clamped.
    pub fn set_partition_depth(&mut self, kmax: usize)
        requires
            old(self).wf(),
        ensures
            final (self).wf(),
            final (self).lattice() == peaks_spec(kmax as int),
            final (self).spec_weights() == old(self).spec_weights(),
            final (self).spec_alpha() == old(self).spec_alpha(),
            final (self).spec_beta() == old(self).spec_beta(),
            final (self).spec_noise_mean() == old(self).spec_noise_mean(),
            final (self).spec_noise_std() == old(self).spec_noise_std(),
            final (self).spec_threshold() == old(self).spec_threshold(),
            final (self).spec_max_iterations() == old(self).spec_max_iterations(),
    {
        self.peaks = compute_partition_peaks(kmax);
    }
}

} // verus!
