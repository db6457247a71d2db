//! Failure kinds reported by the engine.

use vstd::prelude::*;

verus! {

/// Everything that can go wrong inside the engine.
///
/// Configuration is validated once, at construction; per-call shape checks
/// fail immediately; a raw value escaping the representable range is the
/// fixed-point analogue of a floating-point NaN or infinity and is reported,
/// never silently propagated.
#[derive(Clone, Copy, Debug, PartialEq, Eq, Structural)]
pub enum TdrError {
    /// Non-positive or oversized dimensions, a negative noise deviation, or
    /// a statistic requested over an empty matrix.
    InvalidConfiguration,
    /// A matrix whose shape disagrees with what the operation expects.
    DimensionMismatch,
    /// A computation left the representable fixed-point range.
    NonFiniteResult,
}

} // verus!
