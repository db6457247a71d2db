//! Stochastic drift noise.
//!
//! Randomness enters the library in exactly one place: `rand`'s `StdRng`
//! supplies uniform 64-bit words through a trusted wrapper.  Shaping those
//! words into a bounded, approximately normal deviate — an Irwin-Hall sum of
//! twelve uniform draws, which has mean zero and unit standard deviation —
//! is ordinary verified code, so everything the engine claims about noise
//! holds for every word the generator could return.

use vstd::prelude::*;

verus! {

use crate::fixed::MAX_RAW;
use crate::fixed::SCALE;
use crate::fixed::fixed_mul;
use crate::fixed::lemma_scaled_of_bounded;
use vstd::arithmetic::div_mod::lemma_div_pos_is_pos;
use vstd::arithmetic::div_mod::lemma_multiply_divide_lt;

/// `rand`'s standard generator, opaque to the verifier.
#[verifier::external_type_specification]
#[verifier::external_body]
pub struct ExStdRng(rand::rngs::StdRng);

/// Relies on rand's `SeedableRng::seed_from_u64` for `StdRng`: builds a
/// generator from a 64-bit seed.  The library promises nothing of the
/// generator's state, so no contract is needed here.
#[verifier::external_body]
pub(crate) fn rng_from_seed(seed: u64) -> rand::rngs::StdRng {
    <rand::rngs::StdRng as rand::SeedableRng>::seed_from_u64(seed)
}

/// Relies on rand's `RngCore::next_u64` for `StdRng`: the generator's next
/// word.  Nothing can be promised of a random word; callers state what holds
/// of every outcome.
#[verifier::external_body]
pub(crate) fn rng_next_u64(rng: &mut rand::rngs::StdRng) -> u64 {
    rand::RngCore::next_u64(rng)
}

/// One uniform draw in `[0, SCALE]`, scaled down from a full 64-bit word.
fn uniform_unit(rng: &mut rand::rngs::StdRng) -> (r: i64)
    ensures
        0 <= r <= SCALE,
{
    let u = rng_next_u64(rng);
    proof {
        assert((u as int) * ((SCALE as int) + 1) < 0x1_0000_0000_0000_0000 * ((SCALE as int) + 1))
            by (nonlinear_arith)
            requires
                u as int <= 0xFFFF_FFFF_FFFF_FFFF,
        ;
    }
    let wide: u128 = (u as u128) * ((SCALE as u128) + 1);
    let q: u128 = wide / 0x1_0000_0000_0000_0000;
    proof {
        lemma_multiply_divide_lt(wide as int, 0x1_0000_0000_0000_0000, (SCALE as int) + 1);
        lemma_div_pos_is_pos(wide as int, 0x1_0000_0000_0000_0000);
    }
    q as i64
}

/// A centered Irwin-Hall deviate: the sum of twelve uniform draws on
/// `[0, 1]`, shifted by 6.  The result has mean zero and unit standard
/// deviation and always lies in `[-6, 6]` (all in raw units of `SCALE`).
fn normal_deviate(rng: &mut rand::rngs::StdRng) -> (r: i64)
    ensures
        -6 * SCALE <= r <= 6 * SCALE,
{
    let mut acc: i64 = 0;
    let mut i: usize = 0;
    while i < 12
        invariant
            0 <= i <= 12,
            0 <= acc <= (i as int) * (SCALE as int),
        decreases 12 - i,
    {
        let u = uniform_unit(rng);
        acc = acc + u;
        i = i + 1;
    }
    acc - 6 * SCALE
}

/// One noise sample: the configured mean plus the configured standard
/// deviation times a centered unit deviate.  Every sample lies within six
/// standard deviations of the mean, whatever the generator returns.
pub(crate) fn noise_sample(rng: &mut rand::rngs::StdRng, mean: i64, std_dev: i64) -> (r: i64)
    requires
        -MAX_RAW <= mean <= MAX_RAW,
        0 <= std_dev <= MAX_RAW,
    ensures
        mean - 6 * (std_dev as int) <= r <= mean + 6 * (std_dev as int),
{
    let g = normal_deviate(rng);
    let scaled_dev = fixed_mul(std_dev, g);
    proof {
        lemma_scaled_of_bounded(std_dev as int, g as int, 6);
        assert(6 * (std_dev as int) == (std_dev as int) * 6) by (nonlinear_arith);
    }
    mean + scaled_dev
}

} // verus!
