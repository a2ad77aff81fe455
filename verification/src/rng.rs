//! Randomness.
//!
//! The only unverified surface is the pseudo-random generator itself: a
//! seeded `rand::rngs::StdRng` behind two trusted wrappers.  Everything that
//! turns raw 64-bit draws into distribution samples is verified, so the
//! generated tables and populations are a pure function of the drawn words.

use vstd::prelude::*;
use crate::fx::SCALE;
use crate::fx::spec_add;
use crate::fx::spec_mul;
use crate::fx::fx_add;
use crate::fx::fx_mul;

verus! {

#[verifier::external_type_specification]
#[verifier::external_body]
pub struct ExStdRng(rand::rngs::StdRng);

/// Relies on rand's `SeedableRng::seed_from_u64` for `StdRng`: builds a
/// generator from a 64-bit seed.  Nothing is assumed about the stream it
/// produces.
#[verifier::external_body]
fn rng_from_seed(seed: u64) -> rand::rngs::StdRng {
    <rand::rngs::StdRng as rand::SeedableRng>::seed_from_u64(seed)
}

/// Relies on rand's `RngCore::next_u64` for `StdRng`: returns the next word
/// of the generator's stream.  Nothing is assumed about its value.
#[verifier::external_body]
fn rng_next(rng: &mut rand::rngs::StdRng) -> u64 {
    rand::RngCore::next_u64(rng)
}

/// An explicit random source, threaded through generation and every reseed
/// so that a run is reproducible from its seed.
pub struct EntropySource {
    rng: rand::rngs::StdRng,
}

impl EntropySource {
    /// A source seeded from a 64-bit value.
    pub fn from_seed(seed: u64) -> EntropySource {
        EntropySource { rng: rng_from_seed(seed) }
    }

    /// Draw `n` raw words from the source.
    pub fn draw(&mut self, n: usize) -> (r: Vec<u64>)
        ensures
            r.len() == n,
    {
        let mut out: Vec<u64> = Vec::new();
        let mut i: usize = 0;
        while i < n
            invariant
                i <= n,
                out.len() == i,
            decreases n - i,
        {
            out.push(rng_next(&mut self.rng));
            i = i + 1;
        }
        out
    }
}

/// A raw word reduced to a fixed-point value in `[0, 1)`.
pub open spec fn spec_unit(raw: u64) -> int {
    (raw as int) % (SCALE as int)
}

/// A raw word reduced to a uniform sample in `[lo, hi]`.
pub open spec fn spec_uniform(lo: int, hi: int, raw: u64) -> int
    recommends
        lo <= hi,
{
    lo + (raw as int) % (hi - lo + 1)
}

/// Sum of the unit samples at `e[base], ..., e[base + n - 1]`.
pub open spec fn unit_sum(e: Seq<u64>, base: int, n: nat) -> int
    decreases n,
{
    if n == 0 {
        0
    } else {
        unit_sum(e, base, (n - 1) as nat) + spec_unit(e[base + n - 1])
    }
}

/// Number of unit samples summed for one approximately normal sample.
pub const NORMAL_DRAWS: usize = 12;

/// An approximately standard-normal fixed-point sample built from twelve
/// unit samples (their sum has mean 6 and variance 1).
pub open spec fn spec_normal01(e: Seq<u64>, base: int) -> int {
    unit_sum(e, base, NORMAL_DRAWS as nat) - 6 * (SCALE as int)
}

/// A sample from the configured normal distribution.
pub open spec fn spec_normal(e: Seq<u64>, base: int, mean: int, std: int) -> int {
    spec_add(mean, spec_mul(std, spec_normal01(e, base)))
}

/// A raw word reduced to a kind index below `kinds`.
pub open spec fn spec_kind(raw: u64, kinds: int) -> int
    recommends
        kinds > 0,
{
    (raw as int) % kinds
}

pub fn unit_sample(raw: u64) -> (r: i64)
    ensures
        r as int == spec_unit(raw),
        0 <= r < SCALE,
{
    (raw % (SCALE as u64)) as i64
}

pub fn uniform_sample(lo: i64, hi: i64, raw: u64) -> (r: i64)
    requires
        -crate::fx::FX_MAX <= lo <= hi <= crate::fx::FX_MAX,
    ensures
        r as int == spec_uniform(lo as int, hi as int, raw),
        lo <= r <= hi,
{
    let span = (hi - lo) as u64 + 1;
    let off = raw % span;
    lo + off as i64
}

pub fn normal01_sample(e: &Vec<u64>, base: usize) -> (r: i64)
    requires
        base + NORMAL_DRAWS <= e.len(),
    ensures
        r as int == spec_normal01(e@, base as int),
        -6 * SCALE <= r < 6 * SCALE,
{
    let mut sum: i64 = 0;
    let mut k: usize = 0;
    while k < NORMAL_DRAWS
        invariant
            k <= NORMAL_DRAWS,
            base + NORMAL_DRAWS <= e.len(),
            sum as int == unit_sum(e@, base as int, k as nat),
            0 <= sum <= (k as int) * 999_999,
        decreases NORMAL_DRAWS - k,
    {
        let u = unit_sample(e[base + k]);
        sum = sum + u;
        k = k + 1;
    }
    sum - 6 * SCALE
}

pub fn normal_sample(e: &Vec<u64>, base: usize, mean: i64, std: i64) -> (r: i64)
    requires
        base + NORMAL_DRAWS <= e.len(),
    ensures
        r as int == spec_normal(e@, base as int, mean as int, std as int),
{
    let n = normal01_sample(e, base);
    fx_add(mean, fx_mul(std, n))
}

pub fn kind_sample(raw: u64, kinds: usize) -> (r: usize)
    requires
        kinds > 0,
    ensures
        r as int == spec_kind(raw, kinds as int),
        r < kinds,
{
    (raw % (kinds as u64)) as usize
}

} // verus!
