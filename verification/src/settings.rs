//! Simulation configuration.
//!
//! A `Settings` value carries the population size, the number of particle
//! kinds, the parameters of the three sampling distributions, friction and
//! the flat-force flag.  All scalar fields are fixed-point quantities (see
//! [`crate::fx`]).  The named presets are plain values.

use vstd::prelude::*;
use crate::fx::FX_MAX;
use crate::fx::SCALE;

verus! {

/// Largest accepted number of particle kinds.
pub const MAX_KINDS: usize = 4096;

/// Largest accepted population size.
pub const MAX_PARTICLES: usize = 1_000_000;

/// Why a table or population could not be generated.
///
/// A kind count of zero is rejected outright rather than producing
/// degenerate empty tables; the other variants are machine limits.
#[derive(Clone, Copy, Debug, PartialEq, Eq, Structural)]
pub enum SimError {
    InvalidKindCount,
    TooManyKinds,
    TooManyParticles,
    InsufficientEntropy,
    InvalidExtent,
    InvalidDistribution,
}

/// Configuration of one simulation round.
///
/// `attract_mean`/`attract_std` parameterize the distribution of pairwise
/// attractions; `minr_*` bound the repel-distance distribution and `maxr_*`
/// the influence-radius distribution.
#[derive(Clone, Copy, Debug, PartialEq, Eq, Structural)]
pub struct Settings {
    pub particles: usize,
    pub kinds: usize,

    pub attract_mean: i64,
    pub attract_std: i64,
    pub minr_lower: i64,
    pub minr_upper: i64,
    pub maxr_lower: i64,
    pub maxr_upper: i64,

    pub friction: i64,
    pub flat_force: bool,
}

impl Settings {
    /// The scalar fields are representable and the distribution bounds are
    /// ordered, so every sampling operation on them is well defined.
    pub open spec fn ranges_ok(&self) -> bool {
        &&& -FX_MAX <= self.attract_mean <= FX_MAX
        &&& 0 <= self.attract_std <= FX_MAX
        &&& 0 <= self.minr_lower <= self.minr_upper <= FX_MAX
        &&& 0 <= self.maxr_lower <= self.maxr_upper <= FX_MAX
        &&& 0 <= self.friction <= SCALE
    }

    /// The counts are accepted by table and population generation.
    pub open spec fn counts_ok(&self) -> bool {
        &&& 1 <= self.kinds <= MAX_KINDS
        &&& self.particles <= MAX_PARTICLES
    }

    /// Decide `ranges_ok` at run time, for configurations that arrive as
    /// data rather than as a validated input.
    pub fn check_ranges(&self) -> (r: bool)
        ensures
            r == self.ranges_ok(),
    {
        -FX_MAX <= self.attract_mean && self.attract_mean <= FX_MAX && 0 <= self.attract_std
            && self.attract_std <= FX_MAX && 0 <= self.minr_lower && self.minr_lower
            <= self.minr_upper && self.minr_upper <= FX_MAX && 0 <= self.maxr_lower
            && self.maxr_lower <= self.maxr_upper && self.maxr_upper <= FX_MAX && 0
            <= self.friction && self.friction <= SCALE
    }

    pub fn balanced() -> (r: Settings)
        ensures
            r == (Settings {
                particles: 400,
                kinds: 9,
                attract_mean: -20_000i64,
                attract_std: 60_000,
                minr_lower: 0,
                minr_upper: 20_000_000,
                maxr_lower: 20_000_000,
                maxr_upper: 70_000_000,
                friction: 50_000,
                flat_force: false,
            }),
            r.ranges_ok(),
            r.counts_ok(),
    {
        Settings {
            particles: 400,
            kinds: 9,
            attract_mean: -20_000,
            attract_std: 60_000,
            minr_lower: 0,
            minr_upper: 20_000_000,
            maxr_lower: 20_000_000,
            maxr_upper: 70_000_000,
            friction: 50_000,
            flat_force: false,
        }
    }

    pub fn chaos() -> (r: Settings)
        ensures
            r == (Settings {
                particles: 400,
                kinds: 6,
                attract_mean: 20_000,
                attract_std: 40_000,
                minr_lower: 0,
                minr_upper: 30_000_000,
                maxr_lower: 30_000_000,
                maxr_upper: 100_000_000,
                friction: 10_000,
                flat_force: false,
            }),
            r.ranges_ok(),
            r.counts_ok(),
    {
        Settings {
            particles: 400,
            kinds: 6,
            attract_mean: 20_000,
            attract_std: 40_000,
            minr_lower: 0,
            minr_upper: 30_000_000,
            maxr_lower: 30_000_000,
            maxr_upper: 100_000_000,
            friction: 10_000,
            flat_force: false,
        }
    }

    pub fn diversity() -> (r: Settings)
        ensures
            r == (Settings {
                particles: 400,
                kinds: 12,
                attract_mean: -10_000i64,
                attract_std: 40_000,
                minr_lower: 0,
                minr_upper: 20_000_000,
                maxr_lower: 10_000_000,
                maxr_upper: 60_000_000,
                friction: 50_000,
                flat_force: true,
            }),
            r.ranges_ok(),
            r.counts_ok(),
    {
        Settings {
            particles: 400,
            kinds: 12,
            attract_mean: -10_000,
            attract_std: 40_000,
            minr_lower: 0,
            minr_upper: 20_000_000,
            maxr_lower: 10_000_000,
            maxr_upper: 60_000_000,
            friction: 50_000,
            flat_force: true,
        }
    }

    pub fn frictionless() -> (r: Settings)
        ensures
            r == (Settings {
                particles: 300,
                kinds: 6,
                attract_mean: 10_000,
                attract_std: 5_000,
                minr_lower: 10_000_000,
                minr_upper: 10_000_000,
                maxr_lower: 10_000_000,
                maxr_upper: 60_000_000,
                friction: 0,
                flat_force: true,
            }),
            r.ranges_ok(),
            r.counts_ok(),
    {
        Settings {
            particles: 300,
            kinds: 6,
            attract_mean: 10_000,
            attract_std: 5_000,
            minr_lower: 10_000_000,
            minr_upper: 10_000_000,
            maxr_lower: 10_000_000,
            maxr_upper: 60_000_000,
            friction: 0,
            flat_force: true,
        }
    }

    pub fn gliders() -> (r: Settings)
        ensures
            r == (Settings {
                particles: 400,
                kinds: 6,
                attract_mean: 0,
                attract_std: 60_000,
                minr_lower: 0,
                minr_upper: 20_000_000,
                maxr_lower: 10_000_000,
                maxr_upper: 50_000_000,
                friction: 10_000,
                flat_force: true,
            }),
            r.ranges_ok(),
            r.counts_ok(),
    {
        Settings {
            particles: 400,
            kinds: 6,
            attract_mean: 0,
            attract_std: 60_000,
            minr_lower: 0,
            minr_upper: 20_000_000,
            maxr_lower: 10_000_000,
            maxr_upper: 50_000_000,
            friction: 10_000,
            flat_force: true,
        }
    }

    pub fn homogeneity() -> (r: Settings)
        ensures
            r == (Settings {
                particles: 400,
                kinds: 4,
                attract_mean: 0,
                attract_std: 40_000,
                minr_lower: 10_000_000,
                minr_upper: 10_000_000,
                maxr_lower: 10_000_000,
                maxr_upper: 80_000_000,
                friction: 50_000,
                flat_force: true,
            }),
            r.ranges_ok(),
            r.counts_ok(),
    {
        Settings {
            particles: 400,
            kinds: 4,
            attract_mean: 0,
            attract_std: 40_000,
            minr_lower: 10_000_000,
            minr_upper: 10_000_000,
            maxr_lower: 10_000_000,
            maxr_upper: 80_000_000,
            friction: 50_000,
            flat_force: true,
        }
    }

    pub fn large_clusters() -> (r: Settings)
        ensures
            r == (Settings {
                particles: 400,
                kinds: 6,
                attract_mean: 25_000,
                attract_std: 20_000,
                minr_lower: 0,
                minr_upper: 30_000_000,
                maxr_lower: 30_000_000,
                maxr_upper: 100_000_000,
                friction: 200_000,
                flat_force: false,
            }),
            r.ranges_ok(),
            r.counts_ok(),
    {
        Settings {
            particles: 400,
            kinds: 6,
            attract_mean: 25_000,
            attract_std: 20_000,
            minr_lower: 0,
            minr_upper: 30_000_000,
            maxr_lower: 30_000_000,
            maxr_upper: 100_000_000,
            friction: 200_000,
            flat_force: false,
        }
    }

    pub fn medium_clusters() -> (r: Settings)
        ensures
            r == (Settings {
                particles: 400,
                kinds: 6,
                attract_mean: 20_000,
                attract_std: 50_000,
                minr_lower: 0,
                minr_upper: 20_000_000,
                maxr_lower: 20_000_000,
                maxr_upper: 50_000_000,
                friction: 50_000,
                flat_force: false,
            }),
            r.ranges_ok(),
            r.counts_ok(),
    {
        Settings {
            particles: 400,
            kinds: 6,
            attract_mean: 20_000,
            attract_std: 50_000,
            minr_lower: 0,
            minr_upper: 20_000_000,
            maxr_lower: 20_000_000,
            maxr_upper: 50_000_000,
            friction: 50_000,
            flat_force: false,
        }
    }

    pub fn quiescence() -> (r: Settings)
        ensures
            r == (Settings {
                particles: 300,
                kinds: 6,
                attract_mean: -20_000i64,
                attract_std: 100_000,
                minr_lower: 10_000_000,
                minr_upper: 20_000_000,
                maxr_lower: 20_000_000,
                maxr_upper: 60_000_000,
                friction: 200_000,
                flat_force: false,
            }),
            r.ranges_ok(),
            r.counts_ok(),
    {
        Settings {
            particles: 300,
            kinds: 6,
            attract_mean: -20_000,
            attract_std: 100_000,
            minr_lower: 10_000_000,
            minr_upper: 20_000_000,
            maxr_lower: 20_000_000,
            maxr_upper: 60_000_000,
            friction: 200_000,
            flat_force: false,
        }
    }

    pub fn small_clusters() -> (r: Settings)
        ensures
            r == (Settings {
                particles: 600,
                kinds: 6,
                attract_mean: -5_000i64,
                attract_std: 10_000,
                minr_lower: 10_000_000,
                minr_upper: 10_000_000,
                maxr_lower: 20_000_000,
                maxr_upper: 50_000_000,
                friction: 10_000,
                flat_force: false,
            }),
            r.ranges_ok(),
            r.counts_ok(),
    {
        Settings {
            particles: 600,
            kinds: 6,
            attract_mean: -5_000,
            attract_std: 10_000,
            minr_lower: 10_000_000,
            minr_upper: 10_000_000,
            maxr_lower: 20_000_000,
            maxr_upper: 50_000_000,
            friction: 10_000,
            flat_force: false,
        }
    }
}

} // verus!
