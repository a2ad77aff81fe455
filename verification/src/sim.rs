//! The particle store and the tick algorithm.
//!
//! One tick has two passes.  Pass one walks every unordered pair `(i, j)`
//! with `i < j` and accumulates forces into both velocities: unconditional
//! smoothed repulsion below the pair's repel distance, and (possibly
//! asymmetric) attraction up to its influence radius, tapered linearly
//! unless the flat-force flag is set.  Pass two integrates each position,
//! applies friction, and resolves the boundary by wrapping or by reflection.
//! Every step is pinned to a spec-level function of the starting state, so
//! the tick is reproducible by construction.

use vstd::prelude::*;
use vstd::arithmetic::mul::lemma_mul_inequality;
use vstd::arithmetic::mul::lemma_mul_upper_bound;
use crate::fx::FX_MAX;
use crate::fx::SCALE;
use crate::fx::fx_abs;
use crate::fx::fx_add;
use crate::fx::fx_div;
use crate::fx::fx_mul;
use crate::fx::fx_neg;
use crate::fx::fx_sqrt;
use crate::fx::fx_sub;
use crate::fx::spec_abs;
use crate::fx::spec_add;
use crate::fx::spec_div;
use crate::fx::spec_fx_sqrt;
use crate::fx::spec_mul;
use crate::fx::spec_neg;
use crate::fx::spec_sub;
use crate::fx::sqrt_floor;
use crate::fx::lemma_sqrt_floor_bounds;
use crate::kinds::ParticleKinds;
use crate::kinds::prop_ok;
use crate::kinds::table_entropy_amount;
use crate::settings::Settings;
use crate::settings::SimError;

verus! {

/// A particle's radius, in fixed-point length units.
pub const RADIUS: i64 = 5_000_000;

/// A particle's diameter: the repel distance of a kind with itself.
pub const DIAMETER: i64 = 10_000_000;

/// Smoothing constant of the repulsion force.
pub const R_SMOOTH: i64 = 2_000_000;

/// Pairs closer than this (squared distance) exert no force, so that the
/// direction vector is never divided by zero.
pub const EPS_DIST_SQ: i64 = 10_000;

/// One member of the population: position, velocity and kind.  Positions and
/// velocities share the same fixed-point pixel coordinate space.
#[derive(Clone, Copy, Debug, PartialEq, Eq, Structural)]
pub struct Particle {
    pub x: i64,
    pub y: i64,
    pub vx: i64,
    pub vy: i64,
    pub kind: usize,
}

/// The configuration a tick depends on, gathered for the specification.
pub struct SimParams {
    pub table: ParticleKinds,
    pub wrap: bool,
    pub flat_force: bool,
    pub friction: int,
    pub width: int,
    pub height: int,
}

impl SimParams {
    /// The configuration is usable: a well-formed table, friction a
    /// fraction, and a positive representable extent.
    pub open spec fn wf(&self) -> bool {
        &&& self.table.wf()
        &&& 0 <= self.friction <= SCALE
        &&& 0 < self.width <= FX_MAX
        &&& 0 < self.height <= FX_MAX
    }

    /// Minimal-image correction of one axis of a position difference under
    /// toroidal topology.
    pub open spec fn spec_wrap_delta(d: int, extent: int) -> int {
        if d > extent / 2 {
            spec_sub(d, extent)
        } else if d < -(extent / 2) {
            spec_add(d, extent)
        } else {
            d
        }
    }

    /// The smoothed repulsion magnitude at distance `dist` (below the
    /// repel distance); it is the same for both particles of the pair.
    pub open spec fn spec_repulsion(repel: int, dist: int) -> int {
        spec_mul(
            spec_mul(R_SMOOTH as int, repel),
            spec_sub(
                spec_div(SCALE as int, spec_add(repel, R_SMOOTH as int)),
                spec_div(SCALE as int, spec_add(dist, R_SMOOTH as int)),
            ),
        )
    }

    /// The triangular taper applied to attraction: one at the midpoint of
    /// the attraction band, falling linearly to zero at its edges.  A
    /// degenerate band (influence equal to repel) leaves the force flat.
    pub open spec fn spec_taper(repel: int, influence: int, dist: int) -> int {
        let denom = influence - repel;
        if denom <= 0 {
            SCALE as int
        } else {
            let peak = (repel + influence) / 2;
            let gap = spec_abs(spec_sub(dist, peak));
            spec_sub(SCALE as int, spec_div(spec_add(gap, gap), denom))
        }
    }

    /// One pairwise interaction: the force accumulation of the unordered
    /// pair `(i, j)` applied to the velocities of both particles.
    pub open spec fn spec_apply_pair(&self, ps: Seq<Particle>, i: int, j: int) -> Seq<Particle>
        recommends
            0 <= i < j < ps.len(),
    {
        let p = ps[i];
        let q = ps[j];
        let dx0 = spec_sub(q.x as int, p.x as int);
        let dy0 = spec_sub(q.y as int, p.y as int);
        let dx = if self.wrap {
            Self::spec_wrap_delta(dx0, self.width)
        } else {
            dx0
        };
        let dy = if self.wrap {
            Self::spec_wrap_delta(dy0, self.height)
        } else {
            dy0
        };
        let dist2 = spec_add(spec_mul(dx, dx), spec_mul(dy, dy));
        let props = self.table.spec_props(p.kind as int, q.kind as int);
        let influence_sq = spec_mul(props.influence_radius as int, props.influence_radius as int);
        if dist2 < EPS_DIST_SQ as int || dist2 > influence_sq {
            ps
        } else {
            let dist = spec_fx_sqrt(dist2);
            let f1 = spec_force(self.table, self.flat_force, p.kind as int, q.kind as int, dist);
            let f2 = spec_force(self.table, self.flat_force, q.kind as int, p.kind as int, dist);
            let dir_x = spec_div(dx, dist);
            let dir_y = spec_div(dy, dist);
            let p2 = Particle {
                vx: spec_add(p.vx as int, spec_mul(f1, dir_x)) as i64,
                vy: spec_add(p.vy as int, spec_mul(f1, dir_y)) as i64,
                ..p
            };
            let q2 = Particle {
                vx: spec_sub(q.vx as int, spec_mul(f2, dir_x)) as i64,
                vy: spec_sub(q.vy as int, spec_mul(f2, dir_y)) as i64,
                ..q
            };
            ps.update(i, p2).update(j, q2)
        }
    }

    /// Pass one restricted to row `i`: the pairs `(i, i+1) ... (i, j_end-1)`
    /// applied in order.
    pub open spec fn spec_pass1_inner(&self, base: Seq<Particle>, i: int, j_end: int) -> Seq<
        Particle,
    >
        decreases j_end - i,
    {
        if j_end <= i + 1 {
            base
        } else {
            self.spec_apply_pair(self.spec_pass1_inner(base, i, j_end - 1), i, j_end - 1)
        }
    }

    /// Pass one restricted to rows `0 ... i_end-1`, each row over the whole
    /// population.
    pub open spec fn spec_pass1_outer(&self, ps: Seq<Particle>, i_end: int) -> Seq<Particle>
        decreases i_end,
    {
        if i_end <= 0 {
            ps
        } else {
            self.spec_pass1_inner(self.spec_pass1_outer(ps, i_end - 1), i_end - 1, ps.len() as int)
        }
    }

    /// The whole of pass one: every unordered pair, rows outermost.
    pub open spec fn spec_pass1(&self, ps: Seq<Particle>) -> Seq<Particle> {
        self.spec_pass1_outer(ps, ps.len() as int)
    }

    /// Pass two for one particle: integrate the position, damp the
    /// velocity, then wrap the position modulo the extent or reflect off
    /// the walls with exactly one velocity-sign flip per contacted axis.
    pub open spec fn spec_integrate(&self, p: Particle) -> Particle {
        spec_integrate_one(self.wrap, self.friction, self.width, self.height, p)
    }

    /// The whole of pass two.
    pub open spec fn spec_pass2(&self, ps: Seq<Particle>) -> Seq<Particle> {
        Seq::new(ps.len(), |m: int| self.spec_integrate(ps[m]))
    }

    /// One full tick.
    pub open spec fn spec_step(&self, ps: Seq<Particle>) -> Seq<Particle> {
        self.spec_pass2(self.spec_pass1(ps))
    }
}

/// Pass two for one particle: integrate the position with the undamped
/// velocity, damp the velocity, then wrap the position modulo the extent or
/// reflect off the walls with exactly one velocity-sign flip per contacted
/// axis.
pub open spec fn spec_integrate_one(
    wrap: bool,
    friction: int,
    width: int,
    height: int,
    p: Particle,
) -> Particle {
    let x1 = spec_add(p.x as int, p.vx as int);
    let y1 = spec_add(p.y as int, p.vy as int);
    let vx1 = spec_mul(p.vx as int, SCALE - friction);
    let vy1 = spec_mul(p.vy as int, SCALE - friction);
    if wrap {
        let x2 = if x1 < 0 {
            spec_add(x1, width)
        } else if x1 >= width {
            spec_sub(x1, width)
        } else {
            x1
        };
        let y2 = if y1 < 0 {
            spec_add(y1, height)
        } else if y1 >= height {
            spec_sub(y1, height)
        } else {
            y1
        };
        Particle { x: x2 as i64, y: y2 as i64, vx: vx1 as i64, vy: vy1 as i64, kind: p.kind }
    } else {
        let lo = RADIUS as int;
        let hi_x = width - RADIUS;
        let hi_y = height - RADIUS;
        let (x2, vx2): (int, int) = if x1 <= lo {
            (lo, spec_neg(vx1))
        } else if x1 >= hi_x {
            (hi_x, spec_neg(vx1))
        } else {
            (x1, vx1)
        };
        let (y2, vy2): (int, int) = if y1 <= lo {
            (lo, spec_neg(vy1))
        } else if y1 >= hi_y {
            (hi_y, spec_neg(vy1))
        } else {
            (y1, vy1)
        };
        Particle { x: x2 as i64, y: y2 as i64, vx: vx2 as i64, vy: vy2 as i64, kind: p.kind }
    }
}

/// The force on a particle of kind `ki` from a particle of kind `kj` at
/// distance `dist` (already known to be within the influence radius):
/// smoothed repulsion below the repel distance, attraction above it,
/// tapered unless the flat-force flag is set.
pub open spec fn spec_force(
    table: ParticleKinds,
    flat_force: bool,
    ki: int,
    kj: int,
    dist: int,
) -> int {
    let props = table.spec_props(ki, kj);
    if dist < props.repel_distance {
        SimParams::spec_repulsion(props.repel_distance as int, dist)
    } else if flat_force {
        table.spec_attraction(ki, kj)
    } else {
        spec_mul(
            table.spec_attraction(ki, kj),
            SimParams::spec_taper(
                props.repel_distance as int,
                props.influence_radius as int,
                dist,
            ),
        )
    }
}

/// All kinds in the population index into the table.
pub open spec fn kinds_ok(ps: Seq<Particle>, kinds: int) -> bool {
    forall|m: int| 0 <= m < ps.len() ==> (#[trigger] ps[m]).kind < kinds
}

/// One pairwise interaction leaves the population size, every kind and
/// every position unchanged, and touches no velocity but those of `i` and
/// `j`.
pub proof fn lemma_apply_pair_preserves(params: &SimParams, ps: Seq<Particle>, i: int, j: int)
    requires
        0 <= i < j < ps.len(),
    ensures
        params.spec_apply_pair(ps, i, j).len() == ps.len(),
        forall|m: int|
            0 <= m < ps.len() ==> (#[trigger] params.spec_apply_pair(ps, i, j)[m]).kind
                == ps[m].kind,
        forall|m: int|
            0 <= m < ps.len() ==> (#[trigger] params.spec_apply_pair(ps, i, j)[m]).x == ps[m].x
                && params.spec_apply_pair(ps, i, j)[m].y == ps[m].y,
        forall|m: int|
            0 <= m < ps.len() && m != i && m != j ==> #[trigger] params.spec_apply_pair(ps, i, j)[m]
                == ps[m],
{
}

/// Row `i` of pass one preserves size, kinds and positions, and velocities
/// outside the row.
pub proof fn lemma_pass1_inner_preserves(params: &SimParams, base: Seq<Particle>, i: int, j_end: int)
    requires
        0 <= i < base.len(),
        j_end <= base.len(),
    ensures
        params.spec_pass1_inner(base, i, j_end).len() == base.len(),
        forall|m: int|
            0 <= m < base.len() ==> (#[trigger] params.spec_pass1_inner(base, i, j_end)[m]).kind
                == base[m].kind,
        forall|m: int|
            0 <= m < base.len() ==> (#[trigger] params.spec_pass1_inner(base, i, j_end)[m]).x
                == base[m].x && params.spec_pass1_inner(base, i, j_end)[m].y == base[m].y,
    decreases j_end - i,
{
    if j_end <= i + 1 {
    } else {
        lemma_pass1_inner_preserves(params, base, i, j_end - 1);
        lemma_apply_pair_preserves(
            params,
            params.spec_pass1_inner(base, i, j_end - 1),
            i,
            j_end - 1,
        );
    }
}

/// Pass one preserves size, kinds and positions.
pub proof fn lemma_pass1_outer_preserves(params: &SimParams, ps: Seq<Particle>, i_end: int)
    requires
        i_end <= ps.len(),
    ensures
        params.spec_pass1_outer(ps, i_end).len() == ps.len(),
        forall|m: int|
            0 <= m < ps.len() ==> (#[trigger] params.spec_pass1_outer(ps, i_end)[m]).kind
                == ps[m].kind,
        forall|m: int|
            0 <= m < ps.len() ==> (#[trigger] params.spec_pass1_outer(ps, i_end)[m]).x == ps[m].x
                && params.spec_pass1_outer(ps, i_end)[m].y == ps[m].y,
    decreases i_end,
{
    if i_end <= 0 {
    } else {
        lemma_pass1_outer_preserves(params, ps, i_end - 1);
        lemma_pass1_inner_preserves(
            params,
            params.spec_pass1_outer(ps, i_end - 1),
            i_end - 1,
            ps.len() as int,
        );
    }
}

/// Multiplying a representable quantity by one is the identity.
proof fn lemma_mul_by_one(a: int)
    requires
        -FX_MAX <= a <= FX_MAX,
    ensures
        spec_mul(a, SCALE as int) == a,
{
    if a >= 0 {
        vstd::arithmetic::div_mod::lemma_div_multiples_vanish(a, SCALE as int);
    } else {
        vstd::arithmetic::div_mod::lemma_div_multiples_vanish(-a, SCALE as int);
        vstd::arithmetic::mul::lemma_mul_unary_negation(a, SCALE as int);
    }
}

/// A squared distance at or above the cutoff has a strictly positive root.
proof fn lemma_dist_positive(d2: int)
    requires
        EPS_DIST_SQ <= d2,
    ensures
        spec_fx_sqrt(d2) >= 100_000,
{
    lemma_mul_inequality(EPS_DIST_SQ as int, d2, SCALE as int);
    let m = (d2 * (SCALE as int)) as nat;
    lemma_sqrt_floor_bounds(m);
    let s = sqrt_floor(m) as int;
    if s < 100_000 {
        lemma_mul_upper_bound(s + 1, 100_000, s + 1, 100_000);
        assert(false);
    }
}

/// One pairwise interaction, executed: reads the pair, accumulates forces.
fn apply_pair_at(
    table: &ParticleKinds,
    wrap: bool,
    flat_force: bool,
    friction: i64,
    width: i64,
    height: i64,
    particles: &mut Vec<Particle>,
    i: usize,
    j: usize,
)
    requires
        table.wf(),
        0 <= friction <= SCALE,
        0 < width <= FX_MAX,
        0 < height <= FX_MAX,
        i < j < old(particles).len(),
        old(particles)[i as int].kind < table.kinds,
        old(particles)[j as int].kind < table.kinds,
    ensures
        final(particles)@ == (SimParams {
            table: *table,
            wrap,
            flat_force,
            friction: friction as int,
            width: width as int,
            height: height as int,
        }).spec_apply_pair(old(particles)@, i as int, j as int),
{
    let ghost params = SimParams {
        table: *table,
        wrap,
        flat_force,
        friction: friction as int,
        width: width as int,
        height: height as int,
    };
    let p = particles[i];
    let q = particles[j];

    let dx0 = fx_sub(q.x, p.x);
    let dy0 = fx_sub(q.y, p.y);
    let (dx, dy) = if wrap {
        let half_w = ((width as u64) / 2) as i64;
        let half_h = ((height as u64) / 2) as i64;
        let dx = if dx0 > half_w {
            fx_sub(dx0, width)
        } else if dx0 < -half_w {
            fx_add(dx0, width)
        } else {
            dx0
        };
        let dy = if dy0 > half_h {
            fx_sub(dy0, height)
        } else if dy0 < -half_h {
            fx_add(dy0, height)
        } else {
            dy0
        };
        (dx, dy)
    } else {
        (dx0, dy0)
    };

    let dist2 = fx_add(fx_mul(dx, dx), fx_mul(dy, dy));
    let props = table.props_at(p.kind, q.kind);
    let influence_sq = fx_mul(props.influence_radius, props.influence_radius);
    if dist2 < EPS_DIST_SQ || dist2 > influence_sq {
        return ;
    }
    let dist = fx_sqrt(dist2);
    proof {
        lemma_dist_positive(dist2 as int);
    }
    let f1 = force_at(table, flat_force, p.kind, q.kind, dist);
    let f2 = force_at(table, flat_force, q.kind, p.kind, dist);
    let dir_x = fx_div(dx, dist);
    let dir_y = fx_div(dy, dist);

    let p2 = Particle {
        vx: fx_add(p.vx, fx_mul(f1, dir_x)),
        vy: fx_add(p.vy, fx_mul(f1, dir_y)),
        ..p
    };
    let q2 = Particle {
        vx: fx_sub(q.vx, fx_mul(f2, dir_x)),
        vy: fx_sub(q.vy, fx_mul(f2, dir_y)),
        ..q
    };
    particles[i] = p2;
    particles[j] = q2;
}

/// The pairwise force magnitude, executed.
fn force_at(table: &ParticleKinds, flat_force: bool, ki: usize, kj: usize, dist: i64) -> (r: i64)
    requires
        table.wf(),
        ki < table.kinds,
        kj < table.kinds,
        dist >= 0,
    ensures
        r as int == spec_force(*table, flat_force, ki as int, kj as int, dist as int),
{
    let props = table.props_at(ki, kj);
    if dist < props.repel_distance {
        let inv_a = fx_div(SCALE, fx_add(props.repel_distance, R_SMOOTH));
        let inv_b = fx_div(SCALE, fx_add(dist, R_SMOOTH));
        fx_mul(fx_mul(R_SMOOTH, props.repel_distance), fx_sub(inv_a, inv_b))
    } else if flat_force {
        table.attraction_at(ki, kj)
    } else {
        let attraction = table.attraction_at(ki, kj);
        let denom = props.influence_radius - props.repel_distance;
        if denom <= 0 {
            proof {
                lemma_mul_by_one(attraction as int);
            }
            attraction
        } else {
            let peak = (((props.repel_distance + props.influence_radius) as u64) / 2) as i64;
            let gap = fx_abs(fx_sub(dist, peak));
            let coefficient = fx_sub(SCALE, fx_div(fx_add(gap, gap), denom));
            fx_mul(attraction, coefficient)
        }
    }
}


/// Standard deviation of the initial velocity distribution.
pub const VEL_STD: i64 = 200_000;

/// Raw words consumed to generate one particle: one for the kind, one per
/// position axis, and one normal sample per velocity axis.
pub const PARTICLE_DRAWS: usize = 27;

/// Raw words consumed to build a whole simulation: a table and a population.
pub open spec fn sim_entropy(kinds: int, particles: int) -> int {
    crate::kinds::table_entropy(kinds) + 27 * particles
}

/// The sampling interval of one position axis: the whole extent under wrap,
/// the central half otherwise.
pub open spec fn spec_pos_low(extent: int, wrap: bool) -> int {
    if wrap {
        0
    } else {
        extent / 4
    }
}

pub open spec fn spec_pos_high(extent: int, wrap: bool) -> int {
    if wrap {
        extent
    } else {
        extent - extent / 4
    }
}

/// The particle determined by the raw words starting at `base`: a uniform
/// kind, a uniform position inside the sampling interval of each axis, and
/// an approximately normal velocity.
pub open spec fn spec_gen_particle(
    kinds: int,
    e: Seq<u64>,
    base: int,
    wrap: bool,
    width: int,
    height: int,
) -> Particle
    recommends
        kinds > 0,
{
    Particle {
        kind: crate::rng::spec_kind(e[base], kinds) as usize,
        x: crate::rng::spec_uniform(
            spec_pos_low(width, wrap),
            spec_pos_high(width, wrap),
            e[base + 1],
        ) as i64,
        y: crate::rng::spec_uniform(
            spec_pos_low(height, wrap),
            spec_pos_high(height, wrap),
            e[base + 2],
        ) as i64,
        vx: crate::rng::spec_normal(e, base + 3, 0, VEL_STD as int) as i64,
        vy: crate::rng::spec_normal(e, base + 15, 0, VEL_STD as int) as i64,
    }
}

/// The population generated from the raw words `e` starting at `off`, one
/// particle every `PARTICLE_DRAWS` words.
pub open spec fn particles_match(
    ps: Seq<Particle>,
    kinds: int,
    e: Seq<u64>,
    off: int,
    wrap: bool,
    width: int,
    height: int,
) -> bool {
    forall|p: int|
        0 <= p < ps.len() ==> #[trigger] ps[p] == spec_gen_particle(
            kinds,
            e,
            off + 27 * p,
            wrap,
            width,
            height,
        )
}

/// Generate one particle from the raw words starting at `base`, executed.
fn generate_particle(
    kinds: usize,
    e: &Vec<u64>,
    base: usize,
    wrap: bool,
    width: i64,
    height: i64,
) -> (r: Particle)
    requires
        1 <= kinds <= crate::settings::MAX_KINDS,
        base + PARTICLE_DRAWS <= e.len(),
        0 < width <= FX_MAX,
        0 < height <= FX_MAX,
    ensures
        r == spec_gen_particle(kinds as int, e@, base as int, wrap, width as int, height as int),
        r.kind < kinds,
{
    let kind = crate::rng::kind_sample(e[base], kinds);
    let (x_lo, x_hi) = pos_range(width, wrap);
    let (y_lo, y_hi) = pos_range(height, wrap);
    let x = crate::rng::uniform_sample(x_lo, x_hi, e[base + 1]);
    let y = crate::rng::uniform_sample(y_lo, y_hi, e[base + 2]);
    let vx = crate::rng::normal_sample(e, base + 3, 0, VEL_STD);
    let vy = crate::rng::normal_sample(e, base + 15, 0, VEL_STD);
    Particle { x, y, vx, vy, kind }
}

/// The sampling interval of one position axis, executed.
fn pos_range(extent: i64, wrap: bool) -> (r: (i64, i64))
    requires
        0 < extent <= FX_MAX,
    ensures
        r.0 as int == spec_pos_low(extent as int, wrap),
        r.1 as int == spec_pos_high(extent as int, wrap),
        0 <= r.0 <= r.1 <= FX_MAX,
{
    if wrap {
        (0, extent)
    } else {
        let quarter = ((extent as u64) / 4) as i64;
        (quarter, extent - quarter)
    }
}

/// The number of raw words `Sim::new` and `Sim::seed` consume for the given
/// configuration, executed.
pub fn sim_entropy_amount(s: &Settings) -> (r: usize)
    requires
        s.counts_ok(),
    ensures
        r as int == sim_entropy(s.kinds as int, s.particles as int),
{
    table_entropy_amount(s.kinds) + PARTICLE_DRAWS * s.particles
}

/// The live population: configuration, per-kind-pair table and particles.
pub struct Sim {
    pub wrap: bool,
    pub flat_force: bool,
    pub friction: i64,
    pub width: i64,
    pub height: i64,
    pub table: ParticleKinds,
    pub particles: Vec<Particle>,
}

impl Sim {
    /// The configuration a tick depends on.
    pub open spec fn params(&self) -> SimParams {
        SimParams {
            table: self.table,
            wrap: self.wrap,
            flat_force: self.flat_force,
            friction: self.friction as int,
            width: self.width as int,
            height: self.height as int,
        }
    }

    /// Well-formedness: a usable configuration, a bounded population, and
    /// every particle's kind indexing into the table.
    pub open spec fn wf(&self) -> bool {
        &&& self.params().wf()
        &&& self.particles.len() <= crate::settings::MAX_PARTICLES
        &&& kinds_ok(self.particles@, self.table.kinds as int)
    }

    /// Build a fresh simulation from settings, an extent and raw words.
    ///
    /// Succeeds exactly when the counts are accepted and enough raw words
    /// were supplied; the result is then a pure function of the inputs,
    /// with wrap initially off.
    pub fn new(s: &Settings, width: i64, height: i64, e: &Vec<u64>) -> (r: Result<Sim, SimError>)
        requires
            s.ranges_ok(),
            0 < width <= FX_MAX,
            0 < height <= FX_MAX,
        ensures
            r is Ok <==> (s.counts_ok() && e.len() >= sim_entropy(
                s.kinds as int,
                s.particles as int,
            )),
            match r {
                Ok(sim) => {
                    &&& sim.wf()
                    &&& sim.wrap == false
                    &&& sim.flat_force == s.flat_force
                    &&& sim.friction == s.friction
                    &&& sim.width == width
                    &&& sim.height == height
                    &&& crate::kinds::table_matches(sim.table, *s, e@)
                    &&& sim.particles.len() == s.particles
                    &&& particles_match(
                        sim.particles@,
                        s.kinds as int,
                        e@,
                        crate::kinds::table_entropy(s.kinds as int),
                        false,
                        width as int,
                        height as int,
                    )
                },
                Err(SimError::InvalidKindCount) => s.kinds == 0,
                Err(SimError::TooManyKinds) => s.kinds > crate::settings::MAX_KINDS,
                Err(SimError::TooManyParticles) => 1 <= s.kinds <= crate::settings::MAX_KINDS
                    && e.len() >= crate::kinds::table_entropy(s.kinds as int) && s.particles
                    > crate::settings::MAX_PARTICLES,
                Err(SimError::InsufficientEntropy) => 1 <= s.kinds <= crate::settings::MAX_KINDS
                    && e.len() < sim_entropy(s.kinds as int, s.particles as int),
                Err(_) => false,
            },
    {
        let table = match ParticleKinds::random(s, e) {
            Ok(t) => t,
            Err(err) => {
                return Err(err);
            },
        };
        if s.particles > crate::settings::MAX_PARTICLES {
            return Err(SimError::TooManyParticles);
        }
        let particles = match generate_population(
            s.kinds,
            s.particles,
            e,
            table_entropy_amount(s.kinds),
            false,
            width,
            height,
        ) {
            Ok(ps) => ps,
            Err(err) => {
                return Err(err);
            },
        };
        Ok(
            Sim {
                wrap: false,
                flat_force: s.flat_force,
                friction: s.friction,
                width,
                height,
                table,
                particles,
            },
        )
    }

    /// Replace table and population from new settings, keeping the wrap
    /// flag and the extent; the simulation is untouched on failure.
    pub fn seed(&mut self, s: &Settings, e: &Vec<u64>) -> (r: Result<(), SimError>)
        requires
            old(self).wf(),
            s.ranges_ok(),
        ensures
            r is Ok <==> (s.counts_ok() && e.len() >= sim_entropy(
                s.kinds as int,
                s.particles as int,
            )),
            match r {
                Ok(()) => {
                    &&& final(self).wf()
                    &&& final(self).wrap == old(self).wrap
                    &&& final(self).width == old(self).width
                    &&& final(self).height == old(self).height
                    &&& final(self).flat_force == s.flat_force
                    &&& final(self).friction == s.friction
                    &&& crate::kinds::table_matches(final(self).table, *s, e@)
                    &&& final(self).particles.len() == s.particles
                    &&& particles_match(
                        final(self).particles@,
                        s.kinds as int,
                        e@,
                        crate::kinds::table_entropy(s.kinds as int),
                        old(self).wrap,
                        old(self).width as int,
                        old(self).height as int,
                    )
                },
                Err(_) => *final(self) == *old(self),
            },
            r is Err ==> match r {
                Err(SimError::InvalidKindCount) => s.kinds == 0,
                Err(SimError::TooManyKinds) => s.kinds > crate::settings::MAX_KINDS,
                Err(SimError::TooManyParticles) => 1 <= s.kinds <= crate::settings::MAX_KINDS
                    && e.len() >= crate::kinds::table_entropy(s.kinds as int) && s.particles
                    > crate::settings::MAX_PARTICLES,
                Err(SimError::InsufficientEntropy) => 1 <= s.kinds <= crate::settings::MAX_KINDS
                    && e.len() < sim_entropy(s.kinds as int, s.particles as int),
                Err(_) => false,
                Ok(_) => true,
            },
    {
        let table = match ParticleKinds::random(s, e) {
            Ok(t) => t,
            Err(err) => {
                return Err(err);
            },
        };
        if s.particles > crate::settings::MAX_PARTICLES {
            return Err(SimError::TooManyParticles);
        }
        let particles = match generate_population(
            s.kinds,
            s.particles,
            e,
            table_entropy_amount(s.kinds),
            self.wrap,
            self.width,
            self.height,
        ) {
            Ok(ps) => ps,
            Err(err) => {
                return Err(err);
            },
        };
        self.table = table;
        self.particles = particles;
        self.flat_force = s.flat_force;
        self.friction = s.friction;
        Ok(())
    }

    /// Re-sample every particle of the current population from fresh raw
    /// words, keeping the table, count and configuration; the simulation is
    /// untouched on failure.
    pub fn randomize_particles(&mut self, e: &Vec<u64>) -> (r: Result<(), SimError>)
        requires
            old(self).wf(),
        ensures
            r is Ok <==> e.len() >= 27 * old(self).particles.len(),
            match r {
                Ok(()) => {
                    &&& final(self).wf()
                    &&& *final(self) == (Sim {
                        particles: final(self).particles,
                        ..*old(self)
                    })
                    &&& final(self).particles.len() == old(self).particles.len()
                    &&& particles_match(
                        final(self).particles@,
                        old(self).table.kinds as int,
                        e@,
                        0,
                        old(self).wrap,
                        old(self).width as int,
                        old(self).height as int,
                    )
                },
                Err(SimError::InsufficientEntropy) => *final(self) == *old(self) && e.len() < 27
                    * old(self).particles.len(),
                Err(_) => false,
            },
    {
        let particles = match generate_population(
            self.table.kinds,
            self.particles.len(),
            e,
            0,
            self.wrap,
            self.width,
            self.height,
        ) {
            Ok(ps) => ps,
            Err(err) => {
                return Err(err);
            },
        };
        self.particles = particles;
        Ok(())
    }

    /// Scale every position by the ratio of the new extent to the old.
    pub fn resize(&mut self, width: i64, height: i64)
        requires
            old(self).wf(),
            0 < width <= FX_MAX,
            0 < height <= FX_MAX,
        ensures
            final(self).wf(),
            final(self).width == width,
            final(self).height == height,
            final(self).wrap == old(self).wrap,
            final(self).flat_force == old(self).flat_force,
            final(self).friction == old(self).friction,
            final(self).table == old(self).table,
            final(self).particles.len() == old(self).particles.len(),
            forall|m: int|
                0 <= m < old(self).particles.len() ==> {
                    let p = old(self).particles[m];
                    #[trigger] final(self).particles[m] == (Particle {
                        x: spec_mul(
                            p.x as int,
                            spec_div(width as int, old(self).width as int),
                        ) as i64,
                        y: spec_mul(
                            p.y as int,
                            spec_div(height as int, old(self).height as int),
                        ) as i64,
                        ..p
                    })
                },
    {
        let ghost orig = *self;
        let x_mult = fx_div(width, self.width);
        let y_mult = fx_div(height, self.height);
        let n = self.particles.len();
        let mut m: usize = 0;
        while m < n
            invariant
                n == self.particles.len(),
                n == orig.particles.len(),
                m <= n,
                self.wrap == orig.wrap,
                self.flat_force == orig.flat_force,
                self.friction == orig.friction,
                self.width == orig.width,
                self.height == orig.height,
                self.table == orig.table,
                x_mult as int == spec_div(width as int, orig.width as int),
                y_mult as int == spec_div(height as int, orig.height as int),
                forall|t: int|
                    0 <= t < m ==> #[trigger] self.particles[t] == (Particle {
                        x: spec_mul(orig.particles[t].x as int, x_mult as int) as i64,
                        y: spec_mul(orig.particles[t].y as int, y_mult as int) as i64,
                        ..orig.particles[t]
                    }),
                forall|t: int| m <= t < n ==> #[trigger] self.particles[t] == orig.particles[t],
            decreases n - m,
        {
            let p = self.particles[m];
            let p2 = Particle { x: fx_mul(p.x, x_mult), y: fx_mul(p.y, y_mult), ..p };
            self.particles[m] = p2;
            m = m + 1;
        }
        self.width = width;
        self.height = height;
        proof {
            assert forall|t: int|
                0 <= t < self.particles.len() implies (#[trigger] self.particles[t]).kind < (
            self.table.kinds as int) by {
                assert(self.particles[t].kind == orig.particles[t].kind);
            }
        }
    }

    /// Flip the boundary topology between wrapping and reflecting.
    pub fn toggle_wrap(&mut self)
        requires
            old(self).wf(),
        ensures
            final(self).wf(),
            final(self).wrap == !old(self).wrap,
            *final(self) == (Sim { wrap: !old(self).wrap, ..*old(self) }),
    {
        self.wrap = !self.wrap;
    }

    /// A copy of the current population, e.g. for a frame snapshot.
    pub fn snapshot(&self) -> (r: Vec<Particle>)
        ensures
            r@ == self.particles@,
    {
        let mut out: Vec<Particle> = Vec::new();
        let n = self.particles.len();
        let mut m: usize = 0;
        while m < n
            invariant
                n == self.particles.len(),
                m <= n,
                out@ == self.particles@.subrange(0, m as int),
            decreases n - m,
        {
            out.push(self.particles[m]);
            proof {
                assert(out@ =~= self.particles@.subrange(0, m as int + 1));
            }
            m = m + 1;
        }
        proof {
            assert(out@ =~= self.particles@);
        }
        out
    }

    /// Advance the population by one tick.
    pub fn step(&mut self)
        requires
            old(self).wf(),
        ensures
            final(self).wf(),
            final(self).particles@ == old(self).params().spec_step(old(self).particles@),
            final(self).wrap == old(self).wrap,
            final(self).flat_force == old(self).flat_force,
            final(self).friction == old(self).friction,
            final(self).width == old(self).width,
            final(self).height == old(self).height,
            final(self).table == old(self).table,
    {
        let ghost orig = *self;
        let n = self.particles.len();

        // Pass one: pairwise force accumulation.
        let mut i: usize = 0;
        while i < n
            invariant
                orig.wf(),
                n == orig.particles.len(),
                n == self.particles.len(),
                i <= n,
                self.wrap == orig.wrap,
                self.flat_force == orig.flat_force,
                self.friction == orig.friction,
                self.width == orig.width,
                self.height == orig.height,
                self.table == orig.table,
                kinds_ok(self.particles@, orig.table.kinds as int),
                self.particles@ == orig.params().spec_pass1_outer(orig.particles@, i as int),
            decreases n - i,
        {
            let mut j: usize = i + 1;
            while j < n
                invariant
                    orig.wf(),
                    n == orig.particles.len(),
                    n == self.particles.len(),
                    i < n,
                    i + 1 <= j <= n,
                    self.wrap == orig.wrap,
                    self.flat_force == orig.flat_force,
                    self.friction == orig.friction,
                    self.width == orig.width,
                    self.height == orig.height,
                    self.table == orig.table,
                    kinds_ok(self.particles@, orig.table.kinds as int),
                    self.particles@ == orig.params().spec_pass1_inner(
                        orig.params().spec_pass1_outer(orig.particles@, i as int),
                        i as int,
                        j as int,
                    ),
                decreases n - j,
            {
                let ghost prev = self.particles@;
                apply_pair_at(
                    &self.table,
                    self.wrap,
                    self.flat_force,
                    self.friction,
                    self.width,
                    self.height,
                    &mut self.particles,
                    i,
                    j,
                );
                proof {
                    assert(self.particles@ == orig.params().spec_apply_pair(
                        prev,
                        i as int,
                        j as int,
                    ));
                    lemma_apply_pair_preserves(&orig.params(), prev, i as int, j as int);
                }
                j = j + 1;
            }
            i = i + 1;
        }
        proof {
            assert(self.particles@ == orig.params().spec_pass1(orig.particles@));
        }

        // Pass two: integration and boundary resolution.
        let ghost mid = self.particles@;
        let mut m: usize = 0;
        while m < n
            invariant
                orig.wf(),
                n == self.particles.len(),
                mid.len() == n,
                m <= n,
                self.wrap == orig.wrap,
                self.flat_force == orig.flat_force,
                self.friction == orig.friction,
                self.width == orig.width,
                self.height == orig.height,
                self.table == orig.table,
                forall|t: int|
                    0 <= t < m ==> #[trigger] self.particles[t] == orig.params().spec_integrate(
                        mid[t],
                    ),
                forall|t: int| m <= t < n ==> #[trigger] self.particles[t] == mid[t],
            decreases n - m,
        {
            let p = self.particles[m];
            let p2 = integrate_particle(self.wrap, self.friction, self.width, self.height, p);
            proof {
                assert(p2 == orig.params().spec_integrate(mid[m as int]));
            }
            self.particles[m] = p2;
            m = m + 1;
        }
        proof {
            assert(self.particles@ =~= orig.params().spec_pass2(mid));
            lemma_pass1_outer_preserves(&orig.params(), orig.particles@, n as int);
            assert forall|t: int|
                0 <= t < self.particles.len() implies (#[trigger] self.particles[t]).kind < (
            self.table.kinds as int) by {
                assert(self.particles[t] == orig.params().spec_integrate(mid[t]));
                assert(mid[t].kind < orig.table.kinds);
            }
        }
    }
}

/// Generate a population of `count` particles from the raw words starting
/// at `off`.
fn generate_population(
    kinds: usize,
    count: usize,
    e: &Vec<u64>,
    off: usize,
    wrap: bool,
    width: i64,
    height: i64,
) -> (r: Result<Vec<Particle>, SimError>)
    requires
        1 <= kinds <= crate::settings::MAX_KINDS,
        count <= crate::settings::MAX_PARTICLES,
        off <= 300_000_000,
        0 < width <= FX_MAX,
        0 < height <= FX_MAX,
    ensures
        r is Ok <==> e.len() >= off + 27 * count,
        match r {
            Ok(ps) => {
                &&& ps.len() == count
                &&& particles_match(
                    ps@,
                    kinds as int,
                    e@,
                    off as int,
                    wrap,
                    width as int,
                    height as int,
                )
                &&& kinds_ok(ps@, kinds as int)
            },
            Err(SimError::InsufficientEntropy) => e.len() < off + 27 * count,
            Err(_) => false,
        },
{
    if e.len() < off || e.len() - off < 27 * count {
        return Err(SimError::InsufficientEntropy);
    }
    let mut out: Vec<Particle> = Vec::new();
    let mut p: usize = 0;
    while p < count
        invariant
            1 <= kinds <= crate::settings::MAX_KINDS,
            count <= crate::settings::MAX_PARTICLES,
            off <= 300_000_000,
            0 < width <= FX_MAX,
            0 < height <= FX_MAX,
            e.len() >= off + 27 * count,
            p <= count,
            out.len() == p,
            particles_match(out@, kinds as int, e@, off as int, wrap, width as int, height as int),
            kinds_ok(out@, kinds as int),
        decreases count - p,
    {
        let particle = generate_particle(kinds, e, off + 27 * p, wrap, width, height);
        out.push(particle);
        p = p + 1;
    }
    Ok(out)
}

/// Pass two for one particle, executed.
fn integrate_particle(wrap: bool, friction: i64, width: i64, height: i64, q: Particle) -> (r: Particle)
    requires
        0 <= friction <= SCALE,
        0 < width <= FX_MAX,
        0 < height <= FX_MAX,
    ensures
        r == spec_integrate_one(wrap, friction as int, width as int, height as int, q),
{
    let p = q;
    let x1 = fx_add(p.x, p.vx);
    let y1 = fx_add(p.y, p.vy);
    let vx1 = fx_mul(p.vx, SCALE - friction);
    let vy1 = fx_mul(p.vy, SCALE - friction);
    if wrap {
        let x2 = if x1 < 0 {
            fx_add(x1, width)
        } else if x1 >= width {
            fx_sub(x1, width)
        } else {
            x1
        };
        let y2 = if y1 < 0 {
            fx_add(y1, height)
        } else if y1 >= height {
            fx_sub(y1, height)
        } else {
            y1
        };
        Particle { x: x2, y: y2, vx: vx1, vy: vy1, kind: p.kind }
    } else {
        let hi_x = width - RADIUS;
        let hi_y = height - RADIUS;
        let (x2, vx2) = if x1 <= RADIUS {
            (RADIUS, fx_neg(vx1))
        } else if x1 >= hi_x {
            (hi_x, fx_neg(vx1))
        } else {
            (x1, vx1)
        };
        let (y2, vy2) = if y1 <= RADIUS {
            (RADIUS, fx_neg(vy1))
        } else if y1 >= hi_y {
            (hi_y, fx_neg(vy1))
        } else {
            (y1, vy1)
        };
        Particle { x: x2, y: y2, vx: vx2, vy: vy2, kind: p.kind }
    }
}

/// Law: force symmetry.  In the repulsion regime (distance below the
/// pair's repel distance) both particles of a pair receive exactly the same
/// magnitude.  In the attraction regime, each direction's magnitude is that
/// direction's attraction scaled by one shared taper coefficient (one, when
/// the flat-force flag is set).
pub proof fn lemma_force_symmetry(
    table: &ParticleKinds,
    flat_force: bool,
    ki: int,
    kj: int,
    dist: int,
)
    requires
        table.wf(),
        0 <= ki < table.kinds,
        0 <= kj < table.kinds,
        0 <= dist,
    ensures
        dist < table.spec_props(ki, kj).repel_distance ==> spec_force(
            *table,
            flat_force,
            ki,
            kj,
            dist,
        ) == spec_force(*table, flat_force, kj, ki, dist),
        dist >= table.spec_props(ki, kj).repel_distance ==> {
            let coefficient = if flat_force {
                SCALE as int
            } else {
                SimParams::spec_taper(
                    table.spec_props(ki, kj).repel_distance as int,
                    table.spec_props(ki, kj).influence_radius as int,
                    dist,
                )
            };
            spec_force(*table, flat_force, ki, kj, dist) == spec_mul(
                table.spec_attraction(ki, kj),
                coefficient,
            ) && spec_force(*table, flat_force, kj, ki, dist) == spec_mul(
                table.spec_attraction(kj, ki),
                coefficient,
            )
        },
{
    assert(table.spec_props(ki, kj) == table.spec_props(kj, ki));
    if dist >= table.spec_props(ki, kj).repel_distance && flat_force {
        assert(prop_ok(table.spec_props(ki, kj)));
        lemma_mul_by_one(table.spec_attraction(ki, kj));
        lemma_mul_by_one(table.spec_attraction(kj, ki));
    }
}

/// Law: wrap idempotence.  Stepped with wrap on, a particle's position is
/// adjusted by a multiple of the extent (and lands inside it whenever the
/// integrated position was within one extent of it), and its velocity is
/// never sign-flipped — only damped by friction.
pub proof fn lemma_wrap_never_reflects(friction: int, width: int, height: int, p: Particle)
    requires
        0 <= friction <= SCALE,
        0 < width <= FX_MAX,
        0 < height <= FX_MAX,
        -FX_MAX <= p.x + p.vx <= FX_MAX,
        -FX_MAX <= p.y + p.vy <= FX_MAX,
    ensures
        ({
            let r = spec_integrate_one(true, friction, width, height, p);
            &&& r.vx as int == spec_mul(p.vx as int, SCALE - friction)
            &&& r.vy as int == spec_mul(p.vy as int, SCALE - friction)
            &&& (r.x == p.x + p.vx || r.x == p.x + p.vx + width || r.x == p.x + p.vx - width)
            &&& (r.y == p.y + p.vy || r.y == p.y + p.vy + height || r.y == p.y + p.vy - height)
            &&& (-width <= p.x + p.vx < 2 * width ==> 0 <= r.x < width)
            &&& (-height <= p.y + p.vy < 2 * height ==> 0 <= r.y < height)
        }),
{
}

/// Law: reflection.  Stepped with wrap off, each axis flips the velocity
/// sign exactly once when the integrated position reaches a wall, and never
/// otherwise; the position is clamped to the wall on contact.
pub proof fn lemma_reflection(friction: int, width: int, height: int, p: Particle)
    requires
        0 <= friction <= SCALE,
        0 < width <= FX_MAX,
        0 < height <= FX_MAX,
        -FX_MAX <= p.x + p.vx <= FX_MAX,
        -FX_MAX <= p.y + p.vy <= FX_MAX,
    ensures
        ({
            let x1 = p.x + p.vx;
            let vx1 = spec_mul(p.vx as int, SCALE - friction);
            let r = spec_integrate_one(false, friction, width, height, p);
            &&& (x1 <= RADIUS ==> r.x == RADIUS && r.vx as int == spec_neg(vx1))
            &&& (x1 > RADIUS && x1 >= width - RADIUS ==> r.x == width - RADIUS && r.vx as int
                == spec_neg(vx1))
            &&& (RADIUS < x1 < width - RADIUS ==> r.x == x1 && r.vx as int == vx1)
        }),
        ({
            let y1 = p.y + p.vy;
            let vy1 = spec_mul(p.vy as int, SCALE - friction);
            let r = spec_integrate_one(false, friction, width, height, p);
            &&& (y1 <= RADIUS ==> r.y == RADIUS && r.vy as int == spec_neg(vy1))
            &&& (y1 > RADIUS && y1 >= height - RADIUS ==> r.y == height - RADIUS && r.vy as int
                == spec_neg(vy1))
            &&& (RADIUS < y1 < height - RADIUS ==> r.y == y1 && r.vy as int == vy1)
        }),
{
}

/// The population after `n` ticks.
pub open spec fn spec_run(params: SimParams, ps: Seq<Particle>, n: nat) -> Seq<Particle>
    decreases n,
{
    if n == 0 {
        ps
    } else {
        params.spec_step(spec_run(params, ps, (n - 1) as nat))
    }
}

/// Law: determinism.  The tick is a pure function of the configuration and
/// the population, so two runs from equal state stay equal for any number
/// of ticks; together with `Sim::step`'s contract (which pins the stored
/// population to `spec_step`), repeated runs from the same settings and the
/// same raw-word stream produce identical populations.
pub proof fn lemma_run_deterministic(
    a: SimParams,
    b: SimParams,
    ps: Seq<Particle>,
    qs: Seq<Particle>,
    n: nat,
)
    requires
        a == b,
        ps == qs,
    ensures
        spec_run(a, ps, n) == spec_run(b, qs, n),
{
}

/// Law: population generation is deterministic.  Two populations of the
/// same size that both match the same raw words agree on every particle.
pub proof fn lemma_population_deterministic(
    ps: Seq<Particle>,
    qs: Seq<Particle>,
    kinds: int,
    e: Seq<u64>,
    off: int,
    wrap: bool,
    width: int,
    height: int,
)
    requires
        ps.len() == qs.len(),
        particles_match(ps, kinds, e, off, wrap, width, height),
        particles_match(qs, kinds, e, off, wrap, width, height),
    ensures
        ps =~= qs,
{
    assert forall|m: int| 0 <= m < ps.len() implies ps[m] == qs[m] by {
        assert(ps[m] == spec_gen_particle(kinds, e, off + 27 * m, wrap, width, height));
        assert(qs[m] == spec_gen_particle(kinds, e, off + 27 * m, wrap, width, height));
    }
}

} // verus!
