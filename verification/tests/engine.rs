//! Exercises the force engine on hand-computed fixed-point scenarios.

use particle_life::kinds::{Color, PairProps, ParticleKinds};
use particle_life::sim::{Particle, Sim, DIAMETER, RADIUS};
use particle_life::SCALE;

fn one_kind_table(attraction: i64, repel: i64, influence: i64) -> ParticleKinds {
    ParticleKinds {
        kinds: 1,
        colors: vec![Color { hue: 0, saturation: SCALE, value: 500_000 }],
        attractions: vec![attraction],
        symmetric_properties: vec![PairProps {
            repel_distance: repel,
            influence_radius: influence,
        }],
    }
}

fn two_kind_table(a01: i64, a10: i64, repel: i64, influence: i64) -> ParticleKinds {
    ParticleKinds {
        kinds: 2,
        colors: vec![
            Color { hue: 0, saturation: SCALE, value: 500_000 },
            Color { hue: 180_000_000, saturation: SCALE, value: SCALE },
        ],
        // attraction(i, j) sits at i * kinds + j
        attractions: vec![-10_000, a01, a10, -10_000],
        // triangular: (0,0), (1,0), (1,1)
        symmetric_properties: vec![
            PairProps { repel_distance: DIAMETER, influence_radius: influence },
            PairProps { repel_distance: repel, influence_radius: influence },
            PairProps { repel_distance: DIAMETER, influence_radius: influence },
        ],
    }
}

fn sim_with(
    table: ParticleKinds,
    particles: Vec<Particle>,
    wrap: bool,
    flat_force: bool,
    friction: i64,
) -> Sim {
    Sim {
        wrap,
        flat_force,
        friction,
        width: 1_600_000_000,
        height: 900_000_000,
        table,
        particles,
    }
}

#[test]
fn single_particle_integrates_and_damps() {
    // No pair, so only pass two runs: position moves by the velocity, then
    // the velocity is damped by (1 - friction).
    let table = one_kind_table(-10_000, DIAMETER, 20_000_000);
    let p = Particle { x: 100_000_000, y: 200_000_000, vx: 1_000_000, vy: -3_000_000, kind: 0 };
    let mut sim = sim_with(table, vec![p], false, false, 50_000);
    sim.step();
    let q = sim.particles[0];
    assert_eq!(q.x, 101_000_000);
    assert_eq!(q.y, 197_000_000);
    assert_eq!(q.vx, 950_000);
    assert_eq!(q.vy, -2_850_000);
    assert_eq!(q.kind, 0);
}

#[test]
fn repulsion_is_symmetric() {
    // Two particles of one kind, five units apart, inside the ten-unit
    // repel distance: both receive the same magnitude, opposite directions.
    let table = one_kind_table(-10_000, 10_000_000, 20_000_000);
    let p1 = Particle { x: 100_000_000, y: 100_000_000, vx: 0, vy: 0, kind: 0 };
    let p2 = Particle { x: 105_000_000, y: 100_000_000, vx: 0, vy: 0, kind: 0 };
    let mut sim = sim_with(table, vec![p1, p2], false, false, 0);
    sim.step();
    let q1 = sim.particles[0];
    let q2 = sim.particles[1];
    // Hand-computed smoothed repulsion magnitude at distance five.
    assert_eq!(q1.vx, -1_190_480);
    assert_eq!(q2.vx, 1_190_480);
    assert_eq!(q1.vy, 0);
    assert_eq!(q2.vy, 0);
    assert_eq!(q1.x, 100_000_000 - 1_190_480);
    assert_eq!(q2.x, 105_000_000 + 1_190_480);
}

#[test]
fn attraction_is_asymmetric_at_peak() {
    // Twenty units apart with repel 10 and influence 30: that is the taper
    // peak, so each side receives exactly its own attraction.
    let table = two_kind_table(20_000, -40_000, 10_000_000, 30_000_000);
    let p1 = Particle { x: 100_000_000, y: 100_000_000, vx: 0, vy: 0, kind: 0 };
    let p2 = Particle { x: 120_000_000, y: 100_000_000, vx: 0, vy: 0, kind: 1 };
    let mut sim = sim_with(table, vec![p1, p2], false, false, 0);
    sim.step();
    // f1 = attraction(0,1) toward p2; f2 = attraction(1,0), applied along
    // the opposite direction.
    assert_eq!(sim.particles[0].vx, 20_000);
    assert_eq!(sim.particles[1].vx, 40_000);
}

#[test]
fn taper_halves_force_midway_down_the_band() {
    // Twenty-five units apart: halfway between the peak (20) and the edge
    // (30), so the taper coefficient is exactly one half.
    let table = two_kind_table(20_000, -40_000, 10_000_000, 30_000_000);
    let p1 = Particle { x: 100_000_000, y: 100_000_000, vx: 0, vy: 0, kind: 0 };
    let p2 = Particle { x: 125_000_000, y: 100_000_000, vx: 0, vy: 0, kind: 1 };
    let mut sim = sim_with(table, vec![p1, p2], false, false, 0);
    sim.step();
    assert_eq!(sim.particles[0].vx, 10_000);
    assert_eq!(sim.particles[1].vx, 20_000);
}

#[test]
fn flat_force_skips_the_taper() {
    let table = two_kind_table(20_000, -40_000, 10_000_000, 30_000_000);
    let p1 = Particle { x: 100_000_000, y: 100_000_000, vx: 0, vy: 0, kind: 0 };
    let p2 = Particle { x: 125_000_000, y: 100_000_000, vx: 0, vy: 0, kind: 1 };
    let mut sim = sim_with(table, vec![p1, p2], false, true, 0);
    sim.step();
    assert_eq!(sim.particles[0].vx, 20_000);
    assert_eq!(sim.particles[1].vx, 40_000);
}

#[test]
fn out_of_influence_pairs_exert_no_force() {
    let table = one_kind_table(-10_000, DIAMETER, 20_000_000);
    let p1 = Particle { x: 100_000_000, y: 100_000_000, vx: 0, vy: 0, kind: 0 };
    let p2 = Particle { x: 200_000_000, y: 100_000_000, vx: 0, vy: 0, kind: 0 };
    let mut sim = sim_with(table, vec![p1, p2], false, false, 0);
    sim.step();
    assert_eq!(sim.particles[0].vx, 0);
    assert_eq!(sim.particles[1].vx, 0);
}

#[test]
fn reflection_flips_velocity_exactly_once() {
    // Approaching the left wall: the position clamps to the radius and the
    // (damped) velocity component flips sign exactly once.
    let table = one_kind_table(-10_000, DIAMETER, 20_000_000);
    let p = Particle { x: RADIUS, y: 100_000_000, vx: -2_000_000, vy: 0, kind: 0 };
    let mut sim = sim_with(table, vec![p], false, false, 50_000);
    sim.step();
    let q = sim.particles[0];
    assert_eq!(q.x, RADIUS);
    assert_eq!(q.vx, 1_900_000);
    assert_eq!(q.vy, 0);
}

#[test]
fn wrap_moves_position_modulo_extent_without_flipping() {
    // Exactly on the wrap boundary, moving outward: the position comes back
    // in from the far side and the velocity keeps its sign (only damped).
    let table = one_kind_table(-10_000, DIAMETER, 20_000_000);
    let p = Particle { x: 0, y: 100_000_000, vx: -1_000_000, vy: 0, kind: 0 };
    let mut sim = sim_with(table, vec![p], true, false, 50_000);
    sim.step();
    let q = sim.particles[0];
    assert_eq!(q.x, 1_600_000_000 - 1_000_000);
    assert_eq!(q.vx, -950_000);
}

#[test]
fn resize_scales_positions() {
    let table = one_kind_table(-10_000, DIAMETER, 20_000_000);
    let p = Particle { x: 800_000_000, y: 450_000_000, vx: 123, vy: -456, kind: 0 };
    let mut sim = sim_with(table, vec![p], false, false, 0);
    sim.resize(3_200_000_000, 450_000_000);
    let q = sim.particles[0];
    assert_eq!(q.x, 1_600_000_000);
    assert_eq!(q.y, 225_000_000);
    assert_eq!(q.vx, 123);
    assert_eq!(q.vy, -456);
    assert_eq!(sim.width, 3_200_000_000);
    assert_eq!(sim.height, 450_000_000);
}

#[test]
fn toggle_wrap_flips_only_the_flag() {
    let table = one_kind_table(-10_000, DIAMETER, 20_000_000);
    let mut sim = sim_with(table, vec![], false, false, 0);
    sim.toggle_wrap();
    assert!(sim.wrap);
    sim.toggle_wrap();
    assert!(!sim.wrap);
}

#[test]
fn empty_population_steps_to_empty() {
    let table = one_kind_table(-10_000, DIAMETER, 20_000_000);
    let mut sim = sim_with(table, vec![], false, false, 50_000);
    sim.step();
    assert_eq!(sim.particles.len(), 0);
}
