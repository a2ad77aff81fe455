//! Determinism: the balanced preset, a fixed seed, a 1600x900 extent and one
//! hundred ticks produce the identical final population on repeated runs.

use particle_life::rng::EntropySource;
use particle_life::settings::Settings;
use particle_life::sim::{sim_entropy_amount, Sim};

fn run_once(seed: u64, ticks: usize) -> Sim {
    let settings = Settings::balanced();
    let mut rng = EntropySource::from_seed(seed);
    let entropy = rng.draw(sim_entropy_amount(&settings));
    let mut sim = Sim::new(&settings, 1_600_000_000, 900_000_000, &entropy).unwrap();
    for _ in 0..ticks {
        sim.step();
    }
    sim
}

#[test]
fn repeated_runs_are_identical() {
    let a = run_once(42, 100);
    let b = run_once(42, 100);
    assert_eq!(a.particles.len(), 400);
    assert_eq!(a.particles.len(), b.particles.len());
    for (p, q) in a.particles.iter().zip(b.particles.iter()) {
        assert_eq!(p, q);
    }
}
