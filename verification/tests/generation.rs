//! Exercises table and population generation with a seeded generator.

use particle_life::kinds::ParticleKinds;
use particle_life::rng::EntropySource;
use particle_life::settings::{Settings, SimError, MAX_KINDS};
use particle_life::sim::{sim_entropy_amount, Sim, DIAMETER};

#[test]
fn presets_have_expected_counts() {
    assert_eq!(Settings::balanced().kinds, 9);
    assert_eq!(Settings::balanced().particles, 400);
    assert_eq!(Settings::chaos().kinds, 6);
    assert_eq!(Settings::diversity().kinds, 12);
    assert!(Settings::diversity().flat_force);
    assert_eq!(Settings::frictionless().friction, 0);
    assert!(Settings::gliders().flat_force);
    assert_eq!(Settings::homogeneity().kinds, 4);
    assert_eq!(Settings::large_clusters().friction, 200_000);
    assert_eq!(Settings::medium_clusters().particles, 400);
    assert_eq!(Settings::quiescence().particles, 300);
    assert_eq!(Settings::small_clusters().particles, 600);
}

fn preset_list() -> Vec<Settings> {
    vec![
        Settings::balanced(),
        Settings::chaos(),
        Settings::diversity(),
        Settings::frictionless(),
        Settings::gliders(),
        Settings::homogeneity(),
        Settings::large_clusters(),
        Settings::medium_clusters(),
        Settings::quiescence(),
        Settings::small_clusters(),
    ]
}

#[test]
fn every_preset_table_satisfies_the_pair_invariants() {
    for (seed, settings) in preset_list().into_iter().enumerate() {
        let mut rng = EntropySource::from_seed(seed as u64);
        let entropy = rng.draw(sim_entropy_amount(&settings));
        let table = ParticleKinds::random(&settings, &entropy).unwrap();
        let k = table.kinds;
        assert_eq!(k, settings.kinds);
        assert_eq!(table.colors.len(), k);
        assert_eq!(table.attractions.len(), k * k);
        assert_eq!(table.symmetric_properties.len(), k * (k + 1) / 2);
        for i in 0..k {
            // Diagonal: self-repulsion and an exact diameter repel distance.
            assert!(table.attractions[i * k + i] <= 0);
            let diag = table.symmetric_properties[i * (i + 1) / 2 + i];
            assert_eq!(diag.repel_distance, DIAMETER);
            for j in 0..=i {
                let props = table.symmetric_properties[i * (i + 1) / 2 + j];
                assert!(props.repel_distance >= 0);
                assert!(props.influence_radius >= props.repel_distance);
            }
        }
    }
}

#[test]
fn generation_is_deterministic() {
    let settings = Settings::balanced();
    let mut rng1 = EntropySource::from_seed(7);
    let mut rng2 = EntropySource::from_seed(7);
    let e1 = rng1.draw(sim_entropy_amount(&settings));
    let e2 = rng2.draw(sim_entropy_amount(&settings));
    assert_eq!(e1, e2);
    let t1 = ParticleKinds::random(&settings, &e1).unwrap();
    let t2 = ParticleKinds::random(&settings, &e2).unwrap();
    assert_eq!(t1.attractions, t2.attractions);
    assert_eq!(t1.symmetric_properties.len(), t2.symmetric_properties.len());
    for (a, b) in t1.symmetric_properties.iter().zip(t2.symmetric_properties.iter()) {
        assert_eq!(a.repel_distance, b.repel_distance);
        assert_eq!(a.influence_radius, b.influence_radius);
    }
}

#[test]
fn zero_kinds_is_rejected() {
    let mut settings = Settings::balanced();
    settings.kinds = 0;
    let entropy: Vec<u64> = Vec::new();
    let r = ParticleKinds::random(&settings, &entropy);
    assert!(matches!(r, Err(SimError::InvalidKindCount)));
}

#[test]
fn too_many_kinds_is_rejected() {
    let mut settings = Settings::balanced();
    settings.kinds = MAX_KINDS + 1;
    let entropy: Vec<u64> = Vec::new();
    let r = ParticleKinds::random(&settings, &entropy);
    assert!(matches!(r, Err(SimError::TooManyKinds)));
}

#[test]
fn short_entropy_is_rejected() {
    let settings = Settings::balanced();
    let entropy: Vec<u64> = vec![0; 10];
    let r = ParticleKinds::random(&settings, &entropy);
    assert!(matches!(r, Err(SimError::InsufficientEntropy)));
}

#[test]
fn too_many_particles_is_rejected() {
    let mut settings = Settings::balanced();
    settings.particles = 1_000_001;
    let mut rng = EntropySource::from_seed(1);
    let entropy = rng.draw(
        particle_life::kinds::table_entropy_amount(settings.kinds),
    );
    let r = Sim::new(&settings, 1_600_000_000, 900_000_000, &entropy);
    assert!(matches!(r, Err(SimError::TooManyParticles)));
}

#[test]
fn new_simulation_respects_the_settings() {
    let settings = Settings::balanced();
    let mut rng = EntropySource::from_seed(3);
    let entropy = rng.draw(sim_entropy_amount(&settings));
    let sim = Sim::new(&settings, 1_600_000_000, 900_000_000, &entropy).unwrap();
    assert_eq!(sim.particles.len(), 400);
    assert!(!sim.wrap);
    assert_eq!(sim.friction, 50_000);
    assert_eq!(sim.width, 1_600_000_000);
    for p in sim.particles.iter() {
        assert!(p.kind < 9);
        // Wrap is off, so positions start inside the central half.
        assert!(p.x >= 400_000_000 && p.x <= 1_200_000_000);
        assert!(p.y >= 225_000_000 && p.y <= 675_000_000);
    }
}

#[test]
fn colors_are_evenly_spaced_hues() {
    let settings = Settings::homogeneity();
    let mut rng = EntropySource::from_seed(5);
    let entropy = rng.draw(sim_entropy_amount(&settings));
    let table = ParticleKinds::random(&settings, &entropy).unwrap();
    // Four kinds: hues 90 degrees apart, brightness alternating.
    assert_eq!(table.colors.len(), 4);
    for (i, c) in table.colors.iter().enumerate() {
        assert_eq!(c.hue, 90_000_000 * i as i64);
        assert_eq!(c.saturation, 1_000_000);
        assert_eq!(c.value, if i % 2 == 0 { 500_000 } else { 1_000_000 });
    }
}
