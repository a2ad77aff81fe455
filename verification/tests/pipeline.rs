//! Exercises the round-tagged channel and the producer loop.

use particle_life::channel::{Command, Frame, StepChannel, BUF_SIZE};
use particle_life::producer::Producer;
use particle_life::rng::EntropySource;
use particle_life::settings::{Settings, SimError};
use particle_life::sim::{sim_entropy_amount, Particle};

fn frame(round: u64, tag: i64) -> Frame {
    Frame {
        round,
        particles: vec![Particle { x: tag, y: 0, vx: 0, vy: 0, kind: 0 }],
    }
}

#[test]
fn backpressure_never_exceeds_capacity() {
    let mut chan = StepChannel::with_capacity(10, 10);
    for n in 0..50u64 {
        let accepted = chan.push_frame(frame(0, n as i64));
        assert_eq!(accepted, n < 10);
        assert!(chan.frame_count() <= 10);
    }
    assert_eq!(chan.frame_count(), 10);
}

#[test]
fn frames_are_fifo_within_a_round() {
    let mut chan = StepChannel::new();
    assert!(chan.push_frame(frame(0, 1)));
    assert!(chan.push_frame(frame(0, 2)));
    assert!(chan.push_frame(frame(0, 3)));
    assert_eq!(chan.next_frame().unwrap().particles[0].x, 1);
    assert_eq!(chan.next_frame().unwrap().particles[0].x, 2);
    assert_eq!(chan.next_frame().unwrap().particles[0].x, 3);
    assert!(chan.next_frame().is_none());
}

#[test]
fn seed_invalidates_stale_frames() {
    let mut chan = StepChannel::new();
    assert!(chan.push_frame(frame(0, 1)));
    assert!(chan.push_frame(frame(0, 2)));
    // Reconfigure: the round bumps from 0 to 1 and the buffer clears.
    assert!(chan.send_command(Command::Seed(Settings::balanced())));
    assert_eq!(chan.round, 1);
    assert_eq!(chan.frame_count(), 0);
    // A slow producer still pushes frames of the old round; a fresh one
    // follows.  Only the fresh frame is ever delivered.
    assert!(chan.push_frame(frame(0, 3)));
    assert!(chan.push_frame(frame(1, 4)));
    let delivered = chan.next_frame().unwrap();
    assert_eq!(delivered.round, 1);
    assert_eq!(delivered.particles[0].x, 4);
    assert!(chan.next_frame().is_none());
}

#[test]
fn toggle_wrap_keeps_round_and_frames() {
    let mut chan = StepChannel::new();
    assert!(chan.push_frame(frame(0, 1)));
    assert!(chan.send_command(Command::ToggleWrap));
    assert_eq!(chan.round, 0);
    assert_eq!(chan.frame_count(), 1);
}

#[test]
fn resize_bumps_the_round() {
    let mut chan = StepChannel::new();
    assert!(chan.send_command(Command::Resize { width: 800_000_000, height: 600_000_000 }));
    assert_eq!(chan.round, 1);
    assert!(chan.send_command(Command::RandomizeParticles));
    assert_eq!(chan.round, 2);
}

#[test]
fn commands_are_fifo_and_bounded() {
    let mut chan = StepChannel::with_capacity(10, 2);
    assert!(chan.send_command(Command::ToggleWrap));
    assert!(chan.send_command(Command::Run(5)));
    assert!(!chan.send_command(Command::Run(6)));
    assert!(matches!(chan.next_command(), Some(Command::ToggleWrap)));
    assert!(matches!(chan.next_command(), Some(Command::Run(5))));
    assert!(chan.next_command().is_none());
}

#[test]
fn request_amount_matches_buffer_headroom() {
    let mut chan = StepChannel::new();
    assert_eq!(chan.request_amount(), BUF_SIZE);
    assert!(chan.push_frame(frame(0, 1)));
    assert!(chan.push_frame(frame(0, 2)));
    assert!(chan.push_frame(frame(0, 3)));
    assert_eq!(chan.request_amount(), BUF_SIZE - 3);
}

#[test]
fn producer_round_tracks_reconfiguration() {
    let settings = Settings::medium_clusters();
    let mut rng = EntropySource::from_seed(11);
    let entropy = rng.draw(sim_entropy_amount(&settings));
    let mut producer =
        Producer::new(&settings, 1_600_000_000, 900_000_000, &entropy).unwrap();
    assert_eq!(producer.round, 0);

    producer.tick();
    assert_eq!(producer.round, 0);

    let none: Vec<u64> = Vec::new();
    assert_eq!(producer.apply_command(&Command::ToggleWrap, &none), Ok(0));
    assert_eq!(producer.round, 0);
    assert!(producer.sim.wrap);

    let e2 = rng.draw(27 * producer.sim.particles.len());
    assert_eq!(producer.apply_command(&Command::RandomizeParticles, &e2), Ok(0));
    assert_eq!(producer.round, 1);

    let e3 = rng.draw(sim_entropy_amount(&settings));
    assert_eq!(producer.apply_command(&Command::Seed(settings), &e3), Ok(0));
    assert_eq!(producer.round, 2);
    // The wrap flag survives a reseed.
    assert!(producer.sim.wrap);

    assert_eq!(
        producer.apply_command(
            &Command::Resize { width: 800_000_000, height: 450_000_000 },
            &none,
        ),
        Ok(0)
    );
    assert_eq!(producer.round, 3);
    assert_eq!(producer.sim.width, 800_000_000);

    assert_eq!(producer.apply_command(&Command::Run(7), &none), Ok(7));
    assert_eq!(producer.round, 3);
}

#[test]
fn producer_rejects_bad_commands() {
    let settings = Settings::small_clusters();
    let mut rng = EntropySource::from_seed(13);
    let entropy = rng.draw(sim_entropy_amount(&settings));
    let mut producer =
        Producer::new(&settings, 1_600_000_000, 900_000_000, &entropy).unwrap();

    let none: Vec<u64> = Vec::new();
    assert_eq!(
        producer.apply_command(&Command::Resize { width: 0, height: 450_000_000 }, &none),
        Err(SimError::InvalidExtent)
    );

    let mut bad = Settings::balanced();
    bad.minr_lower = 30_000_000;
    bad.minr_upper = 20_000_000;
    assert_eq!(
        producer.apply_command(&Command::Seed(bad), &none),
        Err(SimError::InvalidDistribution)
    );

    assert_eq!(
        producer.apply_command(&Command::RandomizeParticles, &none),
        Err(SimError::InsufficientEntropy)
    );
    assert_eq!(producer.round, 0);
}

#[test]
fn frames_carry_the_producer_round() {
    let settings = Settings::homogeneity();
    let mut rng = EntropySource::from_seed(17);
    let entropy = rng.draw(sim_entropy_amount(&settings));
    let mut producer =
        Producer::new(&settings, 1_600_000_000, 900_000_000, &entropy).unwrap();
    producer.tick();
    let f = producer.make_frame();
    assert_eq!(f.round, 0);
    assert_eq!(f.particles.len(), producer.sim.particles.len());

    let e2 = rng.draw(27 * producer.sim.particles.len());
    producer.apply_command(&Command::RandomizeParticles, &e2).unwrap();
    let f2 = producer.make_frame();
    assert_eq!(f2.round, 1);
}
