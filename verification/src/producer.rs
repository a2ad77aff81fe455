//! The simulation producer: the decision core of the tick loop.
//!
//! A producer owns the simulation and the current round.  The surrounding
//! loop (a thread or an isolated worker, outside this library) repeatedly
//! runs `tick`, hands `make_frame` to the channel, and feeds every pending
//! command to `apply_command` together with fresh raw random words.  The
//! round is bumped exactly by the commands that invalidate previously
//! computed particle state: `Seed`, `RandomizeParticles` and `Resize` (the
//! resize changes the coordinate space, so stale frames would render at the
//! wrong scale).

use vstd::prelude::*;
use crate::channel::Command;
use crate::channel::Frame;
use crate::fx::FX_MAX;
use crate::kinds::table_matches;
use crate::settings::Settings;
use crate::settings::SimError;
use crate::sim::Sim;
use crate::sim::particles_match;
use crate::sim::sim_entropy;

verus! {

/// The simulation together with its round counter.
pub struct Producer {
    pub sim: Sim,
    pub round: u64,
}

impl Producer {
    pub open spec fn wf(&self) -> bool {
        self.sim.wf()
    }

    /// A fresh producer at round zero.
    pub fn new(s: &Settings, width: i64, height: i64, e: &Vec<u64>) -> (r: Result<
        Producer,
        SimError,
    >)
        requires
            s.ranges_ok(),
            0 < width <= FX_MAX,
            0 < height <= FX_MAX,
        ensures
            r is Ok <==> (s.counts_ok() && e.len() >= sim_entropy(
                s.kinds as int,
                s.particles as int,
            )),
            match r {
                Ok(p) => p.wf() && p.round == 0 && table_matches(p.sim.table, *s, e@)
                    && p.sim.particles.len() == s.particles,
                Err(SimError::InvalidKindCount) => s.kinds == 0,
                Err(SimError::TooManyKinds) => s.kinds > crate::settings::MAX_KINDS,
                Err(SimError::TooManyParticles) => 1 <= s.kinds <= crate::settings::MAX_KINDS
                    && e.len() >= crate::kinds::table_entropy(s.kinds as int) && s.particles
                    > crate::settings::MAX_PARTICLES,
                Err(SimError::InsufficientEntropy) => 1 <= s.kinds <= crate::settings::MAX_KINDS
                    && e.len() < sim_entropy(s.kinds as int, s.particles as int),
                Err(_) => false,
            },
    {
        let sim = match Sim::new(s, width, height, e) {
            Ok(sim) => sim,
            Err(err) => {
                return Err(err);
            },
        };
        Ok(Producer { sim, round: 0 })
    }

    /// Advance the simulation one tick; the round is untouched.
    pub fn tick(&mut self)
        requires
            old(self).wf(),
        ensures
            final(self).wf(),
            final(self).round == old(self).round,
            final(self).sim.particles@ == old(self).sim.params().spec_step(
                old(self).sim.particles@,
            ),
            final(self).sim.table == old(self).sim.table,
            final(self).sim.wrap == old(self).sim.wrap,
    {
        self.sim.step();
    }

    /// A frame tagged with the current round, carrying a snapshot of the
    /// population.
    pub fn make_frame(&self) -> (r: Frame)
        ensures
            r.round == self.round,
            r.particles@ == self.sim.particles@,
    {
        Frame { round: self.round, particles: self.sim.snapshot() }
    }

    /// Apply one command from the consumer.  Returns the number of extra
    /// ticks requested (non-zero only for `Run`).  Reconfiguration commands
    /// bump the round exactly when they invalidate computed state; on any
    /// error the producer is untouched.
    pub fn apply_command(&mut self, cmd: &Command, e: &Vec<u64>) -> (r: Result<usize, SimError>)
        requires
            old(self).wf(),
            old(self).round < u64::MAX,
        ensures
            final(self).wf(),
            match r {
                Ok(extra) => match *cmd {
                    Command::Resize { width, height } => {
                        &&& 0 < width <= FX_MAX && 0 < height <= FX_MAX
                        &&& extra == 0
                        &&& final(self).round == old(self).round + 1
                        &&& final(self).sim.width == width && final(self).sim.height == height
                        &&& final(self).sim.wrap == old(self).sim.wrap
                        &&& final(self).sim.table == old(self).sim.table
                        &&& final(self).sim.particles.len() == old(self).sim.particles.len()
                    },
                    Command::Seed(s) => {
                        &&& s.ranges_ok() && s.counts_ok()
                        &&& e.len() >= sim_entropy(s.kinds as int, s.particles as int)
                        &&& extra == 0
                        &&& final(self).round == old(self).round + 1
                        &&& table_matches(final(self).sim.table, s, e@)
                        &&& final(self).sim.particles.len() == s.particles
                        &&& final(self).sim.wrap == old(self).sim.wrap
                        &&& final(self).sim.width == old(self).sim.width
                        &&& final(self).sim.height == old(self).sim.height
                    },
                    Command::ToggleWrap => {
                        &&& extra == 0
                        &&& final(self).round == old(self).round
                        &&& final(self).sim.wrap == !old(self).sim.wrap
                        &&& final(self).sim.particles@ == old(self).sim.particles@
                    },
                    Command::RandomizeParticles => {
                        &&& e.len() >= 27 * old(self).sim.particles.len()
                        &&& extra == 0
                        &&& final(self).round == old(self).round + 1
                        &&& final(self).sim.table == old(self).sim.table
                        &&& final(self).sim.particles.len() == old(self).sim.particles.len()
                        &&& particles_match(
                            final(self).sim.particles@,
                            old(self).sim.table.kinds as int,
                            e@,
                            0,
                            old(self).sim.wrap,
                            old(self).sim.width as int,
                            old(self).sim.height as int,
                        )
                    },
                    Command::Run(n) => extra == n && *final(self) == *old(self),
                },
                Err(err) => {
                    &&& *final(self) == *old(self)
                    &&& match *cmd {
                        Command::Resize { width, height } => err == SimError::InvalidExtent && !(0
                            < width <= FX_MAX && 0 < height <= FX_MAX),
                        Command::Seed(s) => if !s.ranges_ok() {
                            err == SimError::InvalidDistribution
                        } else {
                            match err {
                                SimError::InvalidKindCount => s.kinds == 0,
                                SimError::TooManyKinds => s.kinds > crate::settings::MAX_KINDS,
                                SimError::TooManyParticles => 1 <= s.kinds
                                    <= crate::settings::MAX_KINDS && e.len()
                                    >= crate::kinds::table_entropy(s.kinds as int) && s.particles
                                    > crate::settings::MAX_PARTICLES,
                                SimError::InsufficientEntropy => 1 <= s.kinds
                                    <= crate::settings::MAX_KINDS && e.len() < sim_entropy(
                                    s.kinds as int,
                                    s.particles as int,
                                ),
                                _ => false,
                            }
                        },
                        Command::ToggleWrap => false,
                        Command::RandomizeParticles => err == SimError::InsufficientEntropy
                            && e.len() < 27 * old(self).sim.particles.len(),
                        Command::Run(_) => false,
                    }
                },
            },
    {
        match cmd {
            Command::Resize { width, height } => {
                let w = *width;
                let h = *height;
                if !(0 < w && w <= FX_MAX && 0 < h && h <= FX_MAX) {
                    return Err(SimError::InvalidExtent);
                }
                self.sim.resize(w, h);
                self.round = self.round + 1;
                Ok(0)
            },
            Command::Seed(s) => {
                if !s.check_ranges() {
                    return Err(SimError::InvalidDistribution);
                }
                match self.sim.seed(s, e) {
                    Ok(()) => {
                        self.round = self.round + 1;
                        Ok(0)
                    },
                    Err(err) => Err(err),
                }
            },
            Command::ToggleWrap => {
                self.sim.toggle_wrap();
                Ok(0)
            },
            Command::RandomizeParticles => {
                match self.sim.randomize_particles(e) {
                    Ok(()) => {
                        self.round = self.round + 1;
                        Ok(0)
                    },
                    Err(err) => Err(err),
                }
            },
            Command::Run(n) => Ok(*n),
        }
    }
}

} // verus!
