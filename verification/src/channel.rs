//! The bounded, round-tagged pipe between producer and consumer.
//!
//! Frames flow one way, commands the other, each through a bounded FIFO.
//! Every frame carries the round it was computed in.  A reconfiguration
//! command (seed, randomize, resize) bumps the channel's round and clears
//! buffered frames, so a frame computed before the reconfiguration is never
//! delivered: the consumer-side `next_frame` skips every frame whose round
//! differs from the current one.  The bounded frame buffer is the
//! backpressure mechanism: a full buffer refuses further frames.

use vstd::prelude::*;
use crate::settings::Settings;
use crate::sim::Particle;

verus! {

/// Default capacity of both directions of the pipe.
pub const BUF_SIZE: usize = 10;

/// One tagged snapshot of the population.
pub struct Frame {
    pub round: u64,
    pub particles: Vec<Particle>,
}

/// A reconfiguration or pacing request from the consumer.
#[derive(Clone, Copy, Debug, PartialEq, Eq, Structural)]
pub enum Command {
    /// Change the world extent (this bumps the round: stale frames would
    /// show positions in the old coordinate space).
    Resize { width: i64, height: i64 },
    /// Replace table and population from new settings.
    Seed(Settings),
    /// Flip the boundary topology.
    ToggleWrap,
    /// Re-sample the population.
    RandomizeParticles,
    /// Ask the producer for a number of additional ticks (pull-based
    /// pacing).
    Run(usize),
}

/// Whether a command invalidates the particle state computed before it.
pub open spec fn spec_is_reset(cmd: Command) -> bool {
    match cmd {
        Command::Seed(_) => true,
        Command::RandomizeParticles => true,
        Command::Resize { .. } => true,
        Command::ToggleWrap => false,
        Command::Run(_) => false,
    }
}

/// Index of the first frame of `s` tagged with round `r`, or `s.len()` if
/// there is none.
pub open spec fn first_fresh(s: Seq<Frame>, r: u64) -> int
    decreases s.len(),
{
    if s.len() == 0 {
        0
    } else if s[0].round == r {
        0
    } else {
        1 + first_fresh(s.skip(1), r)
    }
}

/// `first_fresh` points at the first matching frame: everything before it
/// is stale, and the index is `s.len()` exactly when no frame matches.
pub proof fn lemma_first_fresh(s: Seq<Frame>, r: u64)
    ensures
        0 <= first_fresh(s, r) <= s.len(),
        first_fresh(s, r) < s.len() ==> s[first_fresh(s, r)].round == r,
        forall|m: int| 0 <= m < first_fresh(s, r) ==> (#[trigger] s[m]).round != r,
    decreases s.len(),
{
    if s.len() == 0 {
    } else if s[0].round == r {
    } else {
        lemma_first_fresh(s.skip(1), r);
        let ff = first_fresh(s, r);
        assert forall|m: int| 0 <= m < ff implies (#[trigger] s[m]).round != r by {
            if m > 0 {
                assert(s.skip(1)[m - 1] == s[m]);
            }
        }
        if ff < s.len() {
            assert(s.skip(1)[ff - 1] == s[ff]);
        }
    }
}

/// The bounded, bidirectional, round-tagged pipe.
///
/// The round bump policy: `Seed`, `RandomizeParticles` and `Resize` all bump
/// the round, so a resize also invalidates in-flight frames.
pub struct StepChannel {
    /// Bumped on every reset command; frames from other rounds are stale.
    pub round: u64,
    pub frames: Vec<Frame>,
    pub commands: Vec<Command>,
    pub frame_capacity: usize,
    pub command_capacity: usize,
}

impl StepChannel {
    /// Frames buffered right now (never above the frame capacity).
    pub open spec fn spec_frames(&self) -> Seq<Frame> {
        self.frames@
    }

    /// Commands buffered right now (never above the command capacity).
    pub open spec fn spec_commands(&self) -> Seq<Command> {
        self.commands@
    }

    pub open spec fn spec_frame_capacity(&self) -> int {
        self.frame_capacity as int
    }

    pub open spec fn spec_command_capacity(&self) -> int {
        self.command_capacity as int
    }

    /// The buffers never outgrow their capacities.
    pub open spec fn wf(&self) -> bool {
        &&& 1 <= self.frame_capacity
        &&& 1 <= self.command_capacity
        &&& self.frames.len() <= self.frame_capacity
        &&& self.commands.len() <= self.command_capacity
    }

    /// A fresh pipe with the default capacities.
    pub fn new() -> (r: StepChannel)
        ensures
            r.wf(),
            r.round == 0,
            r.spec_frames().len() == 0,
            r.spec_commands().len() == 0,
            r.spec_frame_capacity() == BUF_SIZE,
            r.spec_command_capacity() == BUF_SIZE,
    {
        StepChannel {
            round: 0,
            frames: Vec::new(),
            commands: Vec::new(),
            frame_capacity: BUF_SIZE,
            command_capacity: BUF_SIZE,
        }
    }

    /// A fresh pipe with chosen capacities.
    pub fn with_capacity(frame_capacity: usize, command_capacity: usize) -> (r: StepChannel)
        requires
            1 <= frame_capacity,
            1 <= command_capacity,
        ensures
            r.wf(),
            r.round == 0,
            r.spec_frames().len() == 0,
            r.spec_commands().len() == 0,
            r.spec_frame_capacity() == frame_capacity,
            r.spec_command_capacity() == command_capacity,
    {
        StepChannel {
            round: 0,
            frames: Vec::new(),
            commands: Vec::new(),
            frame_capacity,
            command_capacity,
        }
    }

    /// Number of frames buffered.
    pub fn frame_count(&self) -> (r: usize)
        ensures
            r == self.spec_frames().len(),
    {
        self.frames.len()
    }

    /// How many ticks to request so the buffer would just be refilled:
    /// pull-based pacing for a consumer that batches its requests.
    pub fn request_amount(&self) -> (r: usize)
        requires
            self.wf(),
        ensures
            r == self.spec_frame_capacity() - self.spec_frames().len(),
            r <= self.spec_frame_capacity(),
    {
        self.frame_capacity - self.frames.len()
    }

    /// Producer side: offer a frame.  A full buffer refuses it — this is
    /// the backpressure bound.
    pub fn push_frame(&mut self, frame: Frame) -> (ok: bool)
        requires
            old(self).wf(),
        ensures
            final(self).wf(),
            ok == (old(self).spec_frames().len() < old(self).spec_frame_capacity()),
            final(self).round == old(self).round,
            final(self).spec_commands() == old(self).spec_commands(),
            final(self).spec_frame_capacity() == old(self).spec_frame_capacity(),
            final(self).spec_command_capacity() == old(self).spec_command_capacity(),
            ok ==> final(self).spec_frames() == old(self).spec_frames().push(frame),
            !ok ==> final(self).spec_frames() == old(self).spec_frames(),
            final(self).spec_frames().len() <= final(self).spec_frame_capacity(),
    {
        if self.frames.len() < self.frame_capacity {
            self.frames.push(frame);
            true
        } else {
            false
        }
    }

    /// Consumer side: take the next fresh frame, discarding every buffered
    /// stale frame before it.  A delivered frame always carries the
    /// current round.
    pub fn next_frame(&mut self) -> (r: Option<Frame>)
        requires
            old(self).wf(),
        ensures
            final(self).wf(),
            final(self).round == old(self).round,
            final(self).spec_commands() == old(self).spec_commands(),
            final(self).spec_frame_capacity() == old(self).spec_frame_capacity(),
            final(self).spec_command_capacity() == old(self).spec_command_capacity(),
            ({
                let ff = first_fresh(old(self).spec_frames(), old(self).round);
                match r {
                    Some(f) => {
                        &&& f.round == old(self).round
                        &&& ff < old(self).spec_frames().len()
                        &&& f == old(self).spec_frames()[ff]
                        &&& final(self).spec_frames() == old(self).spec_frames().skip(ff + 1)
                    },
                    None => {
                        &&& ff == old(self).spec_frames().len()
                        &&& final(self).spec_frames().len() == 0
                    },
                }
            }),
    {
        proof {
            lemma_first_fresh(old(self).spec_frames(), old(self).round);
        }
        let ghost start = self.frames@;
        let ghost rnd = self.round;
        let total = self.frames.len();
        let mut dropped: usize = 0;
        loop
            invariant
                self.wf(),
                start.len() == total,
                self.round == rnd,
                self.round == old(self).round,
                self.commands@ == old(self).commands@,
                self.frame_capacity == old(self).frame_capacity,
                self.command_capacity == old(self).command_capacity,
                start == old(self).frames@,
                dropped <= start.len(),
                self.frames@ == start.skip(dropped as int),
                forall|m: int| 0 <= m < dropped ==> (#[trigger] start[m]).round != rnd,
            decreases self.frames.len(),
        {
            if self.frames.len() == 0 {
                proof {
                    lemma_first_fresh_skip(start, rnd, dropped as int);
                }
                return None;
            }
            let f = self.frames.remove(0);
            if f.round == self.round {
                proof {
                    lemma_first_fresh_skip(start, rnd, dropped as int);
                    assert(start.skip(dropped as int)[0] == start[dropped as int]);
                    assert(first_fresh(start, rnd) == dropped as int);
                    assert(self.frames@ =~= start.skip(dropped as int + 1));
                }
                return Some(f);
            }
            proof {
                assert(start.skip(dropped as int).len() > 0);
                assert(dropped < start.len());
                assert(start.skip(dropped as int)[0] == start[dropped as int]);
                assert(self.frames@ =~= start.skip(dropped as int).skip(1));
                lemma_skip_skip(start, dropped as int, 1);
            }
            dropped = dropped + 1;
        }
    }

    /// Consumer side: send a command.  A full command buffer refuses it.
    /// A reset command bumps the round and clears the frame buffer, so
    /// frames computed before it can never be delivered.
    pub fn send_command(&mut self, cmd: Command) -> (ok: bool)
        requires
            old(self).wf(),
            old(self).round < u64::MAX,
        ensures
            final(self).wf(),
            ok == (old(self).spec_commands().len() < old(self).spec_command_capacity()),
            final(self).spec_frame_capacity() == old(self).spec_frame_capacity(),
            final(self).spec_command_capacity() == old(self).spec_command_capacity(),
            ok ==> final(self).spec_commands() == old(self).spec_commands().push(cmd),
            !ok ==> (final(self).spec_commands() == old(self).spec_commands()
                && final(self).round == old(self).round
                && final(self).spec_frames() == old(self).spec_frames()),
            (ok && spec_is_reset(cmd)) ==> (final(self).round == old(self).round + 1
                && final(self).spec_frames().len() == 0),
            (ok && !spec_is_reset(cmd)) ==> (final(self).round == old(self).round
                && final(self).spec_frames() == old(self).spec_frames()),
    {
        if self.commands.len() >= self.command_capacity {
            return false;
        }
        let reset = match cmd {
            Command::Seed(_) => true,
            Command::RandomizeParticles => true,
            Command::Resize { .. } => true,
            Command::ToggleWrap => false,
            Command::Run(_) => false,
        };
        if reset {
            self.round = self.round + 1;
            self.frames.clear();
        }
        self.commands.push(cmd);
        true
    }

    /// Producer side: take the oldest pending command.
    pub fn next_command(&mut self) -> (r: Option<Command>)
        requires
            old(self).wf(),
        ensures
            final(self).wf(),
            final(self).round == old(self).round,
            final(self).spec_frames() == old(self).spec_frames(),
            final(self).spec_frame_capacity() == old(self).spec_frame_capacity(),
            final(self).spec_command_capacity() == old(self).spec_command_capacity(),
            match r {
                Some(c) => old(self).spec_commands().len() > 0 && c == old(self).spec_commands()[0]
                    && final(self).spec_commands() =~= old(self).spec_commands().skip(1),
                None => old(self).spec_commands().len() == 0 && final(self).spec_commands()
                    == old(self).spec_commands(),
            },
    {
        if self.commands.len() == 0 {
            return None;
        }
        let c = self.commands.remove(0);
        proof {
            assert(self.commands@ =~= old(self).commands@.skip(1));
        }
        Some(c)
    }
}

/// If everything before `k` is stale, the first fresh frame of the rest is
/// the first fresh frame of the whole, shifted.
pub proof fn lemma_first_fresh_skip(s: Seq<Frame>, r: u64, k: int)
    requires
        0 <= k <= s.len(),
        forall|m: int| 0 <= m < k ==> (#[trigger] s[m]).round != r,
    ensures
        first_fresh(s, r) == k + first_fresh(s.skip(k), r),
    decreases k,
{
    if k == 0 {
        assert(s.skip(0) =~= s);
    } else {
        assert(s[0].round != r);
        lemma_first_fresh_skip_one(s, r);
        assert forall|m: int| 0 <= m < k - 1 implies (#[trigger] s.skip(1)[m]).round != r by {
            assert(s.skip(1)[m] == s[m + 1]);
        }
        lemma_first_fresh_skip(s.skip(1), r, k - 1);
        lemma_skip_skip(s, 1, k - 1);
    }
}

/// Unfolding helper: a stale head shifts the first fresh index by one.
proof fn lemma_first_fresh_skip_one(s: Seq<Frame>, r: u64)
    requires
        s.len() > 0,
        s[0].round != r,
    ensures
        first_fresh(s, r) == 1 + first_fresh(s.skip(1), r),
{
}

/// Skipping twice is skipping the sum.
proof fn lemma_skip_skip(s: Seq<Frame>, a: int, b: int)
    requires
        0 <= a,
        0 <= b,
        a + b <= s.len(),
    ensures
        s.skip(a).skip(b) =~= s.skip(a + b),
{
}

/// Law: round invalidation.  Once the channel's round has moved past `r`
/// (as a `Seed` or any other reset command makes it do), no frame tagged
/// `r` is ever delivered: `next_frame` only returns the first frame that
/// carries the current round, and the round never decreases through any
/// operation of the channel.
pub proof fn lemma_stale_never_delivered(c: &StepChannel, r: u64)
    requires
        c.round > r,
    ensures
        ({
            let ff = first_fresh(c.spec_frames(), c.round);
            ff < c.spec_frames().len() ==> c.spec_frames()[ff].round != r
        }),
{
    lemma_first_fresh(c.spec_frames(), c.round);
}

/// Law: backpressure.  A well-formed channel never buffers more frames than
/// its capacity, every operation preserves well-formedness, and `push_frame`
/// refuses a frame exactly when the buffer is full — so however fast a
/// producer issues frames, the buffered count never exceeds the capacity at
/// any observation point.
pub proof fn lemma_backpressure(c: &StepChannel)
    requires
        c.wf(),
    ensures
        c.spec_frames().len() <= c.spec_frame_capacity(),
        c.spec_commands().len() <= c.spec_command_capacity(),
{
}

/// Law: within one round, delivery is FIFO.  When every buffered frame
/// carries the current round, `next_frame` delivers the oldest one and
/// keeps the rest in order.
pub proof fn lemma_fifo_within_round(c: &StepChannel)
    requires
        forall|m: int|
            0 <= m < c.spec_frames().len() ==> (#[trigger] c.spec_frames()[m]).round == c.round,
        c.spec_frames().len() > 0,
    ensures
        first_fresh(c.spec_frames(), c.round) == 0,
{
    assert(c.spec_frames()[0].round == c.round);
}

} // verus!
