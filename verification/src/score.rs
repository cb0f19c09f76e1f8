use vstd::prelude::*;

verus! {

/// Points awarded for each hit.
pub const POINTS_PER_HIT: u32 = 100;

/// Shot bookkeeping: score, shots fired, hits, and targets knocked out that
/// still wait to be respawned.
pub struct Scoreboard {
    score: u32,
    shots: u32,
    hits: u32,
    pending_respawns: u32,
}

impl Scoreboard {
    pub closed spec fn spec_score(self) -> u32 {
        self.score
    }

    pub closed spec fn spec_shots(self) -> u32 {
        self.shots
    }

    pub closed spec fn spec_hits(self) -> u32 {
        self.hits
    }

    pub closed spec fn spec_pending(self) -> u32 {
        self.pending_respawns
    }

    /// The score is 100 points per hit, no shot hits twice, and only hit
    /// targets wait for a respawn.
    pub open spec fn wf(self) -> bool {
        &&& self.spec_score() == POINTS_PER_HIT * self.spec_hits()
        &&& self.spec_hits() <= self.spec_shots()
        &&& self.spec_pending() <= self.spec_hits()
    }

    /// A board with nothing recorded.
    pub fn new() -> (b: Self)
        ensures
            b.wf(),
            b.spec_score() == 0,
            b.spec_shots() == 0,
            b.spec_hits() == 0,
            b.spec_pending() == 0,
    {
        Scoreboard { score: 0, shots: 0, hits: 0, pending_respawns: 0 }
    }

    /// Records one shot. A hit scores 100 points and queues a respawn.
    pub fn record_shot(&mut self, hit: bool)
        requires
            old(self).wf(),
            old(self).spec_shots() < u32::MAX,
            hit ==> old(self).spec_score() + POINTS_PER_HIT <= u32::MAX,
        ensures
            final(self).wf(),
            final(self).spec_shots() == old(self).spec_shots() + 1,
            final(self).spec_hits() == old(self).spec_hits() + (if hit { 1int } else { 0int }),
            final(self).spec_score() == old(self).spec_score() + (if hit { POINTS_PER_HIT as int } else { 0int }),
            final(self).spec_pending() == old(self).spec_pending() + (if hit { 1int } else { 0int }),
    {
        self.shots = self.shots + 1;
        if hit {
            self.score = self.score + POINTS_PER_HIT;
            self.hits = self.hits + 1;
            self.pending_respawns = self.pending_respawns + 1;
        }
    }

    /// Takes one queued respawn.
    pub fn take_respawn(&mut self)
        requires
            old(self).wf(),
            old(self).spec_pending() > 0,
        ensures
            final(self).wf(),
            final(self).spec_pending() == old(self).spec_pending() - 1,
            final(self).spec_score() == old(self).spec_score(),
            final(self).spec_shots() == old(self).spec_shots(),
            final(self).spec_hits() == old(self).spec_hits(),
    {
        self.pending_respawns = self.pending_respawns - 1;
    }

    pub fn score(&self) -> (v: u32)
        ensures
            v == self.spec_score(),
    {
        self.score
    }

    pub fn shots(&self) -> (v: u32)
        ensures
            v == self.spec_shots(),
    {
        self.shots
    }

    pub fn hits(&self) -> (v: u32)
        ensures
            v == self.spec_hits(),
    {
        self.hits
    }

    pub fn pending_respawns(&self) -> (v: u32)
        ensures
            v == self.spec_pending(),
    {
        self.pending_respawns
    }
}

} // verus!
