//! The rhythm game: notes fall down four lanes and are hit on the hit line.
//! The notes and the timers move in fractional steps, which the caller keeps;
//! this part keeps the score, the combo and the tally of judgments.
use vstd::prelude::*;

verus! {

/// Number of lanes.
pub const VSRG_LANES: usize = 4;

/// How well a note was hit.
#[derive(Debug, Clone, Copy, PartialEq, Eq, Structural)]
pub enum VsrgJudgment {
    Perfect,
    Great,
    Okay,
    Miss,
}

/// How a lane flashes after a key press.
#[derive(Debug, Clone, Copy, PartialEq, Eq, Structural)]
pub enum VsrgLaneFlashKind {
    Hit,
    Miss,
}

/// The number of lanes.
pub fn vsrg_lane_count() -> (n: usize)
    ensures
        n == VSRG_LANES,
{
    VSRG_LANES
}

/// What a judgment is worth: 300, 200 and 100 points, none for a miss.
pub open spec fn judgment_points(j: VsrgJudgment) -> u32 {
    match j {
        VsrgJudgment::Perfect => 300,
        VsrgJudgment::Great => 200,
        VsrgJudgment::Okay => 100,
        VsrgJudgment::Miss => 0,
    }
}

/// What a judgment is worth.
pub fn points_for(j: VsrgJudgment) -> (p: u32)
    ensures
        p == judgment_points(j),
{
    match j {
        VsrgJudgment::Perfect => 300,
        VsrgJudgment::Great => 200,
        VsrgJudgment::Okay => 100,
        VsrgJudgment::Miss => 0,
    }
}

/// The tally of a round of the rhythm game.
#[derive(Debug)]
pub struct VsrgGame {
    pub score: u32,
    pub combo: u32,
    pub max_combo: u32,
    /// The screen area (width, height).
    pub bounds: (u16, u16),
    /// Points of the judgments so far (300 a perfect hit).
    pub total_points: u32,
    /// Notes judged so far, misses included.
    pub total_judged: u32,
}

impl VsrgGame {
    /// The state that the operations keep: no combo ever beats the best one.
    pub open spec fn wf(&self) -> bool {
        self.combo <= self.max_combo
    }

    /// A new round.
    pub fn new(bounds: (u16, u16)) -> (g: VsrgGame)
        ensures
            g.wf(),
            g.bounds == bounds,
            g.score == 0,
            g.combo == 0,
            g.max_combo == 0,
            g.total_points == 0,
            g.total_judged == 0,
    {
        VsrgGame { score: 0, combo: 0, max_combo: 0, bounds, total_points: 0, total_judged: 0 }
    }

    /// Keeps the new screen area.
    pub fn update_bounds(&mut self, bounds: (u16, u16))
        ensures
            *final(self) == (VsrgGame { bounds, ..*old(self) }),
    {
        self.bounds = bounds;
    }

    /// A note hit with a judgment other than a miss: its points go to the
    /// tally, the combo grows by one, and the score grows by the points, twice
    /// the combo and the note's length (stopping at the largest score).
    pub fn register_hit(&mut self, judgment: VsrgJudgment, note_length: u16)
        requires
            old(self).wf(),
            judgment != VsrgJudgment::Miss,
            old(self).total_points + judgment_points(judgment) <= u32::MAX,
            old(self).total_judged < u32::MAX,
            judgment_points(judgment) + (old(self).combo + 1) * 2 + note_length <= u32::MAX,
        ensures
            final(self).wf(),
            final(self).total_points == old(self).total_points + judgment_points(judgment),
            final(self).total_judged == old(self).total_judged + 1,
            final(self).combo == old(self).combo + 1,
            final(self).max_combo == if final(self).combo > old(self).max_combo {
                final(self).combo
            } else {
                old(self).max_combo
            },
            final(self).score == if old(self).score + judgment_points(judgment) + final(self).combo * 2
                + note_length > u32::MAX {
                u32::MAX as int
            } else {
                old(self).score + judgment_points(judgment) + final(self).combo * 2 + note_length
            },
            final(self).bounds == old(self).bounds,
    {
        let points = points_for(judgment);
        self.total_points += points;
        self.total_judged += 1;
        self.combo += 1;
        if self.combo > self.max_combo {
            self.max_combo = self.combo;
        }
        self.score = self.score.saturating_add(points + self.combo * 2 + note_length as u32);
    }

    /// `count` notes missed: the combo breaks and they are judged.
    pub fn register_miss(&mut self, count: u32)
        requires
            old(self).wf(),
            old(self).total_judged + count <= u32::MAX,
        ensures
            final(self).wf(),
            final(self).combo == 0,
            final(self).total_judged == old(self).total_judged + count,
            final(self).score == old(self).score,
            final(self).max_combo == old(self).max_combo,
            final(self).total_points == old(self).total_points,
            final(self).bounds == old(self).bounds,
    {
        self.combo = 0;
        self.total_judged += count;
    }
}

} // verus!
