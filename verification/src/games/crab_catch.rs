//! Crab catch: the crab runs along the bottom of the playfield and catches the
//! food that falls. The falling food and the timers move in fractional steps,
//! which the caller keeps; this part holds the crab, the score and the misses.
use vstd::prelude::*;

verus! {

/// Widest playfield.
pub const PLAYFIELD_WIDTH: u16 = 32;
/// Width of the crab's sprite.
pub const CRAB_SPRITE_WIDTH: u16 = 7;

/// Which way the crab looks.
#[derive(Debug, Clone, Copy, PartialEq, Eq, Structural)]
pub enum CrabFacing {
    Left,
    Right,
    Neutral,
}

/// The crab's sprite for where it looks and whether it has just caught something.
pub open spec fn sprite_of(facing: CrabFacing, happy: bool) -> &'static str {
    match (facing, happy) {
        (CrabFacing::Neutral, false) => ">('_')<",
        (CrabFacing::Neutral, true) => ">(^_^)<",
        (CrabFacing::Right, false) => "(<'_')<",
        (CrabFacing::Right, true) => "(<^_^)<",
        (CrabFacing::Left, false) => ">('_'>)",
        (CrabFacing::Left, true) => ">(^_^>)",
    }
}

/// The playfield width for a screen width: two columns less, between 8 and 32.
pub open spec fn playfield_width_of(width: int) -> int {
    let available = if width >= 3 { width - 2 } else { 1 };
    let capped = if available < PLAYFIELD_WIDTH { available } else { PLAYFIELD_WIDTH as int };
    if capped > 8 {
        capped
    } else {
        8
    }
}

/// How far the crab moves per key press: the free width in seven steps
/// (rounded up), at least one cell.
pub open spec fn move_step_of(width: int, crab_width: int) -> int {
    let travel = if width - crab_width >= 1 { width - crab_width } else { 1 };
    (travel + 6) / 7
}

/// The farthest the crab can stand from the left edge.
pub open spec fn max_x_of(width: int, crab_width: int) -> int {
    if width >= crab_width {
        width - crab_width
    } else {
        0
    }
}

/// The state of a game of crab catch on whole cells.
#[derive(Debug)]
pub struct CrabCatchGame {
    pub score: u32,
    pub misses: u32,
    /// The crab's leftmost column.
    pub crab_x: i32,
    pub crab_width: u16,
    /// Columns per move.
    pub move_step: i32,
    /// The playfield size (width, height).
    pub bounds: (u16, u16),
    pub facing: CrabFacing,
}

impl CrabCatchGame {
    /// The state that the operations keep: the crab's width and step fit the
    /// playfield, and the crab stands on it.
    pub open spec fn wf(&self) -> bool {
        &&& 8 <= self.bounds.0 <= PLAYFIELD_WIDTH
        &&& self.crab_width == CRAB_SPRITE_WIDTH
        &&& self.move_step == move_step_of(self.bounds.0 as int, self.crab_width as int)
        &&& 0 <= self.crab_x <= max_x_of(self.bounds.0 as int, self.crab_width as int)
    }

    /// A new game: the crab in the middle, looking ahead.
    pub fn new(bounds: (u16, u16)) -> (g: CrabCatchGame)
        ensures
            g.wf(),
            g.bounds == (playfield_width_of(bounds.0 as int) as u16, bounds.1),
            g.crab_x == max_x_of(g.bounds.0 as int, CRAB_SPRITE_WIDTH as int) / 2,
            g.score == 0,
            g.misses == 0,
            g.facing == CrabFacing::Neutral,
    {
        let crab_width = CRAB_SPRITE_WIDTH;
        let playfield_width = Self::playfield_width(bounds.0);
        let initial_x = playfield_width.saturating_sub(crab_width) as i32 / 2;
        let move_step = Self::move_step(playfield_width, crab_width);
        CrabCatchGame {
            score: 0,
            misses: 0,
            crab_x: initial_x,
            crab_width,
            move_step,
            bounds: (playfield_width, bounds.1),
            facing: CrabFacing::Neutral,
        }
    }

    /// The crab's sprite; `happy` while it celebrates a catch.
    pub fn crab_sprite(&self, happy: bool) -> (s: &'static str)
        ensures
            s == sprite_of(self.facing, happy),
    {
        match (self.facing, happy) {
            (CrabFacing::Neutral, false) => ">('_')<",
            (CrabFacing::Neutral, true) => ">(^_^)<",
            (CrabFacing::Right, false) => "(<'_')<",
            (CrabFacing::Right, true) => "(<^_^)<",
            (CrabFacing::Left, false) => ">('_'>)",
            (CrabFacing::Left, true) => ">(^_^>)",
        }
    }

    /// Fits the game to a new screen area; the crab stays where it is as far
    /// as the new width allows.
    pub fn update_bounds(&mut self, bounds: (u16, u16))
        requires
            old(self).wf(),
        ensures
            final(self).wf(),
            final(self).bounds == (playfield_width_of(bounds.0 as int) as u16, bounds.1),
            final(self).crab_x == if old(self).crab_x > max_x_of(final(self).bounds.0 as int, CRAB_SPRITE_WIDTH as int) {
                max_x_of(final(self).bounds.0 as int, CRAB_SPRITE_WIDTH as int)
            } else {
                old(self).crab_x as int
            },
            final(self).score == old(self).score,
            final(self).misses == old(self).misses,
            final(self).facing == old(self).facing,
    {
        let playfield_width = Self::playfield_width(bounds.0);
        self.bounds = (playfield_width, bounds.1);
        self.move_step = Self::move_step(playfield_width, self.crab_width);
        let max_x = playfield_width.saturating_sub(self.crab_width) as i32;
        if self.crab_x < 0 {
            self.crab_x = 0;
        } else if self.crab_x > max_x {
            self.crab_x = max_x;
        }
    }

    /// Moves the crab `direction` steps (negative: to the left), stopping at
    /// the edges, and turns it that way.
    pub fn move_crab(&mut self, direction: i32)
        requires
            old(self).wf(),
            i32::MIN <= direction * old(self).move_step <= i32::MAX,
            i32::MIN <= old(self).crab_x + direction * old(self).move_step <= i32::MAX,
        ensures
            final(self).wf(),
            ({
                let target = old(self).crab_x + direction * old(self).move_step;
                let max_x = max_x_of(old(self).bounds.0 as int, old(self).crab_width as int);
                final(self).crab_x == if target < 0 {
                    0
                } else if target > max_x {
                    max_x
                } else {
                    target
                }
            }),
            final(self).facing == if direction > 0 {
                CrabFacing::Right
            } else {
                CrabFacing::Left
            },
            final(self).bounds == old(self).bounds,
            final(self).score == old(self).score,
            final(self).misses == old(self).misses,
    {
        let max_x = self.bounds.0.saturating_sub(self.crab_width) as i32;
        let delta = direction * self.move_step;
        let target = self.crab_x + delta;
        self.crab_x = if target < 0 {
            0
        } else if target > max_x {
            max_x
        } else {
            target
        };
        self.facing = if direction > 0 {
            CrabFacing::Right
        } else {
            CrabFacing::Left
        };
    }

    /// Food reached the crab's row at column `food_x`: under the crab it is
    /// caught and scores (the result is `true`), elsewhere it counts as a miss.
    pub fn catch_food(&mut self, food_x: i32) -> (caught: bool)
        requires
            old(self).wf(),
            old(self).crab_x <= food_x <= old(self).crab_x + old(self).crab_width - 1 ==> old(self).score < u32::MAX,
            !(old(self).crab_x <= food_x <= old(self).crab_x + old(self).crab_width - 1) ==> old(self).misses
                < u32::MAX,
        ensures
            final(self).wf(),
            caught == (old(self).crab_x <= food_x <= old(self).crab_x + old(self).crab_width - 1),
            final(self).score == old(self).score + if caught { 1int } else { 0int },
            final(self).misses == old(self).misses + if caught { 0int } else { 1int },
            final(self).crab_x == old(self).crab_x,
            final(self).bounds == old(self).bounds,
            final(self).facing == old(self).facing,
    {
        let crab_min = self.crab_x;
        let crab_max = self.crab_x + self.crab_width as i32 - 1;
        if food_x >= crab_min && food_x <= crab_max {
            self.score += 1;
            true
        } else {
            self.misses += 1;
            false
        }
    }

    /// The playfield width for a screen width.
    fn playfield_width(width: u16) -> (w: u16)
        ensures
            w == playfield_width_of(width as int),
            8 <= w <= PLAYFIELD_WIDTH,
    {
        let available = width.saturating_sub(2);
        let available = if available < 1 { 1 } else { available };
        let capped = if available < PLAYFIELD_WIDTH { available } else { PLAYFIELD_WIDTH };
        if capped > 8 {
            capped
        } else {
            8
        }
    }

    /// Columns per move for a playfield width: the free width divided into
    /// seven steps, rounded up, at least one.
    fn move_step(width: u16, crab_width: u16) -> (step: i32)
        ensures
            step == move_step_of(width as int, crab_width as int),
            step >= 1,
    {
        let travel = width.saturating_sub(crab_width);
        let travel = if travel < 1 { 1 } else { travel };
        ((travel as u32 + 6) / 7) as i32
    }
}

} // verus!
