//! Breakout: the rules on whole cells. The ball and the paddle move in
//! fractional cells, which the caller keeps; this part holds the bricks, the
//! score and the lives, and decides what a ball on a given cell hits.
use vstd::prelude::*;
use crate::games::field::{fit, fit_spec};

verus! {

/// Largest playfield width.
pub const BREAKOUT_PLAYFIELD_WIDTH: u16 = 40;
/// Largest playfield height.
pub const BREAKOUT_PLAYFIELD_HEIGHT: u16 = 20;
/// Width of the paddle.
pub const BREAKOUT_PADDLE_WIDTH: u16 = 8;
/// Width of a brick.
pub const BREAKOUT_BRICK_WIDTH: u16 = 3;
/// Most rows of bricks.
pub const BREAKOUT_BRICK_ROWS: u16 = 5;

/// A brick: its leftmost cell, its width and what it is worth.
#[derive(Debug, Clone, Copy, PartialEq, Eq, Structural)]
pub struct Brick {
    pub x: u16,
    pub y: u16,
    pub width: u16,
    pub points: u32,
}

/// The side of a brick that the ball met, which decides how it bounces.
#[derive(Debug, Clone, Copy, PartialEq, Eq, Structural)]
pub enum HitSide {
    /// Top or bottom: the ball's vertical speed turns round.
    Vertical,
    /// Left or right: the ball's horizontal speed turns round.
    Horizontal,
}

/// What a ball hitting a brick leads to.
#[derive(Debug, Clone, Copy, PartialEq, Eq, Structural)]
pub struct BrickHit {
    pub side: HitSide,
    /// Every fifth brick destroyed speeds the ball up.
    pub speed_up: bool,
}

/// The playfield for a screen area: four columns and two rows less, kept
/// between 20x12 and 40x20.
pub open spec fn playfield_of(bounds: (u16, u16)) -> (u16, u16) {
    (
        fit_spec(bounds.0 as int, 4, 20, BREAKOUT_PLAYFIELD_WIDTH as int) as u16,
        fit_spec(bounds.1 as int, 2, 12, BREAKOUT_PLAYFIELD_HEIGHT as int) as u16,
    )
}

/// Bricks that fit in a row, each three cells wide with a one-cell gap, leaving
/// a cell free at each side.
pub open spec fn bricks_per_row(width: int) -> int {
    (width - 2) / 4
}

/// Rows of bricks: one per three rows of height, at most five.
pub open spec fn brick_rows(height: int) -> int {
    if 5 < height / 3 {
        5
    } else {
        height / 3
    }
}

/// What a brick in a row is worth: 50 on top, ten less each row down.
pub open spec fn row_points(row: int) -> u32 {
    if row == 0 {
        50
    } else if row == 1 {
        40
    } else if row == 2 {
        30
    } else if row == 3 {
        20
    } else {
        10
    }
}

/// Higher rows are worth more: every brick of the wall is worth between 10
/// and 50 points, and a brick is worth more than any brick in a lower row.
pub proof fn lemma_higher_rows_worth_more(bounds: (u16, u16), bricks: Seq<Brick>, i: int, j: int)
    requires
        20 <= bounds.0,
        brick_layout(bounds, bricks),
        0 <= i < bricks.len(),
        0 <= j < bricks.len(),
        bricks[i].y < bricks[j].y,
    ensures
        10 <= bricks[j].points < bricks[i].points <= 50,
{
    let per_row = bricks_per_row(bounds.0 as int);
    assert(per_row >= 4);
    assert(bricks.len() == brick_rows(bounds.1 as int) * per_row);
    assert(bricks[i] == brick_at(bounds, i / per_row, i % per_row));
    assert(bricks[j] == brick_at(bounds, j / per_row, j % per_row));
    assert(i / per_row < 5 && j / per_row < 5) by {
        vstd::arithmetic::div_mod::lemma_div_is_ordered(i, bricks.len() as int, per_row);
        vstd::arithmetic::div_mod::lemma_div_is_ordered(j, bricks.len() as int, per_row);
        vstd::arithmetic::div_mod::lemma_div_multiples_vanish(brick_rows(bounds.1 as int), per_row);
        vstd::arithmetic::div_mod::lemma_div_pos_is_pos(i, per_row);
        vstd::arithmetic::div_mod::lemma_div_pos_is_pos(j, per_row);
        assert(bricks.len() as int / per_row == brick_rows(bounds.1 as int)) by {
            vstd::arithmetic::mul::lemma_mul_is_commutative(brick_rows(bounds.1 as int), per_row);
        }
        if i / per_row >= brick_rows(bounds.1 as int) {
            vstd::arithmetic::div_mod::lemma_fundamental_div_mod(i, per_row);
            vstd::arithmetic::mul::lemma_mul_inequality(brick_rows(bounds.1 as int), i / per_row, per_row);
        }
        if j / per_row >= brick_rows(bounds.1 as int) {
            vstd::arithmetic::div_mod::lemma_fundamental_div_mod(j, per_row);
            vstd::arithmetic::mul::lemma_mul_inequality(brick_rows(bounds.1 as int), j / per_row, per_row);
        }
    }
    vstd::arithmetic::div_mod::lemma_div_pos_is_pos(i, per_row);
    vstd::arithmetic::div_mod::lemma_div_pos_is_pos(j, per_row);
}

/// The brick in a row and column of the wall: the rows start on the third line,
/// and the wall is centred across the width.
pub open spec fn brick_at(bounds: (u16, u16), row: int, col: int) -> Brick {
    let per_row = bricks_per_row(bounds.0 as int);
    let total_width = per_row * 4 - 1;
    let start_x = (bounds.0 - total_width) / 2;
    Brick { x: (start_x + col * 4) as u16, y: (row + 2) as u16, width: 3, points: row_points(row) }
}

/// `bricks` is the full wall for the playfield, row by row, left to right.
pub open spec fn brick_layout(bounds: (u16, u16), bricks: Seq<Brick>) -> bool {
    let per_row = bricks_per_row(bounds.0 as int);
    &&& bricks.len() == brick_rows(bounds.1 as int) * per_row
    &&& forall|k: int|
        0 <= k < bricks.len() ==> #[trigger] bricks[k] == brick_at(bounds, k / per_row, k % per_row)
}

/// A ball on cell `(x, y)` touches the brick: it is on the brick or on a cell next to it.
pub open spec fn touches(b: Brick, x: int, y: int) -> bool {
    &&& b.x - 1 <= x <= b.x + b.width - 1 + 1
    &&& b.y - 1 <= y <= b.y + 1
}

/// Brick `i` is the first that the ball touches.
pub open spec fn first_touched(bricks: Seq<Brick>, x: int, y: int, i: int) -> bool {
    &&& 0 <= i < bricks.len()
    &&& touches(bricks[i], x, y)
    &&& forall|j: int| 0 <= j < i ==> !touches(#[trigger] bricks[j], x, y)
}

/// The distance between two integers.
pub open spec fn dist(a: int, b: int) -> int {
    if a >= b {
        a - b
    } else {
        b - a
    }
}

/// The least of two integers.
pub open spec fn min2(a: int, b: int) -> int {
    if a <= b {
        a
    } else {
        b
    }
}

/// The side that a ball on `(x, y)` meets: top or bottom when the brick's
/// line is at least as near as its ends, else left or right.
pub open spec fn side_of(b: Brick, x: int, y: int) -> HitSide {
    let from_left = dist(x, b.x as int);
    let from_right = dist(x, b.x + b.width - 1);
    let from_top = dist(y, b.y as int);
    let from_bottom = dist(y, b.y as int);
    let min_dist = min2(min2(min2(from_left, from_right), from_top), from_bottom);
    if min_dist == from_top || min_dist == from_bottom {
        HitSide::Vertical
    } else {
        HitSide::Horizontal
    }
}

/// The side a ball meets does not depend on which end of the brick it comes
/// from: mirroring the ball about the brick's middle column meets the same
/// side. A ball level with the brick meets its top or bottom; a ball above or
/// below either end cell meets it sideways.
pub proof fn lemma_hit_side_mirror(b: Brick, x: int, y: int)
    ensures
        side_of(b, x, y) == side_of(b, 2 * b.x + b.width - 1 - x, y),
        y == b.y ==> side_of(b, x, y) == HitSide::Vertical,
        (x == b.x || x == b.x + b.width - 1) && y != b.y ==> side_of(b, x, y) == HitSide::Horizontal,
{
}

/// Every brick lies within `width` columns.
pub open spec fn bricks_within(bricks: Seq<Brick>, width: int) -> bool {
    forall|i: int| 0 <= i < bricks.len() ==> #[trigger] bricks[i].x + bricks[i].width <= width
}

/// The points that the bricks are worth together.
pub open spec fn points_sum(bricks: Seq<Brick>) -> int
    decreases bricks.len(),
{
    if bricks.len() == 0 {
        0
    } else {
        points_sum(bricks.drop_last()) + bricks.last().points
    }
}

/// Taking a brick out takes its points out of the sum.
proof fn lemma_points_sum_remove(bricks: Seq<Brick>, i: int)
    requires
        0 <= i < bricks.len(),
    ensures
        points_sum(bricks.remove(i)) == points_sum(bricks) - bricks[i].points,
    decreases bricks.len(),
{
    if i == bricks.len() - 1 {
        assert(bricks.remove(i) =~= bricks.drop_last());
    } else {
        lemma_points_sum_remove(bricks.drop_last(), i);
        assert(bricks.remove(i).drop_last() =~= bricks.drop_last().remove(i));
        assert(bricks.remove(i).last() == bricks.last());
    }
}

/// The state of a game of breakout on whole cells.
#[derive(Debug)]
pub struct BreakoutGame {
    pub score: u32,
    pub lives: u8,
    pub paddle_width: u16,
    pub ball_launched: bool,
    pub bricks: Vec<Brick>,
    /// The playfield size (width, height).
    pub bounds: (u16, u16),
    pub game_over: bool,
    pub victory: bool,
    /// How many bricks the wall had at the start.
    pub total_bricks: usize,
}

/// The full wall of bricks for a playfield.
fn generate_bricks(bounds: (u16, u16)) -> (bricks: Vec<Brick>)
    requires
        20 <= bounds.0 <= BREAKOUT_PLAYFIELD_WIDTH,
        bounds.1 <= BREAKOUT_PLAYFIELD_HEIGHT,
    ensures
        brick_layout(bounds, bricks@),
        bricks_within(bricks@, bounds.0 as int),
        bricks@.len() > 0 <==> bounds.1 >= 3,
{
    let brick_width = BREAKOUT_BRICK_WIDTH;
    let gap: u16 = 1;
    let per_row = (bounds.0 - 2) / (brick_width + gap);
    let total_brick_width = per_row * (brick_width + gap) - gap;
    let start_x = (bounds.0 - total_brick_width) / 2;
    let rows: u16 = if BREAKOUT_BRICK_ROWS < bounds.1 / 3 { BREAKOUT_BRICK_ROWS } else { bounds.1 / 3 };
    let ghost pr = per_row as int;
    assert(pr == bricks_per_row(bounds.0 as int));
    assert(4 <= pr <= 9);
    let mut bricks: Vec<Brick> = Vec::new();
    let mut row: u16 = 0;
    while row < rows
        invariant
            20 <= bounds.0 <= BREAKOUT_PLAYFIELD_WIDTH,
            per_row as int == pr,
            pr == bricks_per_row(bounds.0 as int),
            4 <= pr <= 9,
            total_brick_width == per_row * 4 - 1,
            start_x == (bounds.0 - total_brick_width) / 2,
            rows as int == brick_rows(bounds.1 as int),
            brick_width == 3,
            gap == 1,
            row <= rows,
            bricks@.len() == row * pr,
            forall|k: int| 0 <= k < bricks@.len() ==> #[trigger] bricks@[k] == brick_at(bounds, k / pr, k % pr),
            bricks_within(bricks@, bounds.0 as int),
        decreases rows - row,
    {
        let y = row + 2;
        let points: u32 = if row == 0 {
            50
        } else if row == 1 {
            40
        } else if row == 2 {
            30
        } else if row == 3 {
            20
        } else {
            10
        };
        let mut col: u16 = 0;
        while col < per_row
            invariant
                20 <= bounds.0 <= BREAKOUT_PLAYFIELD_WIDTH,
                per_row as int == pr,
                pr == bricks_per_row(bounds.0 as int),
                4 <= pr <= 9,
                total_brick_width == per_row * 4 - 1,
                start_x == (bounds.0 - total_brick_width) / 2,
                brick_width == 3,
                gap == 1,
                row < rows,
                rows <= 5,
                y == row + 2,
                points == row_points(row as int),
                col <= per_row,
                bricks@.len() == row * pr + col,
                forall|k: int| 0 <= k < bricks@.len() ==> #[trigger] bricks@[k] == brick_at(bounds, k / pr, k % pr),
                bricks_within(bricks@, bounds.0 as int),
            decreases per_row - col,
        {
            let step = brick_width + gap;
            assert(col * step == col * 4 && col * 4 <= 36) by (nonlinear_arith)
                requires
                    step == 4,
                    col < 9,
            ;
            let x = start_x + col * step;
            let ghost k = bricks@.len() as int;
            proof {
                vstd::arithmetic::div_mod::lemma_fundamental_div_mod_converse(k, pr, row as int, col as int);
            }
            bricks.push(Brick { x, y, width: brick_width, points });
            col += 1;
        }
        assert((row + 1) * pr == row * pr + pr) by (nonlinear_arith);
        row += 1;
    }
    assert(bricks@.len() > 0 <==> rows > 0) by (nonlinear_arith)
        requires
            bricks@.len() == rows * pr,
            4 <= pr,
    ;
    bricks
}

/// Finds the first brick that a ball on `(x, y)` touches, and the side it meets.
fn find_hit(bricks: &Vec<Brick>, x: i32, y: i32) -> (r: Option<(usize, HitSide)>)
    requires
        bricks_within(bricks@, BREAKOUT_PLAYFIELD_WIDTH as int),
    ensures
        match r {
            Some((i, side)) => first_touched(bricks@, x as int, y as int, i as int) && side == side_of(
                bricks@[i as int],
                x as int,
                y as int,
            ),
            None => forall|j: int| 0 <= j < bricks@.len() ==> !touches(#[trigger] bricks@[j], x as int, y as int),
        },
{
    let mut i: usize = 0;
    while i < bricks.len()
        invariant
            i <= bricks@.len(),
            bricks_within(bricks@, BREAKOUT_PLAYFIELD_WIDTH as int),
            forall|j: int| 0 <= j < i ==> !touches(#[trigger] bricks@[j], x as int, y as int),
        decreases bricks@.len() - i,
    {
        let brick = bricks[i];
        assert(brick.x + brick.width <= BREAKOUT_PLAYFIELD_WIDTH);
        let left = brick.x as i32;
        let right = (brick.x + brick.width) as i32 - 1;
        let top = brick.y as i32;
        let bottom = brick.y as i32;
        if x >= left - 1 && x <= right + 1 && y >= top - 1 && y <= bottom + 1 {
            let from_left = if x >= left { x - left } else { left - x };
            let from_right = if x >= right { x - right } else { right - x };
            let from_top = if y >= top { y - top } else { top - y };
            let from_bottom = if y >= bottom { y - bottom } else { bottom - y };
            let m1 = if from_left <= from_right { from_left } else { from_right };
            let m2 = if m1 <= from_top { m1 } else { from_top };
            let min_dist = if m2 <= from_bottom { m2 } else { from_bottom };
            let side = if min_dist == from_top || min_dist == from_bottom {
                HitSide::Vertical
            } else {
                HitSide::Horizontal
            };
            return Some((i, side));
        }
        i += 1;
    }
    None
}

impl BreakoutGame {
    /// The state that the operations keep: the playfield within its limits,
    /// the paddle's width, and every brick inside the playfield.
    pub open spec fn wf(&self) -> bool {
        &&& 20 <= self.bounds.0 <= BREAKOUT_PLAYFIELD_WIDTH
        &&& 12 <= self.bounds.1 <= BREAKOUT_PLAYFIELD_HEIGHT
        &&& self.paddle_width == BREAKOUT_PADDLE_WIDTH
        &&& bricks_within(self.bricks@, self.bounds.0 as int)
    }

    /// A new game: three lives, the full wall, the ball waiting on the paddle.
    pub fn new(bounds: (u16, u16)) -> (g: BreakoutGame)
        ensures
            g.wf(),
            g.bounds == playfield_of(bounds),
            g.score == 0,
            g.lives == 3,
            !g.ball_launched,
            !g.game_over,
            !g.victory,
            brick_layout(g.bounds, g.bricks@),
            g.bricks@.len() > 0,
            g.total_bricks == g.bricks@.len(),
    {
        let playfield = Self::calculate_playfield(bounds);
        let bricks = generate_bricks(playfield);
        let total_bricks = bricks.len();
        BreakoutGame {
            score: 0,
            lives: 3,
            paddle_width: BREAKOUT_PADDLE_WIDTH,
            ball_launched: false,
            bricks,
            bounds: playfield,
            game_over: false,
            victory: false,
            total_bricks,
        }
    }

    /// The playfield for a screen area.
    pub fn calculate_playfield(bounds: (u16, u16)) -> (p: (u16, u16))
        ensures
            p == playfield_of(bounds),
            20 <= p.0 <= BREAKOUT_PLAYFIELD_WIDTH,
            12 <= p.1 <= BREAKOUT_PLAYFIELD_HEIGHT,
    {
        (fit(bounds.0, 4, 20, BREAKOUT_PLAYFIELD_WIDTH), fit(bounds.1, 2, 12, BREAKOUT_PLAYFIELD_HEIGHT))
    }

    /// Fits the game to a new screen area: when the playfield changes and a
    /// brick no longer fits in its width, the wall is built anew.
    pub fn update_bounds(&mut self, bounds: (u16, u16))
        requires
            old(self).wf(),
        ensures
            final(self).wf(),
            final(self).bounds == playfield_of(bounds),
            final(self).score == old(self).score,
            final(self).lives == old(self).lives,
            final(self).ball_launched == old(self).ball_launched,
            final(self).game_over == old(self).game_over,
            final(self).victory == old(self).victory,
            final(self).total_bricks == old(self).total_bricks,
            ({
                let new_bounds = playfield_of(bounds);
                if new_bounds != old(self).bounds && !bricks_within(old(self).bricks@, new_bounds.0 as int) {
                    brick_layout(new_bounds, final(self).bricks@)
                } else {
                    final(self).bricks@ == old(self).bricks@
                }
            }),
    {
        let new_playfield = Self::calculate_playfield(bounds);
        if new_playfield.0 != self.bounds.0 || new_playfield.1 != self.bounds.1 {
            self.bounds = new_playfield;
            let mut overflows = false;
            let mut i: usize = 0;
            while i < self.bricks.len()
                invariant
                    i <= self.bricks@.len(),
                    bricks_within(self.bricks@, BREAKOUT_PLAYFIELD_WIDTH as int),
                    overflows <==> exists|j: int|
                        0 <= j < i && #[trigger] self.bricks@[j].x + self.bricks@[j].width > new_playfield.0,
                decreases self.bricks@.len() - i,
            {
                let b = self.bricks[i];
                if b.x + b.width > new_playfield.0 {
                    overflows = true;
                }
                i += 1;
            }
            if overflows {
                self.bricks = generate_bricks(new_playfield);
            }
        }
    }

    /// The ball fell past the paddle: a life is lost; with none left the game
    /// ends, otherwise the ball goes back onto the paddle (the result is then
    /// `true`, and the caller puts the ball there).
    pub fn lose_life(&mut self) -> (reset: bool)
        requires
            old(self).wf(),
        ensures
            final(self).wf(),
            final(self).lives == if old(self).lives > 0 { old(self).lives - 1 } else { 0 },
            reset == (final(self).lives != 0),
            final(self).game_over == (old(self).game_over || final(self).lives == 0),
            final(self).ball_launched == (old(self).ball_launched && !reset),
            final(self).score == old(self).score,
            final(self).bricks@ == old(self).bricks@,
            final(self).bounds == old(self).bounds,
            final(self).victory == old(self).victory,
            final(self).total_bricks == old(self).total_bricks,
    {
        self.lives = self.lives.saturating_sub(1);
        if self.lives == 0 {
            self.game_over = true;
            false
        } else {
            self.ball_launched = false;
            true
        }
    }

    /// Sends the ball off the paddle, unless it is already moving or the game
    /// is over; the result says whether it was sent.
    pub fn launch_ball(&mut self) -> (launched: bool)
        ensures
            launched == (!old(self).ball_launched && !old(self).game_over),
            final(self).ball_launched == (old(self).ball_launched || launched),
            final(self).score == old(self).score,
            final(self).lives == old(self).lives,
            final(self).bricks@ == old(self).bricks@,
            final(self).bounds == old(self).bounds,
            final(self).game_over == old(self).game_over,
            final(self).victory == old(self).victory,
            final(self).total_bricks == old(self).total_bricks,
            final(self).paddle_width == old(self).paddle_width,
    {
        if !self.ball_launched && !self.game_over {
            self.ball_launched = true;
            true
        } else {
            false
        }
    }

    /// A ball on cell `(ball_x, ball_y)`: the first brick that it touches is
    /// destroyed and scored, and the result says which side it met and whether
    /// the ball speeds up. The game is won once no brick is left.
    pub fn check_brick_collisions(&mut self, ball_x: i32, ball_y: i32) -> (hit: Option<BrickHit>)
        requires
            old(self).wf(),
            forall|i: int|
                first_touched(old(self).bricks@, ball_x as int, ball_y as int, i) ==> {
                    &&& old(self).score + old(self).bricks@[i].points <= u32::MAX
                    &&& old(self).total_bricks + 1 >= old(self).bricks@.len()
                },
        ensures
            final(self).wf(),
            final(self).lives == old(self).lives,
            final(self).bounds == old(self).bounds,
            final(self).ball_launched == old(self).ball_launched,
            final(self).game_over == old(self).game_over,
            final(self).total_bricks == old(self).total_bricks,
            final(self).victory == (old(self).victory || final(self).bricks@.len() == 0),
            final(self).score + points_sum(final(self).bricks@) == old(self).score + points_sum(old(self).bricks@),
            match hit {
                None => {
                    &&& forall|j: int|
                        0 <= j < old(self).bricks@.len() ==> !touches(
                            #[trigger] old(self).bricks@[j],
                            ball_x as int,
                            ball_y as int,
                        )
                    &&& final(self).bricks@ == old(self).bricks@
                    &&& final(self).score == old(self).score
                },
                Some(h) => exists|i: int|
                    {
                        &&& first_touched(old(self).bricks@, ball_x as int, ball_y as int, i)
                        &&& final(self).bricks@ == old(self).bricks@.remove(i)
                        &&& final(self).score == old(self).score + old(self).bricks@[i].points
                        &&& h.side == side_of(#[trigger] old(self).bricks@[i], ball_x as int, ball_y as int)
                        &&& h.speed_up == ((old(self).total_bricks - final(self).bricks@.len()) % 5 == 0)
                    },
            },
    {
        let ghost start = *self;
        let found = find_hit(&self.bricks, ball_x, ball_y);
        let result = match found {
            None => None,
            Some((i, side)) => {
                proof {
                    lemma_points_sum_remove(self.bricks@, i as int);
                }
                let brick = self.bricks.remove(i);
                self.score = self.score + brick.points;
                let destroyed = self.total_bricks - self.bricks.len();
                let h = BrickHit { side, speed_up: destroyed % 5 == 0 };
                assert(bricks_within(self.bricks@, self.bounds.0 as int)) by {
                    assert forall|k: int| 0 <= k < self.bricks@.len() implies #[trigger] self.bricks@[k].x
                        + self.bricks@[k].width <= self.bounds.0 by {
                        if k < i {
                            assert(self.bricks@[k] == start.bricks@[k]);
                        } else {
                            assert(self.bricks@[k] == start.bricks@[k + 1]);
                        }
                    }
                }
                assert(h.side == side_of(start.bricks@[i as int], ball_x as int, ball_y as int));
                Some(h)
            },
        };
        if self.bricks.len() == 0 {
            self.victory = true;
        }
        result
    }

    /// Whether the game has ended, lost or won.
    pub fn is_finished(&self) -> (r: bool)
        ensures
            r == (self.game_over || self.victory),
    {
        self.game_over || self.victory
    }
}

} // verus!
