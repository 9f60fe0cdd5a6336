//! Snake: a snake that must keep off the walls and off itself, eats food and
//! grows by one segment per piece of food. The move timer lives with the caller, which calls
//! `move_snake` each time a move is due.
use vstd::prelude::*;
use std::collections::VecDeque;
use rand::rngs::ThreadRng;
use crate::rng::{pick, thread_rng};
use crate::games::field::{clamp_int, fit, fit_spec};

verus! {

/// Largest playfield width.
pub const SNAKE_PLAYFIELD_WIDTH: u16 = 32;
/// Largest playfield height.
pub const SNAKE_PLAYFIELD_HEIGHT: u16 = 16;

/// A direction of travel.
#[derive(Debug, Clone, Copy, PartialEq, Eq, Structural)]
pub enum Direction {
    Up,
    Down,
    Left,
    Right,
}

/// `a` and `b` point in opposite directions.
pub open spec fn opposite(a: Direction, b: Direction) -> bool {
    ||| (a == Direction::Up && b == Direction::Down)
    ||| (a == Direction::Down && b == Direction::Up)
    ||| (a == Direction::Left && b == Direction::Right)
    ||| (a == Direction::Right && b == Direction::Left)
}

/// The step `(dx, dy)` of a direction; y grows downwards.
pub open spec fn delta_of(d: Direction) -> (int, int) {
    match d {
        Direction::Up => (0, -1),
        Direction::Down => (0, 1),
        Direction::Left => (-1, 0),
        Direction::Right => (1, 0),
    }
}

impl Direction {
    /// Whether `other` points the opposite way.
    pub fn is_opposite(&self, other: &Direction) -> (r: bool)
        ensures
            r == opposite(*self, *other),
    {
        match self {
            Direction::Up => *other == Direction::Down,
            Direction::Down => *other == Direction::Up,
            Direction::Left => *other == Direction::Right,
            Direction::Right => *other == Direction::Left,
        }
    }

    /// The step `(dx, dy)` of this direction.
    pub fn delta(&self) -> (d: (i32, i32))
        ensures
            d.0 == delta_of(*self).0,
            d.1 == delta_of(*self).1,
    {
        match self {
            Direction::Up => (0, -1),
            Direction::Down => (0, 1),
            Direction::Left => (-1, 0),
            Direction::Right => (1, 0),
        }
    }
}

/// The playfield for a screen area: four columns and two rows less, kept
/// between 10x6 and 32x16.
pub open spec fn playfield_of(bounds: (u16, u16)) -> (u16, u16) {
    (
        fit_spec(bounds.0 as int, 4, 10, SNAKE_PLAYFIELD_WIDTH as int) as u16,
        fit_spec(bounds.1 as int, 2, 6, SNAKE_PLAYFIELD_HEIGHT as int) as u16,
    )
}

/// The cell lies on the playfield.
pub open spec fn in_field(p: (i32, i32), bounds: (u16, u16)) -> bool {
    0 <= p.0 < bounds.0 && 0 <= p.1 < bounds.1
}

/// The cell is on the playfield and not under the snake.
pub open spec fn free_cell(snake: Seq<(i32, i32)>, bounds: (u16, u16), p: (i32, i32)) -> bool {
    in_field(p, bounds) && !snake.contains(p)
}

/// Where food may be put: a free cell when there is one, else the corner (0, 0).
pub open spec fn food_ok(snake: Seq<(i32, i32)>, bounds: (u16, u16), food: (i32, i32)) -> bool {
    if exists|p: (i32, i32)| #[trigger] free_cell(snake, bounds, p) {
        free_cell(snake, bounds, food)
    } else {
        food == (0i32, 0i32)
    }
}

/// A segment of `snake` other than the tail, when the tail moves away, lies on `head`.
pub open spec fn hits_body(snake: Seq<(i32, i32)>, head: (i32, i32), tail_moves: bool) -> bool {
    exists|i: int|
        0 <= i < snake.len() && !(tail_moves && i == snake.len() - 1) && #[trigger] snake[i] == head
}

/// A cell moved onto the playfield, coordinate by coordinate.
pub open spec fn clamp_point(p: (i32, i32), bounds: (u16, u16)) -> (i32, i32) {
    (clamp_int(p.0 as int, 0, bounds.0 - 1) as i32, clamp_int(p.1 as int, 0, bounds.1 - 1) as i32)
}

/// A game of snake.
#[derive(Debug)]
pub struct SnakeGame {
    pub score: u32,
    /// The segments, head first.
    pub snake: VecDeque<(i32, i32)>,
    pub direction: Direction,
    /// The direction that the next move takes.
    pub next_direction: Direction,
    pub food: (i32, i32),
    /// The playfield size (width, height).
    pub bounds: (u16, u16),
    pub game_over: bool,
    pub rng: ThreadRng,
}

/// Whether `snake` holds the cell `p`.
fn snake_contains(snake: &VecDeque<(i32, i32)>, p: (i32, i32)) -> (r: bool)
    ensures
        r == snake@.contains(p),
{
    let mut i: usize = 0;
    while i < snake.len()
        invariant
            i <= snake@.len(),
            forall|k: int| 0 <= k < i ==> snake@[k] != p,
        decreases snake@.len() - i,
    {
        let s = snake[i];
        if s.0 == p.0 && s.1 == p.1 {
            assert(snake@[i as int] == p);
            return true;
        }
        i += 1;
    }
    false
}

/// Whether `head` runs into the snake (leaving out its tail when the tail moves away).
fn hits_snake(snake: &VecDeque<(i32, i32)>, head: (i32, i32), tail_moves: bool) -> (r: bool)
    ensures
        r == hits_body(snake@, head, tail_moves),
{
    let len = snake.len();
    let mut i: usize = 0;
    while i < len
        invariant
            len == snake@.len(),
            i <= len,
            forall|k: int|
                0 <= k < i && !(tail_moves && k == len - 1) ==> #[trigger] snake@[k] != head,
        decreases len - i,
    {
        if !(tail_moves && i == len - 1) {
            let s = snake[i];
            if s.0 == head.0 && s.1 == head.1 {
                assert(snake@[i as int] == head);
                return true;
            }
        }
        i += 1;
    }
    false
}

impl SnakeGame {
    /// The game is in a state that its operations keep: the playfield within its
    /// limits, the snake (three segments longer than the score) and the food on
    /// it, and the next move not a reversal.
    pub open spec fn wf(&self) -> bool {
        &&& 10 <= self.bounds.0 <= SNAKE_PLAYFIELD_WIDTH
        &&& 6 <= self.bounds.1 <= SNAKE_PLAYFIELD_HEIGHT
        &&& self.snake@.len() == self.score + 3
        &&& forall|i: int| 0 <= i < self.snake@.len() ==> in_field(#[trigger] self.snake@[i], self.bounds)
        &&& in_field(self.food, self.bounds)
        &&& !opposite(self.direction, self.next_direction)
    }

    /// Where the head goes on the next move (possibly off the playfield).
    pub open spec fn next_head(&self) -> (i32, i32) {
        let head = self.snake@[0];
        let d = delta_of(self.next_direction);
        ((head.0 + d.0) as i32, (head.1 + d.1) as i32)
    }

    /// A new game: the snake, three segments long, in the middle of the
    /// playfield heading right, and food on a free cell.
    pub fn new(bounds: (u16, u16)) -> (g: SnakeGame)
        ensures
            g.wf(),
            g.bounds == playfield_of(bounds),
            g.score == 0,
            !g.game_over,
            g.direction == Direction::Right,
            g.next_direction == Direction::Right,
            g.snake@ == seq![
                ((g.bounds.0 / 2) as i32, (g.bounds.1 / 2) as i32),
                ((g.bounds.0 / 2 - 1) as i32, (g.bounds.1 / 2) as i32),
                ((g.bounds.0 / 2 - 2) as i32, (g.bounds.1 / 2) as i32),
            ],
            food_ok(g.snake@, g.bounds, g.food),
    {
        let playfield = Self::calculate_playfield(bounds);
        let mut rng = thread_rng();
        let center_x = (playfield.0 / 2) as i32;
        let center_y = (playfield.1 / 2) as i32;
        let mut snake: VecDeque<(i32, i32)> = VecDeque::new();
        snake.push_back((center_x, center_y));
        snake.push_back((center_x - 1, center_y));
        snake.push_back((center_x - 2, center_y));
        let food = Self::spawn_food_position(&snake, playfield, &mut rng);
        let g = SnakeGame {
            score: 0,
            snake,
            direction: Direction::Right,
            next_direction: Direction::Right,
            food,
            bounds: playfield,
            game_over: false,
            rng,
        };
        assert(g.snake@ =~= seq![(center_x, center_y), ((center_x - 1) as i32, center_y), ((center_x - 2) as i32, center_y)]);
        g
    }

    /// The playfield for a screen area.
    fn calculate_playfield(bounds: (u16, u16)) -> (p: (u16, u16))
        ensures
            p == playfield_of(bounds),
    {
        (fit(bounds.0, 4, 10, SNAKE_PLAYFIELD_WIDTH), fit(bounds.1, 2, 6, SNAKE_PLAYFIELD_HEIGHT))
    }

    /// Fits the game to a new screen area: when the playfield changes, each
    /// segment is moved onto it and food that fell off it is put down again.
    pub fn update_bounds(&mut self, bounds: (u16, u16))
        requires
            old(self).wf(),
        ensures
            final(self).wf(),
            final(self).bounds == playfield_of(bounds),
            final(self).score == old(self).score,
            final(self).direction == old(self).direction,
            final(self).next_direction == old(self).next_direction,
            final(self).game_over == old(self).game_over,
            playfield_of(bounds) == old(self).bounds ==> {
                &&& final(self).snake@ == old(self).snake@
                &&& final(self).food == old(self).food
            },
            playfield_of(bounds) != old(self).bounds ==> {
                &&& final(self).snake@.len() == old(self).snake@.len()
                &&& forall|i: int|
                    0 <= i < old(self).snake@.len() ==> #[trigger] final(self).snake@[i] == clamp_point(
                        old(self).snake@[i],
                        final(self).bounds,
                    )
                &&& in_field(old(self).food, final(self).bounds) ==> final(self).food == old(self).food
                &&& !in_field(old(self).food, final(self).bounds) ==> food_ok(
                    final(self).snake@,
                    final(self).bounds,
                    final(self).food,
                )
            },
    {
        let new_playfield = Self::calculate_playfield(bounds);
        if new_playfield.0 != self.bounds.0 || new_playfield.1 != self.bounds.1 {
            self.bounds = new_playfield;
            let max_x = self.bounds.0 as i32 - 1;
            let max_y = self.bounds.1 as i32 - 1;
            let len = self.snake.len();
            let mut moved: VecDeque<(i32, i32)> = VecDeque::new();
            let mut i: usize = 0;
            while i < len
                invariant
                    len == self.snake@.len(),
                    i <= len,
                    max_x == self.bounds.0 - 1,
                    max_y == self.bounds.1 - 1,
                    self.bounds == new_playfield,
                    10 <= self.bounds.0 && 6 <= self.bounds.1,
                    moved@.len() == i,
                    forall|k: int| 0 <= k < i ==> #[trigger] moved@[k] == clamp_point(self.snake@[k], self.bounds),
                decreases len - i,
            {
                let s = self.snake[i];
                let x = if s.0 < 0 { 0 } else if s.0 > max_x { max_x } else { s.0 };
                let y = if s.1 < 0 { 0 } else if s.1 > max_y { max_y } else { s.1 };
                moved.push_back((x, y));
                i += 1;
            }
            self.snake = moved;
            if self.food.0 >= self.bounds.0 as i32 || self.food.1 >= self.bounds.1 as i32 {
                self.food = Self::spawn_food_position(&self.snake, self.bounds, &mut self.rng);
            }
        }
    }

    /// Asks for a turn on the next move; a turn back the way the snake came is ignored.
    pub fn set_direction(&mut self, dir: Direction)
        requires
            old(self).wf(),
        ensures
            final(self).wf(),
            final(self).next_direction == if opposite(old(self).direction, dir) {
                old(self).next_direction
            } else {
                dir
            },
            final(self).direction == old(self).direction,
            final(self).snake@ == old(self).snake@,
            final(self).food == old(self).food,
            final(self).score == old(self).score,
            final(self).bounds == old(self).bounds,
            final(self).game_over == old(self).game_over,
    {
        if !self.direction.is_opposite(&dir) {
            self.next_direction = dir;
        }
    }

    /// One move: the snake turns to the asked direction and its head steps.
    /// Running into a wall or into itself ends the game; reaching the
    /// food grows the snake by one segment, scores a point and puts new food
    /// down; otherwise the tail follows.
    pub fn move_snake(&mut self)
        requires
            old(self).wf(),
            old(self).score < u32::MAX,
        ensures
            final(self).wf(),
            final(self).direction == old(self).next_direction,
            !opposite(old(self).direction, final(self).direction),
            final(self).next_direction == old(self).next_direction,
            final(self).bounds == old(self).bounds,
            ({
                let head = old(self).next_head();
                let eats = head == old(self).food;
                if !in_field(head, old(self).bounds) || hits_body(old(self).snake@, head, !eats) {
                    &&& final(self).game_over
                    &&& final(self).snake@ == old(self).snake@
                    &&& final(self).score == old(self).score
                    &&& final(self).food == old(self).food
                } else if eats {
                    &&& final(self).game_over == old(self).game_over
                    &&& final(self).snake@ == seq![head] + old(self).snake@
                    &&& final(self).score == old(self).score + 1
                    &&& food_ok(final(self).snake@, final(self).bounds, final(self).food)
                } else {
                    &&& final(self).game_over == old(self).game_over
                    &&& final(self).snake@ == (seq![head] + old(self).snake@).drop_last()
                    &&& final(self).score == old(self).score
                    &&& final(self).food == old(self).food
                }
            }),
    {
        let ghost start = *self;
        self.direction = self.next_direction;
        let head = self.snake[0];
        assert(in_field(start.snake@[0], start.bounds));
        let (dx, dy) = self.direction.delta();
        let nx = head.0 + dx;
        let ny = head.1 + dy;
        let new_head = (nx, ny);
        assert(new_head == start.next_head());
        if nx < 0 || nx >= self.bounds.0 as i32 || ny < 0 || ny >= self.bounds.1 as i32 {
            self.game_over = true;
            return;
        }
        let eats = nx == self.food.0 && ny == self.food.1;
        if hits_snake(&self.snake, new_head, !eats) {
            self.game_over = true;
            return;
        }
        self.snake.push_front(new_head);
        if eats {
            self.score += 1;
            self.food = Self::spawn_food_position(&self.snake, self.bounds, &mut self.rng);
        } else {
            self.snake.pop_back();
        }
        assert forall|i: int| 0 <= i < self.snake@.len() implies in_field(#[trigger] self.snake@[i], self.bounds) by {
            if i > 0 {
                assert(self.snake@[i] == start.snake@[i - 1]);
            }
        }
    }

    /// A free cell of the playfield, at random, for the food; the corner (0, 0)
    /// when the snake covers every cell.
    fn spawn_food_position(snake: &VecDeque<(i32, i32)>, bounds: (u16, u16), rng: &mut ThreadRng) -> (p: (i32, i32))
        ensures
            food_ok(snake@, bounds, p),
    {
        let mut available: Vec<(i32, i32)> = Vec::new();
        let w = bounds.0 as i32;
        let h = bounds.1 as i32;
        let mut x: i32 = 0;
        while x < w
            invariant
                0 <= x <= w,
                w == bounds.0,
                h == bounds.1,
                forall|k: int| 0 <= k < available@.len() ==> free_cell(snake@, bounds, #[trigger] available@[k]),
                forall|p: (i32, i32)|
                    #[trigger] free_cell(snake@, bounds, p) && p.0 < x ==> available@.contains(p),
            decreases w - x,
        {
            let mut y: i32 = 0;
            while y < h
                invariant
                    0 <= x < w,
                    0 <= y <= h,
                    w == bounds.0,
                    h == bounds.1,
                    forall|k: int| 0 <= k < available@.len() ==> free_cell(snake@, bounds, #[trigger] available@[k]),
                    forall|p: (i32, i32)|
                        #[trigger] free_cell(snake@, bounds, p) && (p.0 < x || (p.0 == x && p.1 < y))
                            ==> available@.contains(p),
                decreases h - y,
            {
                if !snake_contains(snake, (x, y)) {
                    let ghost before = available@;
                    available.push((x, y));
                    assert(available@[before.len() as int] == (x, y));
                    assert forall|p: (i32, i32)| before.contains(p) implies available@.contains(p) by {
                        let k = choose|k: int| 0 <= k < before.len() && before[k] == p;
                        assert(available@[k] == p);
                    }
                }
                y += 1;
            }
            x += 1;
        }
        match pick(available.as_slice(), rng) {
            Some(p) => {
                let ghost k = choose|k: int| 0 <= k < available@.len() && available@[k] == p;
                assert(free_cell(snake@, bounds, available@[k]));
                p
            },
            None => {
                assert forall|p: (i32, i32)| !free_cell(snake@, bounds, p) by {
                    if free_cell(snake@, bounds, p) {
                        assert(available@.contains(p));
                    }
                }
                (0, 0)
            },
        }
    }

    /// Whether the game has ended.
    pub fn is_finished(&self) -> (r: bool)
        ensures
            r == self.game_over,
    {
        self.game_over
    }
}

} // verus!
