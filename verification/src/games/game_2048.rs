//! The 2048 sliding-tile game.
use vstd::prelude::*;
use crate::rng::{gen_range, thread_rng};
use rand::rngs::ThreadRng;

verus! {

/// Side length of the board.
pub const GAME_2048_SIZE: usize = 4;

/// The four directions in which the tiles can be pushed.
#[derive(Debug, Clone, Copy, PartialEq, Eq, Structural)]
pub enum Game2048Move {
    Up,
    Down,
    Left,
    Right,
}

/// The non-zero tiles of a line, in order.
pub open spec fn compact(s: Seq<u32>) -> Seq<u32>
    decreases s.len(),
{
    if s.len() == 0 {
        seq![]
    } else {
        let rest = compact(s.drop_last());
        if s.last() != 0 {
            rest.push(s.last())
        } else {
            rest
        }
    }
}

/// Merges equal neighbours of a packed line, left to right, each tile at most once.
pub open spec fn merge(s: Seq<u32>) -> Seq<u32>
    decreases s.len(),
{
    if s.len() == 0 {
        seq![]
    } else if s.len() >= 2 && s[0] == s[1] {
        seq![(s[0] * 2) as u32] + merge(s.subrange(2, s.len() as int))
    } else {
        seq![s[0]] + merge(s.subrange(1, s.len() as int))
    }
}

/// The points that `merge` earns: the sum of the merged tiles.
pub open spec fn merge_gain(s: Seq<u32>) -> int
    decreases s.len(),
{
    if s.len() == 0 {
        0
    } else if s.len() >= 2 && s[0] == s[1] {
        2 * s[0] + merge_gain(s.subrange(2, s.len() as int))
    } else {
        merge_gain(s.subrange(1, s.len() as int))
    }
}

/// Whether `merge` would double a tile past `u32::MAX`.
pub open spec fn merge_overflows(s: Seq<u32>) -> bool
    decreases s.len(),
{
    if s.len() == 0 {
        false
    } else if s.len() >= 2 && s[0] == s[1] {
        s[0] > 0x7fff_ffff || merge_overflows(s.subrange(2, s.len() as int))
    } else {
        merge_overflows(s.subrange(1, s.len() as int))
    }
}

/// A sequence padded with zeros up to length `n`.
pub open spec fn pad(s: Seq<u32>, n: nat) -> Seq<u32> {
    s + Seq::new((n - s.len()) as nat, |i: int| 0u32)
}

/// A line after it has been pushed towards its start: packed, merged, padded.
pub open spec fn slide(line: Seq<u32>) -> Seq<u32> {
    pad(merge(compact(line)), 4)
}

proof fn lemma_compact_len(s: Seq<u32>)
    ensures
        compact(s).len() <= s.len(),
    decreases s.len(),
{
    if s.len() > 0 {
        lemma_compact_len(s.drop_last());
    }
}

proof fn lemma_merge_len(s: Seq<u32>)
    ensures
        merge(s).len() <= s.len(),
    decreases s.len(),
{
    if s.len() >= 2 && s[0] == s[1] {
        lemma_merge_len(s.subrange(2, s.len() as int));
    } else if s.len() > 0 {
        lemma_merge_len(s.subrange(1, s.len() as int));
    }
}

proof fn lemma_merge_gain_nonneg(s: Seq<u32>)
    ensures
        merge_gain(s) >= 0,
    decreases s.len(),
{
    if s.len() >= 2 && s[0] == s[1] {
        lemma_merge_gain_nonneg(s.subrange(2, s.len() as int));
    } else if s.len() > 0 {
        lemma_merge_gain_nonneg(s.subrange(1, s.len() as int));
    }
}

/// Pushes one line towards its start: returns the new line, whether it changed,
/// and the points earned (saturating at `u32::MAX`).
pub fn slide_line(line: [u32; 4]) -> (res: ([u32; 4], bool, u32))
    requires
        !merge_overflows(compact(line@)),
    ensures
        res.0@ == slide(line@),
        res.1 == (slide(line@) != line@),
        res.2 == if merge_gain(compact(line@)) > u32::MAX { u32::MAX as int } else { merge_gain(compact(line@)) },
{
    let mut compacted: Vec<u32> = Vec::new();
    let mut i: usize = 0;
    while i < 4
        invariant
            0 <= i <= 4,
            compacted@ == compact(line@.subrange(0, i as int)),
        decreases 4 - i,
    {
        assert(line@.subrange(0, i + 1).drop_last() == line@.subrange(0, i as int));
        if line[i] != 0 {
            compacted.push(line[i]);
        }
        i += 1;
    }
    assert(line@.subrange(0, 4) == line@);
    proof {
        lemma_compact_len(line@);
    }
    let ghost c = compacted@;
    assert(c.subrange(0, c.len() as int) == c);
    proof {
        lemma_merge_gain_nonneg(c);
    }
    let mut merged: Vec<u32> = Vec::new();
    let mut gained: u32 = 0;
    let mut index: usize = 0;
    while index < compacted.len()
        invariant
            c == compacted@,
            c == compact(line@),
            c.len() <= 4,
            !merge_overflows(c),
            index <= c.len(),
            merged@ + merge(c.subrange(index as int, c.len() as int)) == merge(c),
            !merge_overflows(c.subrange(index as int, c.len() as int)),
            gained == if merge_gain(c) - merge_gain(c.subrange(index as int, c.len() as int)) > u32::MAX {
                u32::MAX as int
            } else {
                merge_gain(c) - merge_gain(c.subrange(index as int, c.len() as int))
            },
            merge_gain(c.subrange(index as int, c.len() as int)) <= merge_gain(c),
            merge_gain(c.subrange(index as int, c.len() as int)) >= 0,
        decreases c.len() - index,
    {
        let ghost rest = c.subrange(index as int, c.len() as int);
        proof {
            lemma_merge_gain_nonneg(rest.subrange(1, rest.len() as int));
            if rest.len() >= 2 {
                lemma_merge_gain_nonneg(rest.subrange(2, rest.len() as int));
            }
        }
        if index + 1 < compacted.len() && compacted[index] == compacted[index + 1] {
            assert(rest[0] == c[index as int] && rest[1] == c[index + 1]);
            assert(rest.subrange(2, rest.len() as int) == c.subrange(index + 2, c.len() as int));
            let next = compacted[index] * 2;
            merged.push(next);
            gained = gained.saturating_add(next);
            index += 2;
            assert(merged@ + merge(c.subrange(index as int, c.len() as int)) == merge(c));
        } else {
            assert(rest[0] == c[index as int]);
            assert(rest.subrange(1, rest.len() as int) == c.subrange(index + 1, c.len() as int));
            merged.push(compacted[index]);
            index += 1;
            assert(merged@ + merge(c.subrange(index as int, c.len() as int)) == merge(c));
        }
    }
    assert(c.subrange(c.len() as int, c.len() as int) == Seq::<u32>::empty());
    assert(merged@ == merge(c));
    proof {
        lemma_merge_len(c);
    }
    let mut out: [u32; 4] = [0u32; 4];
    let mut k: usize = 0;
    while k < merged.len()
        invariant
            merged@ == merge(c),
            merged@.len() <= 4,
            k <= merged@.len(),
            forall|j: int| 0 <= j < k ==> out@[j] == merged@[j],
            forall|j: int| k <= j < 4 ==> out@[j] == 0,
        decreases merged@.len() - k,
    {
        out[k] = merged[k];
        k += 1;
    }
    assert(out@ =~= slide(line@));
    let mut changed = false;
    let mut m: usize = 0;
    while m < 4
        invariant
            m <= 4,
            changed == exists|j: int| 0 <= j < m && out@[j] != line@[j],
        decreases 4 - m,
    {
        if out[m] != line[m] {
            changed = true;
        }
        m += 1;
    }
    proof {
        if slide(line@) != line@ {
            assert(!(out@ =~= line@));
        }
    }
    (out, changed, gained)
}


/// The sum of a sequence of tiles.
pub open spec fn tile_sum(s: Seq<u32>) -> int
    decreases s.len(),
{
    if s.len() == 0 {
        0
    } else {
        s[0] + tile_sum(s.subrange(1, s.len() as int))
    }
}

proof fn lemma_tile_sum_concat(a: Seq<u32>, b: Seq<u32>)
    ensures
        tile_sum(a + b) == tile_sum(a) + tile_sum(b),
    decreases a.len(),
{
    if a.len() > 0 {
        assert((a + b).subrange(1, (a + b).len() as int) == a.subrange(1, a.len() as int) + b);
        lemma_tile_sum_concat(a.subrange(1, a.len() as int), b);
    } else {
        assert(a + b == b);
    }
}

proof fn lemma_tile_sum_single(x: u32)
    ensures
        tile_sum(seq![x]) == x,
{
    assert(seq![x].subrange(1, 1) =~= Seq::<u32>::empty());
    assert(tile_sum(Seq::<u32>::empty()) == 0);
}

proof fn lemma_compact_sum(s: Seq<u32>)
    ensures
        tile_sum(compact(s)) == tile_sum(s),
        forall|i: int| 0 <= i < compact(s).len() ==> compact(s)[i] != 0,
    decreases s.len(),
{
    if s.len() > 0 {
        let d = s.drop_last();
        lemma_compact_sum(d);
        assert(s == d + seq![s.last()]);
        lemma_tile_sum_concat(d, seq![s.last()]);
        lemma_tile_sum_single(s.last());
        if s.last() != 0 {
            lemma_tile_sum_concat(compact(d), seq![s.last()]);
            assert(compact(d).push(s.last()) == compact(d) + seq![s.last()]);
        }
    }
}

proof fn lemma_merge_sum(s: Seq<u32>)
    requires
        !merge_overflows(s),
        forall|i: int| 0 <= i < s.len() ==> s[i] != 0,
    ensures
        tile_sum(merge(s)) == tile_sum(s),
        forall|i: int| 0 <= i < merge(s).len() ==> merge(s)[i] != 0,
    decreases s.len(),
{
    if s.len() >= 2 && s[0] == s[1] {
        let rest = s.subrange(2, s.len() as int);
        lemma_merge_sum(rest);
        lemma_tile_sum_concat(seq![(s[0] * 2) as u32], merge(rest));
        lemma_tile_sum_single((s[0] * 2) as u32);
        let tail = s.subrange(1, s.len() as int);
        assert(tail.subrange(1, tail.len() as int) == rest);
        assert(tile_sum(tail) == tail[0] + tile_sum(rest));
        assert(tile_sum(s) == s[0] + tile_sum(tail));
    } else if s.len() > 0 {
        let rest = s.subrange(1, s.len() as int);
        lemma_merge_sum(rest);
        lemma_tile_sum_concat(seq![s[0]], merge(rest));
        lemma_tile_sum_single(s[0]);
    }
}

proof fn lemma_zeros_sum(n: nat)
    ensures
        tile_sum(Seq::new(n, |i: int| 0u32)) == 0,
    decreases n,
{
    if n > 0 {
        lemma_zeros_sum((n - 1) as nat);
        assert(Seq::new(n, |i: int| 0u32).subrange(1, n as int) == Seq::new((n - 1) as nat, |i: int| 0u32));
    }
}

/// Pushing a line neither creates nor destroys value: the tiles of the pushed
/// line add up to the tiles of the line before the slide (merging two tiles gives their sum).
pub proof fn lemma_slide_preserves_sum(line: Seq<u32>)
    requires
        line.len() == 4,
        !merge_overflows(compact(line)),
    ensures
        tile_sum(slide(line)) == tile_sum(line),
{
    lemma_compact_sum(line);
    lemma_merge_sum(compact(line));
    lemma_compact_len(line);
    lemma_merge_len(compact(line));
    let m = merge(compact(line));
    lemma_tile_sum_concat(m, Seq::new((4 - m.len()) as nat, |i: int| 0u32));
    lemma_zeros_sum((4 - m.len()) as nat);
}

/// A pushed line is packed against its start: no empty cell comes before a tile.
pub proof fn lemma_slide_packed(line: Seq<u32>)
    requires
        line.len() == 4,
        !merge_overflows(compact(line)),
    ensures
        slide(line).len() == 4,
        forall|i: int, j: int| 0 <= i < j < 4 && slide(line)[i] == 0 ==> slide(line)[j] == 0,
{
    lemma_compact_sum(line);
    lemma_merge_sum(compact(line));
    lemma_slide_len(line);
}

/// The board as rows of cells.
pub type Board2048 = [[u32; 4]; 4];

/// Row `r` of a board, left to right.
pub open spec fn row_of(b: Board2048, r: int) -> Seq<u32> {
    b[r]@
}

/// Column `c` of a board, top to bottom.
pub open spec fn col_of(b: Board2048, c: int) -> Seq<u32> {
    Seq::new(4, |r: int| b[r][c])
}

/// A line of four read back to front.
pub open spec fn rev4(s: Seq<u32>) -> Seq<u32> {
    Seq::new(4, |i: int| s[3 - i])
}

/// The `k`-th line of a board, read in the direction the tiles are pushed to
/// (its first cell is the one the tiles pile up against).
pub open spec fn line_of(b: Board2048, dir: Game2048Move, k: int) -> Seq<u32> {
    match dir {
        Game2048Move::Left => row_of(b, k),
        Game2048Move::Right => rev4(row_of(b, k)),
        Game2048Move::Up => col_of(b, k),
        Game2048Move::Down => rev4(col_of(b, k)),
    }
}

/// The value of cell `(r, c)` once every line has been pushed towards `dir`.
pub open spec fn shifted_cell(b: Board2048, dir: Game2048Move, r: int, c: int) -> u32 {
    match dir {
        Game2048Move::Left => slide(line_of(b, dir, r))[c],
        Game2048Move::Right => slide(line_of(b, dir, r))[3 - c],
        Game2048Move::Up => slide(line_of(b, dir, c))[r],
        Game2048Move::Down => slide(line_of(b, dir, c))[3 - r],
    }
}

/// A board as a sequence of rows.
pub open spec fn board_view(b: Board2048) -> Seq<Seq<u32>> {
    Seq::new(4, |r: int| b[r]@)
}

/// The board with every cell empty.
pub open spec fn empty_board() -> Seq<Seq<u32>> {
    Seq::new(4, |r: int| Seq::new(4, |c: int| 0u32))
}

/// The board once every line has been pushed towards `dir`.
pub open spec fn shifted(b: Board2048, dir: Game2048Move) -> Seq<Seq<u32>> {
    Seq::new(4, |r: int| Seq::new(4, |c: int| shifted_cell(b, dir, r, c)))
}

/// The points of line `k`, saturating at `u32::MAX` as each line's sum does.
pub open spec fn line_gain(b: Board2048, dir: Game2048Move, k: int) -> int {
    let g = merge_gain(compact(line_of(b, dir, k)));
    if g > u32::MAX { u32::MAX as int } else { g }
}

/// The points that pushing towards `dir` earns, line by line.
pub open spec fn move_gain(b: Board2048, dir: Game2048Move) -> int {
    line_gain(b, dir, 0) + line_gain(b, dir, 1) + line_gain(b, dir, 2) + line_gain(b, dir, 3)
}

/// Pushing towards `dir` doubles no tile past `u32::MAX` and earns at most
/// `u32::MAX` points: the arithmetic of a move stays in range.
pub open spec fn move_in_range(b: Board2048, dir: Game2048Move) -> bool {
    &&& forall|k: int| 0 <= k < 4 ==> !merge_overflows(#[trigger] compact(line_of(b, dir, k)))
    &&& move_gain(b, dir) <= u32::MAX
}

/// Whether pushing `line` towards its start merges no tile past `u32::MAX`,
/// and if so the points it earns (not capped).
fn line_check(line: [u32; 4]) -> (r: (bool, u64))
    ensures
        r.0 == !merge_overflows(compact(line@)),
        r.0 ==> r.1 == merge_gain(compact(line@)),
{
    let mut compacted: Vec<u32> = Vec::new();
    let mut i: usize = 0;
    while i < 4
        invariant
            0 <= i <= 4,
            compacted@ == compact(line@.subrange(0, i as int)),
        decreases 4 - i,
    {
        assert(line@.subrange(0, i + 1).drop_last() == line@.subrange(0, i as int));
        if line[i] != 0 {
            compacted.push(line[i]);
        }
        i += 1;
    }
    assert(line@.subrange(0, 4) == line@);
    proof {
        lemma_compact_len(line@);
    }
    let ghost c = compacted@;
    assert(c.subrange(0, c.len() as int) == c);
    let mut gained: u64 = 0;
    let mut index: usize = 0;
    while index < compacted.len()
        invariant
            c == compacted@,
            c == compact(line@),
            c.len() <= 4,
            index <= c.len(),
            merge_overflows(c) == merge_overflows(c.subrange(index as int, c.len() as int)),
            !merge_overflows(c) ==> gained + merge_gain(c.subrange(index as int, c.len() as int)) == merge_gain(c),
            gained <= index * 0x7fff_ffff,
        decreases c.len() - index,
    {
        let ghost rest = c.subrange(index as int, c.len() as int);
        if index + 1 < compacted.len() && compacted[index] == compacted[index + 1] {
            assert(rest[0] == c[index as int] && rest[1] == c[index + 1]);
            assert(rest.subrange(2, rest.len() as int) == c.subrange(index + 2, c.len() as int));
            if compacted[index] > 0x7fff_ffff {
                return (false, 0);
            }
            gained = gained + 2 * compacted[index] as u64;
            index += 2;
        } else {
            assert(rest[0] == c[index as int]);
            assert(rest.subrange(1, rest.len() as int) == c.subrange(index + 1, c.len() as int));
            index += 1;
        }
    }
    assert(c.subrange(c.len() as int, c.len() as int) == Seq::<u32>::empty());
    (true, gained)
}

/// Some cell is empty or two neighbours are equal: a move is still possible.
pub open spec fn has_moves(m: Seq<Seq<u32>>) -> bool {
    ||| exists|r: int, c: int| 0 <= r < 4 && 0 <= c < 4 && m[r][c] == 0
    ||| exists|r: int, c: int| 0 <= r < 3 && 0 <= c < 4 && m[r + 1][c] == #[trigger] m[r][c]
    ||| exists|r: int, c: int| 0 <= r < 4 && 0 <= c < 3 && m[r][c + 1] == #[trigger] m[r][c]
}

/// Some cell of the board is empty.
pub open spec fn has_empty(m: Seq<Seq<u32>>) -> bool {
    exists|r: int, c: int| 0 <= r < 4 && 0 <= c < 4 && m[r][c] == 0
}

/// `after` is `before` with one empty cell filled with a 2 or a 4, or `before`
/// unchanged when it had no empty cell.
pub open spec fn one_tile_added(before: Seq<Seq<u32>>, after: Seq<Seq<u32>>) -> bool {
    if has_empty(before) {
        exists|r: int, c: int|
            #![trigger after[r][c]]
            0 <= r < 4 && 0 <= c < 4 && before[r][c] == 0 && (after[r][c] == 2 || after[r][c] == 4)
                && forall|r2: int, c2: int|
                0 <= r2 < 4 && 0 <= c2 < 4 && (r2 != r || c2 != c) ==> after[r2][c2] == before[r2][c2]
    } else {
        after == before
    }
}

/// The points of the first `n` lines of a move.
pub open spec fn partial_gain(b: Board2048, dir: Game2048Move, n: int) -> int {
    if n <= 0 {
        0
    } else if n == 1 {
        line_gain(b, dir, 0)
    } else if n == 2 {
        line_gain(b, dir, 0) + line_gain(b, dir, 1)
    } else if n == 3 {
        line_gain(b, dir, 0) + line_gain(b, dir, 1) + line_gain(b, dir, 2)
    } else {
        move_gain(b, dir)
    }
}

/// Pushing towards `dir` changes at least one cell.
pub open spec fn changes(b: Board2048, dir: Game2048Move) -> bool {
    exists|r: int, c: int| 0 <= r < 4 && 0 <= c < 4 && #[trigger] shifted_cell(b, dir, r, c) != b[r][c]
}

proof fn lemma_slide_len(line: Seq<u32>)
    requires
        line.len() == 4,
    ensures
        slide(line).len() == 4,
{
    lemma_compact_len(line);
    lemma_merge_len(compact(line));
}

proof fn lemma_line_gain_range(b: Board2048, dir: Game2048Move, k: int)
    ensures
        0 <= line_gain(b, dir, k) <= u32::MAX,
{
    lemma_merge_gain_nonneg(compact(line_of(b, dir, k)));
}

/// The 2048 game: a 4x4 board of tiles, a score, and whether it has ended.
#[derive(Debug)]
pub struct Game2048 {
    pub board: Board2048,
    pub score: u32,
    pub game_over: bool,
    pub rng: ThreadRng,
}

fn reverse4(a: [u32; 4]) -> (r: [u32; 4])
    ensures
        r@ == rev4(a@),
{
    let r = [a[3], a[2], a[1], a[0]];
    assert(r@ =~= rev4(a@));
    r
}

impl Game2048 {
    /// A fresh game: an empty board with two random tiles.
    pub fn new() -> (g: Game2048)
        ensures
            g.score == 0,
            !g.game_over,
            exists|before: Seq<Seq<u32>>|
                one_tile_added(empty_board(), before) && one_tile_added(before, board_view(g.board)),
    {
        let mut game = Game2048 { board: [[0u32; 4]; 4], score: 0, game_over: false, rng: thread_rng() };
        let ghost empty = board_view(game.board);
        assert(empty =~~= empty_board());
        game.add_random_tile();
        let ghost mid = board_view(game.board);
        game.add_random_tile();
        assert(one_tile_added(empty, mid));
        game
    }

    /// Clears the board and score and places two random tiles.
    pub fn reset(&mut self)
        ensures
            final(self).score == 0,
            !final(self).game_over,
            exists|before: Seq<Seq<u32>>|
                one_tile_added(empty_board(), before) && one_tile_added(before, board_view(final(self).board)),
    {
        self.board = [[0u32; 4]; 4];
        self.score = 0;
        self.game_over = false;
        let ghost empty = board_view(self.board);
        assert(empty =~~= empty_board());
        self.add_random_tile();
        let ghost mid = board_view(self.board);
        self.add_random_tile();
        assert(one_tile_added(empty, mid));
    }

    /// Line `k` of the board, read in the direction the tiles are pushed to.
    fn line_at(&self, dir: Game2048Move, k: usize) -> (r: [u32; 4])
        requires
            k < 4,
        ensures
            r@ == line_of(self.board, dir, k as int),
    {
        let b = &self.board;
        let r = match dir {
            Game2048Move::Left => [b[k][0], b[k][1], b[k][2], b[k][3]],
            Game2048Move::Right => [b[k][3], b[k][2], b[k][1], b[k][0]],
            Game2048Move::Up => [b[0][k], b[1][k], b[2][k], b[3][k]],
            Game2048Move::Down => [b[3][k], b[2][k], b[1][k], b[0][k]],
        };
        assert(r@ =~= line_of(self.board, dir, k as int));
        r
    }

    /// Whether a push towards `dir` stays within `u32` (see `move_in_range`);
    /// `make_move` asks this of a game that has not ended.
    pub fn move_fits(&self, dir: Game2048Move) -> (r: bool)
        ensures
            r == move_in_range(self.board, dir),
    {
        let (ok0, g0) = line_check(self.line_at(dir, 0));
        let (ok1, g1) = line_check(self.line_at(dir, 1));
        let (ok2, g2) = line_check(self.line_at(dir, 2));
        let (ok3, g3) = line_check(self.line_at(dir, 3));
        let ghost b = self.board;
        proof {
            assert(!ok0 ==> merge_overflows(compact(line_of(b, dir, 0))));
            assert(!ok1 ==> merge_overflows(compact(line_of(b, dir, 1))));
            assert(!ok2 ==> merge_overflows(compact(line_of(b, dir, 2))));
            assert(!ok3 ==> merge_overflows(compact(line_of(b, dir, 3))));
            if ok0 && ok1 && ok2 && ok3 {
                assert forall|k: int| 0 <= k < 4 implies !merge_overflows(#[trigger] compact(line_of(b, dir, k))) by {
                    if k == 0 {} else if k == 1 {} else if k == 2 {} else {}
                }
            }
        }
        if !(ok0 && ok1 && ok2 && ok3) {
            return false;
        }
        let m: u64 = u32::MAX as u64;
        let c0 = if g0 > m { m } else { g0 };
        let c1 = if g1 > m { m } else { g1 };
        let c2 = if g2 > m { m } else { g2 };
        let c3 = if g3 > m { m } else { g3 };
        c0 + c1 + c2 + c3 <= m
    }

    /// Whether the game has ended.
    pub fn is_finished(&self) -> (r: bool)
        ensures
            r == self.game_over,
    {
        self.game_over
    }

    /// The largest tile on the board.
    pub fn max_tile(&self) -> (m: u32)
        ensures
            forall|r: int, c: int| 0 <= r < 4 && 0 <= c < 4 ==> self.board[r][c] <= m,
            exists|r: int, c: int| 0 <= r < 4 && 0 <= c < 4 && self.board[r][c] == m,
    {
        let mut best: u32 = self.board[0][0];
        let mut row: usize = 0;
        while row < 4
            invariant
                row <= 4,
                forall|r: int, c: int| 0 <= r < row && 0 <= c < 4 ==> self.board[r][c] <= best,
                exists|r: int, c: int| 0 <= r < 4 && 0 <= c < 4 && self.board[r][c] == best,
            decreases 4 - row,
        {
            let mut col: usize = 0;
            while col < 4
                invariant
                    row < 4,
                    col <= 4,
                    forall|r: int, c: int| 0 <= r < row && 0 <= c < 4 ==> self.board[r][c] <= best,
                    forall|c: int| 0 <= c < col ==> self.board[row as int][c] <= best,
                    exists|r: int, c: int| 0 <= r < 4 && 0 <= c < 4 && self.board[r][c] == best,
                decreases 4 - col,
            {
                if self.board[row][col] > best {
                    best = self.board[row][col];
                }
                col += 1;
            }
            row += 1;
        }
        best
    }

    fn get_column(&self, col: usize) -> (r: [u32; 4])
        requires
            col < 4,
        ensures
            r@ == col_of(self.board, col as int),
    {
        let r = [self.board[0][col], self.board[1][col], self.board[2][col], self.board[3][col]];
        assert(r@ =~= col_of(self.board, col as int));
        r
    }

    fn set_column(&mut self, col: usize, values: [u32; 4])
        requires
            col < 4,
        ensures
            forall|r: int, c: int| 0 <= r < 4 && 0 <= c < 4 ==>
                final(self).board[r][c] == if c == col { values[r] } else { old(self).board[r][c] },
            final(self).score == old(self).score,
            final(self).game_over == old(self).game_over,
    {
        let mut row: usize = 0;
        while row < 4
            invariant
                row <= 4,
                col < 4,
                self.score == old(self).score,
                self.game_over == old(self).game_over,
                forall|r: int, c: int| 0 <= r < 4 && 0 <= c < 4 ==>
                    self.board[r][c] == if c == col && r < row { values[r] } else { old(self).board[r][c] },
            decreases 4 - row,
        {
            let mut line = self.board[row];
            line[col] = values[row];
            self.board[row] = line;
            row += 1;
        }
    }

    /// Places a 2 (nine times in ten) or a 4 on a random empty cell, if there is one.
    fn add_random_tile(&mut self)
        ensures
            one_tile_added(board_view(old(self).board), board_view(final(self).board)),
            final(self).score == old(self).score,
            final(self).game_over == old(self).game_over,
    {
        let mut empty_positions: Vec<(usize, usize)> = Vec::new();
        let mut row: usize = 0;
        while row < 4
            invariant
                row <= 4,
                forall|i: int| 0 <= i < empty_positions@.len() ==> {
                    let (r, c) = #[trigger] empty_positions@[i];
                    r < 4 && c < 4 && self.board[r as int][c as int] == 0
                },
                forall|r: int, c: int| 0 <= r < row && 0 <= c < 4 && self.board[r][c] == 0 ==>
                    empty_positions@.contains((r as usize, c as usize)),
                empty_positions@.len() <= row * 4,
            decreases 4 - row,
        {
            let mut col: usize = 0;
            while col < 4
                invariant
                    row < 4,
                    col <= 4,
                    forall|i: int| 0 <= i < empty_positions@.len() ==> {
                        let (r, c) = #[trigger] empty_positions@[i];
                        r < 4 && c < 4 && self.board[r as int][c as int] == 0
                    },
                    forall|r: int, c: int| 0 <= r < row && 0 <= c < 4 && self.board[r][c] == 0 ==>
                        empty_positions@.contains((r as usize, c as usize)),
                    forall|c: int| 0 <= c < col && self.board[row as int][c] == 0 ==>
                        empty_positions@.contains((row, c as usize)),
                    empty_positions@.len() <= row * 4 + col,
                decreases 4 - col,
            {
                if self.board[row][col] == 0 {
                    let ghost prev = empty_positions@;
                    empty_positions.push((row, col));
                    assert(empty_positions@[empty_positions@.len() - 1] == (row, col));
                    assert forall|p: (usize, usize)| prev.contains(p) implies empty_positions@.contains(p) by {
                        let i = choose|i: int| 0 <= i < prev.len() && prev[i] == p;
                        assert(empty_positions@[i] == p);
                    }
                }
                col += 1;
            }
            row += 1;
        }
        if empty_positions.len() == 0 {
            proof {
                if has_empty(board_view(self.board)) {
                    let (r, c) = choose|r: int, c: int| 0 <= r < 4 && 0 <= c < 4 && board_view(self.board)[r][c] == 0;
                    assert(empty_positions@.contains((r as usize, c as usize)));
                }
            }
            assert(board_view(old(self).board) =~= board_view(self.board));
            return;
        }
        let index = gen_range(&mut self.rng, 0, empty_positions.len() as u64) as usize;
        let (row, col) = empty_positions[index];
        assert(row < 4 && col < 4 && self.board[row as int][col as int] == 0) by {
            let t = empty_positions@[index as int];
        }
        let value: u32 = if gen_range(&mut self.rng, 0, 10) == 0 { 4 } else { 2 };
        let ghost before = board_view(self.board);
        let mut line = self.board[row];
        line[col] = value;
        self.board[row] = line;
        proof {
            let after = board_view(self.board);
            assert(before[row as int][col as int] == 0);
            assert(after[row as int][col as int] == value);
            assert(has_empty(before));
            assert(forall|r2: int, c2: int|
                0 <= r2 < 4 && 0 <= c2 < 4 && (r2 != row || c2 != col) ==> after[r2][c2] == before[r2][c2]);
        }
    }

    fn push_rows(&mut self, dir: Game2048Move) -> (res: (bool, u32))
        requires
            dir == Game2048Move::Left || dir == Game2048Move::Right,
            move_in_range(old(self).board, dir),
        ensures
            forall|r: int, c: int| 0 <= r < 4 && 0 <= c < 4 ==>
                final(self).board[r][c] == shifted_cell(old(self).board, dir, r, c),
            res.0 == changes(old(self).board, dir),
            res.1 == move_gain(old(self).board, dir),
            final(self).score == old(self).score,
            final(self).game_over == old(self).game_over,
    {
        let ghost b = self.board;
        let mut moved = false;
        let mut gained: u32 = 0;
        let mut row: usize = 0;
        while row < 4
            invariant
                row <= 4,
                dir == Game2048Move::Left || dir == Game2048Move::Right,
                move_in_range(b, dir),
                self.score == old(self).score,
                self.game_over == old(self).game_over,
                b == old(self).board,
                forall|r: int, c: int| 0 <= r < row && 0 <= c < 4 ==> self.board[r][c] == shifted_cell(b, dir, r, c),
                forall|r: int| row <= r < 4 ==> self.board[r] == b[r],
                moved == exists|r: int, c: int| 0 <= r < row && 0 <= c < 4 && #[trigger] shifted_cell(b, dir, r, c) != b[r][c],
                gained == partial_gain(b, dir, row as int),
            decreases 4 - row,
        {
            proof {
                lemma_slide_len(line_of(b, dir, row as int));
                lemma_line_gain_range(b, dir, row as int);
                lemma_line_gain_range(b, dir, 0);
                lemma_line_gain_range(b, dir, 1);
                lemma_line_gain_range(b, dir, 2);
                lemma_line_gain_range(b, dir, 3);
                assert(!merge_overflows(compact(line_of(b, dir, row as int))));
            }
            let ghost prev_moved = moved;
            if dir == Game2048Move::Left {
                assert(self.board[row as int]@ == line_of(b, dir, row as int));
                let (next, row_moved, row_gained) = slide_line(self.board[row]);
                proof {
                    if row_moved {
                        assert(!(next@ =~= b[row as int]@));
                        let c = choose|c: int| 0 <= c < 4 && next@[c] != b[row as int]@[c];
                        assert(shifted_cell(b, dir, row as int, c) != b[row as int][c]);
                    } else {
                        assert forall|c: int| 0 <= c < 4 implies #[trigger] shifted_cell(b, dir, row as int, c) == b[row as int][c] by {
                            assert(next@ == b[row as int]@);
                        }
                    }
                }
                if row_moved {
                    self.board[row] = next;
                    moved = true;
                }
                gained = gained + row_gained;
            } else {
                let reversed = reverse4(self.board[row]);
                assert(reversed@ == line_of(b, dir, row as int));
                let (next, row_moved, row_gained) = slide_line(reversed);
                let back = reverse4(next);
                proof {
                    if row_moved {
                        assert(!(next@ =~= reversed@));
                        let c = choose|c: int| 0 <= c < 4 && next@[c] != reversed@[c];
                        assert(shifted_cell(b, dir, row as int, 3 - c) != b[row as int][3 - c]);
                    } else {
                        assert forall|c: int| 0 <= c < 4 implies #[trigger] shifted_cell(b, dir, row as int, c) == b[row as int][c] by {
                            assert(next@ == reversed@);
                        }
                    }
                }
                if row_moved {
                    self.board[row] = back;
                    moved = true;
                }
                gained = gained + row_gained;
            }
            row += 1;
        }
        (moved, gained)
    }

    fn push_cols(&mut self, dir: Game2048Move) -> (res: (bool, u32))
        requires
            dir == Game2048Move::Up || dir == Game2048Move::Down,
            move_in_range(old(self).board, dir),
        ensures
            forall|r: int, c: int| 0 <= r < 4 && 0 <= c < 4 ==>
                final(self).board[r][c] == shifted_cell(old(self).board, dir, r, c),
            res.0 == changes(old(self).board, dir),
            res.1 == move_gain(old(self).board, dir),
            final(self).score == old(self).score,
            final(self).game_over == old(self).game_over,
    {
        let ghost b = self.board;
        let mut moved = false;
        let mut gained: u32 = 0;
        let mut col: usize = 0;
        while col < 4
            invariant
                col <= 4,
                dir == Game2048Move::Up || dir == Game2048Move::Down,
                move_in_range(b, dir),
                self.score == old(self).score,
                self.game_over == old(self).game_over,
                b == old(self).board,
                forall|r: int, c: int| 0 <= r < 4 && 0 <= c < col ==> self.board[r][c] == shifted_cell(b, dir, r, c),
                forall|r: int, c: int| 0 <= r < 4 && col <= c < 4 ==> self.board[r][c] == b[r][c],
                moved == exists|r: int, c: int| 0 <= r < 4 && 0 <= c < col && #[trigger] shifted_cell(b, dir, r, c) != b[r][c],
                gained == partial_gain(b, dir, col as int),
            decreases 4 - col,
        {
            proof {
                lemma_slide_len(line_of(b, dir, col as int));
                lemma_line_gain_range(b, dir, col as int);
                lemma_line_gain_range(b, dir, 0);
                lemma_line_gain_range(b, dir, 1);
                lemma_line_gain_range(b, dir, 2);
                lemma_line_gain_range(b, dir, 3);
                assert(!merge_overflows(compact(line_of(b, dir, col as int))));
            }
            let column = self.get_column(col);
            assert(column@ =~= col_of(b, col as int));
            if dir == Game2048Move::Up {
                let (next, col_moved, col_gained) = slide_line(column);
                proof {
                    if col_moved {
                        assert(!(next@ =~= column@));
                        let r = choose|r: int| 0 <= r < 4 && next@[r] != column@[r];
                        assert(shifted_cell(b, dir, r, col as int) != b[r][col as int]);
                    } else {
                        assert forall|r: int| 0 <= r < 4 implies #[trigger] shifted_cell(b, dir, r, col as int) == b[r][col as int] by {
                            assert(next@ == column@);
                        }
                    }
                }
                if col_moved {
                    self.set_column(col, next);
                    moved = true;
                }
                gained = gained + col_gained;
            } else {
                let reversed = reverse4(column);
                assert(reversed@ =~= line_of(b, dir, col as int));
                let (next, col_moved, col_gained) = slide_line(reversed);
                let back = reverse4(next);
                proof {
                    if col_moved {
                        assert(!(next@ =~= reversed@));
                        let r = choose|r: int| 0 <= r < 4 && next@[r] != reversed@[r];
                        assert(shifted_cell(b, dir, 3 - r, col as int) != b[3 - r][col as int]);
                    } else {
                        assert forall|r: int| 0 <= r < 4 implies #[trigger] shifted_cell(b, dir, r, col as int) == b[r][col as int] by {
                            assert(next@ == reversed@);
                        }
                    }
                }
                if col_moved {
                    self.set_column(col, back);
                    moved = true;
                }
                gained = gained + col_gained;
            }
            col += 1;
        }
        (moved, gained)
    }

    /// Pushes every line towards `direction`. When a tile moves, the points of the
    /// merges are added (saturating), a random tile appears, and the game ends if
    /// no move is left; when nothing moves, the game ends if no move is left.
    /// Returns whether anything moved. An ended game does not change.
    pub fn make_move(&mut self, direction: Game2048Move) -> (moved: bool)
        requires
            old(self).game_over || move_in_range(old(self).board, direction),
        ensures
            old(self).game_over ==> !moved && *final(self) == *old(self),
            !old(self).game_over ==> {
                &&& moved == changes(old(self).board, direction)
                &&& moved ==> {
                    &&& final(self).score as int == if old(self).score + move_gain(old(self).board, direction) > u32::MAX {
                        u32::MAX as int
                    } else {
                        old(self).score + move_gain(old(self).board, direction)
                    }
                    &&& one_tile_added(shifted(old(self).board, direction), board_view(final(self).board))
                    &&& final(self).game_over == !has_moves(board_view(final(self).board))
                }
                &&& !moved ==> {
                    &&& final(self).board == old(self).board
                    &&& final(self).score == old(self).score
                    &&& final(self).game_over == !has_moves(board_view(old(self).board))
                }
            },
    {
        if self.game_over {
            return false;
        }
        let ghost b = self.board;
        let (moved, gained) = match direction {
            Game2048Move::Left | Game2048Move::Right => self.push_rows(direction),
            Game2048Move::Up | Game2048Move::Down => self.push_cols(direction),
        };
        if moved {
            assert(board_view(self.board) =~~= shifted(b, direction));
            self.score = self.score.saturating_add(gained);
            self.add_random_tile();
            if !self.has_moves() {
                self.game_over = true;
            }
        } else {
            assert(self.board =~= b) by {
                assert forall|r: int| 0 <= r < 4 implies self.board[r] =~= b[r] by {
                    assert forall|c: int| 0 <= c < 4 implies self.board[r][c] == b[r][c] by {
                        assert(shifted_cell(b, direction, r, c) == b[r][c]);
                    }
                }
            }
            if !self.has_moves() {
                self.game_over = true;
            }
        }
        moved
    }

    fn has_moves(&self) -> (r: bool)
        ensures
            r == has_moves(board_view(self.board)),
    {
        let ghost m = board_view(self.board);
        let mut row: usize = 0;
        while row < 4
            invariant
                row <= 4,
                m == board_view(self.board),
                forall|r: int, c: int| 0 <= r < row && 0 <= c < 4 ==> m[r][c] != 0,
            decreases 4 - row,
        {
            let mut col: usize = 0;
            while col < 4
                invariant
                    row < 4,
                    col <= 4,
                    m == board_view(self.board),
                    forall|r: int, c: int| 0 <= r < row && 0 <= c < 4 ==> m[r][c] != 0,
                    forall|c: int| 0 <= c < col ==> m[row as int][c] != 0,
                decreases 4 - col,
            {
                if self.board[row][col] == 0 {
                    assert(m[row as int][col as int] == 0);
                    return true;
                }
                col += 1;
            }
            row += 1;
        }
        let mut row: usize = 0;
        while row < 4
            invariant
                row <= 4,
                m == board_view(self.board),
                forall|r: int, c: int| 0 <= r < 4 && 0 <= c < 4 ==> m[r][c] != 0,
                forall|r: int, c: int| 0 <= r < row && r < 3 && 0 <= c < 4 ==> m[r + 1][c] != #[trigger] m[r][c],
                forall|r: int, c: int| 0 <= r < row && 0 <= c < 3 ==> m[r][c + 1] != #[trigger] m[r][c],
            decreases 4 - row,
        {
            let mut col: usize = 0;
            while col < 4
                invariant
                    row < 4,
                    col <= 4,
                    m == board_view(self.board),
                    forall|r: int, c: int| 0 <= r < 4 && 0 <= c < 4 ==> m[r][c] != 0,
                    forall|r: int, c: int| 0 <= r < row && r < 3 && 0 <= c < 4 ==> m[r + 1][c] != #[trigger] m[r][c],
                    forall|r: int, c: int| 0 <= r < row && 0 <= c < 3 ==> m[r][c + 1] != #[trigger] m[r][c],
                    forall|c: int| 0 <= c < col && row < 3 ==> m[row + 1][c] != #[trigger] m[row as int][c],
                    forall|c: int| 0 <= c < col && c < 3 ==> m[row as int][c + 1] != #[trigger] m[row as int][c],
                decreases 4 - col,
            {
                let value = self.board[row][col];
                if row + 1 < 4 && self.board[row + 1][col] == value {
                    assert(m[row + 1][col as int] == m[row as int][col as int]);
                    return true;
                }
                if col + 1 < 4 && self.board[row][col + 1] == value {
                    assert(m[row as int][col + 1] == m[row as int][col as int]);
                    return true;
                }
                col += 1;
            }
            row += 1;
        }
        false
    }
}

} // verus!
