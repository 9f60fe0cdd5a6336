//! Tetris with the seven-bag randomizer, SRS wall kicks, hold, T-spins and
//! five modes. Timing (gravity and lock delay) is measured by the caller, which
//! reports to `TetrisGame::advance` whether a lock delay ran out and whether a
//! gravity step is due.
use vstd::prelude::*;
use crate::rng::{gen_range, shuffle, thread_rng};
use rand::rngs::ThreadRng;

verus! {

/// Width of the playfield in cells.
pub const TETRIS_GRID_WIDTH: usize = 10;
/// Height of the playfield in cells.
pub const TETRIS_GRID_HEIGHT: usize = 20;
/// Rows of garbage that Dig mode starts with.
pub const TETRIS_DIG_GARBAGE_ROWS: usize = 10;

/// The game modes.
#[derive(Debug, Clone, Copy, PartialEq, Eq, Structural)]
pub enum TetrisMode {
    /// Classic mode with level progression.
    Normal,
    /// Race to clear 40 lines.
    Sprint,
    /// No speed increase.
    Zen,
    /// Clear pre-filled garbage lines.
    Dig,
    /// Increasingly fast.
    Survival,
}

impl TetrisMode {
    /// The name of the mode as shown to the player.
    pub fn name(&self) -> (s: &'static str)
        ensures
            s@ == mode_name(*self)@,
    {
        match self {
            TetrisMode::Normal => "Normal",
            TetrisMode::Sprint => "Sprint",
            TetrisMode::Zen => "Zen",
            TetrisMode::Dig => "Dig",
            TetrisMode::Survival => "Survival",
        }
    }
}

/// The name of a mode.
pub open spec fn mode_name(m: TetrisMode) -> &'static str {
    match m {
        TetrisMode::Normal => "Normal",
        TetrisMode::Sprint => "Sprint",
        TetrisMode::Zen => "Zen",
        TetrisMode::Dig => "Dig",
        TetrisMode::Survival => "Survival",
    }
}

/// The seven tetromino types.
#[derive(Debug, Clone, Copy, PartialEq, Eq, Structural)]
pub enum PieceType {
    I,
    O,
    T,
    S,
    Z,
    J,
    L,
}

/// The seven piece types in their fixed order.
pub open spec fn all_pieces() -> Seq<PieceType> {
    seq![PieceType::I, PieceType::O, PieceType::T, PieceType::S, PieceType::Z, PieceType::J, PieceType::L]
}

/// The 4x4 picture of a piece in spawn orientation, as `(row, column)` cells.
pub open spec fn shape_cells(p: PieceType) -> Seq<(int, int)> {
    match p {
        PieceType::I => seq![(1, 0), (1, 1), (1, 2), (1, 3)],
        PieceType::O => seq![(0, 1), (0, 2), (1, 1), (1, 2)],
        PieceType::T => seq![(0, 1), (1, 0), (1, 1), (1, 2)],
        PieceType::S => seq![(0, 1), (0, 2), (1, 0), (1, 1)],
        PieceType::Z => seq![(0, 0), (0, 1), (1, 1), (1, 2)],
        PieceType::J => seq![(0, 0), (1, 0), (1, 1), (1, 2)],
        PieceType::L => seq![(0, 2), (1, 0), (1, 1), (1, 2)],
    }
}

fn shape_row(a: bool, b: bool, c: bool, d: bool) -> (r: Vec<bool>)
    ensures
        r@ == seq![a, b, c, d],
{
    let mut r = Vec::new();
    r.push(a);
    r.push(b);
    r.push(c);
    r.push(d);
    r
}

impl PieceType {
    /// The 4x4 picture of the piece: `shape[row][col]` is set on its cells.
    pub fn shape(&self) -> (s: Vec<Vec<bool>>)
        ensures
            s@.len() == 4,
            forall|r: int| 0 <= r < 4 ==> #[trigger] s@[r]@.len() == 4,
            forall|r: int, c: int| 0 <= r < 4 && 0 <= c < 4 ==>
                (s@[r]@[c] <==> shape_cells(*self).contains((r, c))),
    {
        let (r0, r1) = match self {
            PieceType::I => (shape_row(false, false, false, false), shape_row(true, true, true, true)),
            PieceType::O => (shape_row(false, true, true, false), shape_row(false, true, true, false)),
            PieceType::T => (shape_row(false, true, false, false), shape_row(true, true, true, false)),
            PieceType::S => (shape_row(false, true, true, false), shape_row(true, true, false, false)),
            PieceType::Z => (shape_row(true, true, false, false), shape_row(false, true, true, false)),
            PieceType::J => (shape_row(true, false, false, false), shape_row(true, true, true, false)),
            PieceType::L => (shape_row(false, false, true, false), shape_row(true, true, true, false)),
        };
        let mut s = Vec::new();
        s.push(r0);
        s.push(r1);
        s.push(shape_row(false, false, false, false));
        s.push(shape_row(false, false, false, false));
        proof {
            let cells = shape_cells(*self);
            assert forall|r: int, c: int| 0 <= r < 4 && 0 <= c < 4 implies
                (s@[r]@[c] <==> cells.contains((r, c))) by {
                if s@[r]@[c] {
                    let i = choose|i: int| 0 <= i < 4 && #[trigger] cells[i] == (r, c);
                    assert(cells[0] == (r, c) || cells[1] == (r, c) || cells[2] == (r, c) || cells[3] == (r, c)) by {
                        assert(cells[i] == (r, c));
                    }
                } else {
                    assert(!cells.contains((r, c))) by {
                        if cells.contains((r, c)) {
                            let i = choose|i: int| 0 <= i < cells.len() && cells[i] == (r, c);
                            assert(0 <= i < 4);
                        }
                    }
                }
            }
        }
        s
    }

    /// All seven piece types.
    pub fn all() -> (a: [PieceType; 7])
        ensures
            a@ == all_pieces(),
    {
        let a = [PieceType::I, PieceType::O, PieceType::T, PieceType::S, PieceType::Z, PieceType::J, PieceType::L];
        assert(a@ =~= all_pieces());
        a
    }
}

/// The four orientations of a piece.
#[derive(Debug, Clone, Copy, PartialEq, Eq, Structural)]
pub enum RotationState {
    /// Spawn state.
    Zero,
    /// Clockwise from spawn.
    R,
    /// 180 degrees from spawn.
    Two,
    /// Counter-clockwise from spawn.
    L,
}

/// The number of clockwise quarter turns from spawn.
pub open spec fn rotation_index(r: RotationState) -> nat {
    match r {
        RotationState::Zero => 0,
        RotationState::R => 1,
        RotationState::Two => 2,
        RotationState::L => 3,
    }
}

/// The orientation after `n` clockwise quarter turns from spawn.
pub open spec fn rotation_of(n: int) -> RotationState {
    let k = n % 4;
    if k == 0 {
        RotationState::Zero
    } else if k == 1 {
        RotationState::R
    } else if k == 2 {
        RotationState::Two
    } else {
        RotationState::L
    }
}

impl RotationState {
    /// The orientation after `val` clockwise quarter turns (taken modulo 4).
    pub fn from_u8(val: u8) -> (r: RotationState)
        ensures
            r == rotation_of(val as int),
    {
        match val % 4 {
            0 => RotationState::Zero,
            1 => RotationState::R,
            2 => RotationState::Two,
            _ => RotationState::L,
        }
    }

    /// The number of clockwise quarter turns from spawn.
    pub fn to_u8(self) -> (n: u8)
        ensures
            n == rotation_index(self),
    {
        match self {
            RotationState::Zero => 0,
            RotationState::R => 1,
            RotationState::Two => 2,
            RotationState::L => 3,
        }
    }
}

/// The cells of a piece in spawn orientation, relative to its position.
pub open spec fn base_offsets(p: PieceType) -> Seq<(i32, i32)> {
    match p {
        PieceType::T => seq![(1i32, 0i32), (0, 1), (1, 1), (2, 1)],
        PieceType::J => seq![(0i32, 0i32), (0, 1), (1, 1), (2, 1)],
        PieceType::L => seq![(2i32, 0i32), (0, 1), (1, 1), (2, 1)],
        PieceType::S => seq![(1i32, 0i32), (2, 0), (0, 1), (1, 1)],
        PieceType::Z => seq![(0, 0), (1, 0), (1, 1), (2, 1)],
        PieceType::O => seq![(1i32, 0i32), (2, 0), (1, 1), (2, 1)],
        PieceType::I => seq![(0i32, 1i32), (1, 1), (2, 1), (3, 1)],
    }
}

/// One clockwise quarter turn of a cell: around (1.5, 1.5) for the I piece,
/// around (1, 1) for the others.
pub open spec fn turn_offset(p: PieceType, o: (i32, i32)) -> (i32, i32) {
    if p == PieceType::I {
        ((3 - o.1) as i32, o.0)
    } else {
        ((2 - o.1) as i32, o.0)
    }
}

/// The cells after `k` clockwise quarter turns of every cell.
pub open spec fn turned_offsets(p: PieceType, k: nat) -> Seq<(i32, i32)>
    decreases k,
{
    if k == 0 {
        base_offsets(p)
    } else {
        turned_offsets(p, (k - 1) as nat).map_values(|o: (i32, i32)| turn_offset(p, o))
    }
}

/// The cells of a piece in an orientation, relative to its position
/// (the O piece does not turn).
pub open spec fn piece_offsets(p: PieceType, r: RotationState) -> Seq<(i32, i32)> {
    if p == PieceType::O {
        base_offsets(p)
    } else {
        turned_offsets(p, rotation_index(r))
    }
}

/// Every cell offset of the piece lies in its 4x4 box, and there are four.
pub proof fn lemma_offsets_in_box(p: PieceType, r: RotationState)
    ensures
        piece_offsets(p, r).len() == 4,
        forall|i: int| 0 <= i < 4 ==> {
            let o = #[trigger] piece_offsets(p, r)[i];
            0 <= o.0 <= 3 && 0 <= o.1 <= 3
        },
{
    lemma_turned_in_box(p, rotation_index(r));
}

proof fn lemma_turned_in_box(p: PieceType, k: nat)
    ensures
        turned_offsets(p, k).len() == 4,
        forall|i: int| 0 <= i < 4 ==> {
            let o = #[trigger] turned_offsets(p, k)[i];
            0 <= o.0 <= 3 && 0 <= o.1 <= 3 && (p != PieceType::I ==> o.0 <= 2 && o.1 <= 2)
        },
    decreases k,
{
    if k > 0 {
        lemma_turned_in_box(p, (k - 1) as nat);
    }
}

/// The picture of a piece type (`shape`) shows exactly where a piece of that
/// type lies when it spawns: four distinct cells, and cell (row, column) of the
/// picture is set just when (column, row) is a block of the piece in spawn
/// orientation with its box at the origin.
pub proof fn lemma_shape_is_spawn_cells(t: PieceType)
    ensures
        shape_cells(t).len() == 4,
        shape_cells(t).no_duplicates(),
        forall|r: int, c: int|
            #![trigger shape_cells(t).contains((r, c))]
            shape_cells(t).contains((r, c)) <==> piece_cells(
                Piece { piece_type: t, x: 0, y: 0, rotation: RotationState::Zero },
            ).contains((c, r)),
{
    let p = Piece { piece_type: t, x: 0, y: 0, rotation: RotationState::Zero };
    let cells = shape_cells(t);
    let swapped = cells.map_values(|rc: (int, int)| (rc.1, rc.0));
    assert(piece_offsets(t, RotationState::Zero) == base_offsets(t));
    assert(piece_cells(p) =~= swapped);
    assert forall|r: int, c: int|
        #![trigger cells.contains((r, c))]
        cells.contains((r, c)) <==> piece_cells(p).contains((c, r)) by {
        if cells.contains((r, c)) {
            let i = choose|i: int| 0 <= i < cells.len() && cells[i] == (r, c);
            assert(swapped[i] == (c, r));
        }
        if swapped.contains((c, r)) {
            let i = choose|i: int| 0 <= i < swapped.len() && swapped[i] == (c, r);
            assert(cells[i] == (r, c));
        }
    }
}

/// The four cells of a sequence of four are pairwise different.
pub open spec fn four_distinct(s: Seq<(i32, i32)>) -> bool {
    &&& s[0] != s[1] && s[0] != s[2] && s[0] != s[3]
    &&& s[1] != s[2] && s[1] != s[3]
    &&& s[2] != s[3]
}

/// Each orientation of the piece type has four different cells.
pub open spec fn orientations_distinct(t: PieceType) -> bool {
    &&& four_distinct(piece_offsets(t, RotationState::Zero))
    &&& four_distinct(piece_offsets(t, RotationState::R))
    &&& four_distinct(piece_offsets(t, RotationState::Two))
    &&& four_distinct(piece_offsets(t, RotationState::L))
}

/// A piece covers four different cells, whatever its type, orientation and
/// position.
pub proof fn lemma_blocks_distinct(p: Piece)
    ensures
        piece_cells(p).len() == 4,
        piece_cells(p).no_duplicates(),
{
    assert(orientations_distinct(PieceType::I)) by { reveal_with_fuel(turned_offsets, 4); }
    assert(orientations_distinct(PieceType::O)) by { reveal_with_fuel(turned_offsets, 4); }
    assert(orientations_distinct(PieceType::T)) by { reveal_with_fuel(turned_offsets, 4); }
    assert(orientations_distinct(PieceType::S)) by { reveal_with_fuel(turned_offsets, 4); }
    assert(orientations_distinct(PieceType::Z)) by { reveal_with_fuel(turned_offsets, 4); }
    assert(orientations_distinct(PieceType::J)) by { reveal_with_fuel(turned_offsets, 4); }
    assert(orientations_distinct(PieceType::L)) by { reveal_with_fuel(turned_offsets, 4); }
    lemma_offsets_in_box(p.piece_type, p.rotation);
    let o = piece_offsets(p.piece_type, p.rotation);
    let c = piece_cells(p);
    assert(four_distinct(o));
    assert forall|i: int, j: int| 0 <= i < 4 && 0 <= j < 4 && i != j implies c[i] != c[j] by {
        assert(o[i] != o[j]);
        assert(c[i] == (p.x + o[i].0, p.y + o[i].1));
        assert(c[j] == (p.x + o[j].0, p.y + o[j].1));
    }
}

/// A piece on the playfield: its type, the position of its 4x4 box, and its orientation.
#[derive(Debug, Clone, Copy, PartialEq, Eq, Structural)]
pub struct Piece {
    pub piece_type: PieceType,
    pub x: i32,
    pub y: i32,
    pub rotation: RotationState,
}

/// The playfield cells that a piece covers.
pub open spec fn piece_cells(p: Piece) -> Seq<(int, int)> {
    piece_offsets(p.piece_type, p.rotation).map_values(|o: (i32, i32)| (p.x + o.0, p.y + o.1))
}

/// The cells of the piece can be computed without leaving `i32`.
pub open spec fn piece_in_range(p: Piece) -> bool {
    p.x + 3 <= i32::MAX && p.y + 3 <= i32::MAX
}

/// The column where pieces spawn.
pub open spec fn spawn_x() -> i32 {
    3
}

impl Piece {
    /// A piece of the given type at the spawn position, in spawn orientation.
    pub fn new(piece_type: PieceType) -> (p: Piece)
        ensures
            p == (Piece { piece_type, x: spawn_x(), y: 0, rotation: RotationState::Zero }),
    {
        Piece { piece_type, x: (TETRIS_GRID_WIDTH as i32 / 2) - 2, y: 0, rotation: RotationState::Zero }
    }

    /// The playfield cells (column, row) that the piece covers.
    pub fn blocks(&self) -> (b: Vec<(i32, i32)>)
        requires
            piece_in_range(*self),
        ensures
            b@.len() == 4,
            forall|i: int| 0 <= i < 4 ==> (b@[i].0 as int, b@[i].1 as int) == #[trigger] piece_cells(*self)[i],
    {
        let offsets = blocks_for_piece(self.piece_type, self.rotation);
        proof {
            lemma_offsets_in_box(self.piece_type, self.rotation);
        }
        let mut blocks: Vec<(i32, i32)> = Vec::new();
        let mut i: usize = 0;
        while i < offsets.len()
            invariant
                offsets@ == piece_offsets(self.piece_type, self.rotation),
                offsets@.len() == 4,
                forall|j: int| 0 <= j < 4 ==> {
                    let o = #[trigger] offsets@[j];
                    0 <= o.0 <= 3 && 0 <= o.1 <= 3
                },
                piece_in_range(*self),
                i <= 4,
                blocks@.len() == i,
                forall|j: int| 0 <= j < i ==> (blocks@[j].0 as int, blocks@[j].1 as int) == #[trigger] piece_cells(*self)[j],
            decreases 4 - i,
        {
            let (dx, dy) = offsets[i];
            assert(offsets@[i as int] == (dx, dy));
            blocks.push((self.x + dx, self.y + dy));
            i += 1;
        }
        blocks
    }
}

/// The cells of a piece type in an orientation, relative to the piece position.
pub fn blocks_for_piece(piece_type: PieceType, rotation: RotationState) -> (r: Vec<(i32, i32)>)
    ensures
        r@ == piece_offsets(piece_type, rotation),
{
    let mut base: Vec<(i32, i32)> = Vec::new();
    match piece_type {
        PieceType::T => { base.push((1, 0)); base.push((0, 1)); base.push((1, 1)); base.push((2, 1)); }
        PieceType::J => { base.push((0, 0)); base.push((0, 1)); base.push((1, 1)); base.push((2, 1)); }
        PieceType::L => { base.push((2, 0)); base.push((0, 1)); base.push((1, 1)); base.push((2, 1)); }
        PieceType::S => { base.push((1, 0)); base.push((2, 0)); base.push((0, 1)); base.push((1, 1)); }
        PieceType::Z => { base.push((0, 0)); base.push((1, 0)); base.push((1, 1)); base.push((2, 1)); }
        PieceType::O => { base.push((1, 0)); base.push((2, 0)); base.push((1, 1)); base.push((2, 1)); }
        PieceType::I => { base.push((0, 1)); base.push((1, 1)); base.push((2, 1)); base.push((3, 1)); }
    }
    assert(base@ =~= base_offsets(piece_type));
    let rotations = rotation.to_u8();
    if piece_type == PieceType::O || rotations == 0 {
        return base;
    }
    let mut rotated = base;
    let mut k: u8 = 0;
    while k < rotations
        invariant
            k <= rotations <= 3,
            rotations == rotation_index(rotation),
            rotated@ == turned_offsets(piece_type, k as nat),
        decreases rotations - k,
    {
        proof {
            lemma_turned_in_box(piece_type, k as nat);
        }
        let mut next: Vec<(i32, i32)> = Vec::new();
        let mut i: usize = 0;
        while i < rotated.len()
            invariant
                rotated@ == turned_offsets(piece_type, k as nat),
                rotated@.len() == 4,
                forall|j: int| 0 <= j < 4 ==> {
                    let o = #[trigger] rotated@[j];
                    0 <= o.0 <= 3 && 0 <= o.1 <= 3
                },
                i <= 4,
                next@.len() == i,
                forall|j: int| 0 <= j < i ==> next@[j] == turn_offset(piece_type, #[trigger] rotated@[j]),
            decreases 4 - i,
        {
            let (x, y) = rotated[i];
            let turned = if piece_type == PieceType::I { (3 - y, x) } else { (2 - y, x) };
            next.push(turned);
            i += 1;
        }
        assert(next@ =~= turned_offsets(piece_type, (k + 1) as nat));
        rotated = next;
        k += 1;
    }
    rotated
}

/// SRS wall-kick offsets for the J, L, S, T and Z pieces (y grows downwards).
pub open spec fn jlstz_kicks(from: RotationState, to: RotationState) -> Seq<(int, int)> {
    match (from, to) {
        (RotationState::Zero, RotationState::R) => seq![(0, 0), (-1, 0), (-1, -1), (0, 2), (-1, 2)],
        (RotationState::R, RotationState::Zero) => seq![(0, 0), (1, 0), (1, 1), (0, -2), (1, -2)],
        (RotationState::R, RotationState::Two) => seq![(0, 0), (1, 0), (1, 1), (0, -2), (1, -2)],
        (RotationState::Two, RotationState::R) => seq![(0, 0), (-1, 0), (-1, -1), (0, 2), (-1, 2)],
        (RotationState::Two, RotationState::L) => seq![(0, 0), (1, 0), (1, -1), (0, 2), (1, 2)],
        (RotationState::L, RotationState::Two) => seq![(0, 0), (-1, 0), (-1, 1), (0, -2), (-1, -2)],
        (RotationState::L, RotationState::Zero) => seq![(0, 0), (-1, 0), (-1, 1), (0, -2), (-1, -2)],
        (RotationState::Zero, RotationState::L) => seq![(0, 0), (1, 0), (1, -1), (0, 2), (1, 2)],
        _ => seq![(0, 0), (0, 0), (0, 0), (0, 0), (0, 0)],
    }
}

/// SRS wall-kick offsets for the I piece (y grows downwards).
pub open spec fn i_kicks(from: RotationState, to: RotationState) -> Seq<(int, int)> {
    match (from, to) {
        (RotationState::Zero, RotationState::R) => seq![(0, 0), (-2, 0), (1, 0), (-2, 1), (1, -2)],
        (RotationState::R, RotationState::Zero) => seq![(0, 0), (2, 0), (-1, 0), (2, -1), (-1, 2)],
        (RotationState::R, RotationState::Two) => seq![(0, 0), (-1, 0), (2, 0), (-1, -2), (2, 1)],
        (RotationState::Two, RotationState::R) => seq![(0, 0), (1, 0), (-2, 0), (1, 2), (-2, -1)],
        (RotationState::Two, RotationState::L) => seq![(0, 0), (2, 0), (-1, 0), (2, -1), (-1, 2)],
        (RotationState::L, RotationState::Two) => seq![(0, 0), (-2, 0), (1, 0), (-2, 1), (1, -2)],
        (RotationState::L, RotationState::Zero) => seq![(0, 0), (1, 0), (-2, 0), (1, 2), (-2, -1)],
        (RotationState::Zero, RotationState::L) => seq![(0, 0), (-1, 0), (2, 0), (-1, -2), (2, 1)],
        _ => seq![(0, 0), (0, 0), (0, 0), (0, 0), (0, 0)],
    }
}

/// A kick turned round: the kick that undoes `k`.
pub open spec fn neg_kick(k: (int, int)) -> (int, int) {
    (-k.0, -k.1)
}

/// The JLSTZ wall kicks follow the SRS pattern, for every turn between
/// neighbouring orientations:
/// - each table starts with the plain turn (0, 0), and undoing a turn (the
///   reverse turn between the same two orientations) uses the opposite kicks;
/// - the kicks only depend on the R or L side of the turn: turning out of R
///   (to 0 or to 2) uses one table, turning into R another, and the same for L;
/// - the first kick moves one column away from the side the piece turns from:
///   right when leaving R, left when leaving L;
/// - the second kick adds one row up when turning into R or L and one row down
///   when turning out of them, the third moves two rows the other way without
///   the sideways step, and the fourth combines the first and the third.
pub proof fn lemma_jlstz_kicks_srs(a: RotationState, b: RotationState)
    requires
        b == turned(a, true) || b == turned(a, false),
    ensures
        jlstz_kicks(a, b).len() == 5,
        jlstz_kicks(a, b)[0] == (0int, 0int),
        forall|i: int| 0 <= i < 5 ==> #[trigger] jlstz_kicks(b, a)[i] == neg_kick(jlstz_kicks(a, b)[i]),
        jlstz_kicks(RotationState::R, RotationState::Zero) == jlstz_kicks(RotationState::R, RotationState::Two),
        jlstz_kicks(RotationState::Zero, RotationState::R) == jlstz_kicks(RotationState::Two, RotationState::R),
        jlstz_kicks(RotationState::L, RotationState::Zero) == jlstz_kicks(RotationState::L, RotationState::Two),
        jlstz_kicks(RotationState::Zero, RotationState::L) == jlstz_kicks(RotationState::Two, RotationState::L),
        a == RotationState::R ==> jlstz_kicks(a, b)[1] == (1int, 0int),
        a == RotationState::L ==> jlstz_kicks(a, b)[1] == (-1int, 0int),
        (b == RotationState::R || b == RotationState::L) ==> jlstz_kicks(a, b)[2].1 == -1,
        (a == RotationState::R || a == RotationState::L) ==> jlstz_kicks(a, b)[2].1 == 1,
        jlstz_kicks(a, b)[2].0 == jlstz_kicks(a, b)[1].0,
        jlstz_kicks(a, b)[3] == (0int, -2 * jlstz_kicks(a, b)[2].1),
        jlstz_kicks(a, b)[4] == (jlstz_kicks(a, b)[1].0, jlstz_kicks(a, b)[3].1),
{
}

/// Undoing a turn of the I piece uses the opposite kicks, and each of its
/// tables starts with the plain turn.
pub proof fn lemma_i_kicks_reverse(a: RotationState, b: RotationState)
    requires
        b == turned(a, true) || b == turned(a, false),
    ensures
        i_kicks(a, b).len() == 5,
        i_kicks(a, b)[0] == (0int, 0int),
        forall|i: int| 0 <= i < 5 ==> #[trigger] i_kicks(b, a)[i] == neg_kick(i_kicks(a, b)[i]),
{
}

/// The SRS kick table for the J, L, S, T and Z pieces.
pub fn get_jlstz_kicks(from: RotationState, to: RotationState) -> (k: [(i32, i32); 5])
    ensures
        k@.len() == 5,
        forall|i: int| 0 <= i < 5 ==> (k@[i].0 as int, k@[i].1 as int) == #[trigger] jlstz_kicks(from, to)[i],
{
    let k = match (from, to) {
        (RotationState::Zero, RotationState::R) => [(0, 0), (-1, 0), (-1, -1), (0, 2), (-1, 2)],
        (RotationState::R, RotationState::Zero) => [(0, 0), (1, 0), (1, 1), (0, -2), (1, -2)],
        (RotationState::R, RotationState::Two) => [(0, 0), (1, 0), (1, 1), (0, -2), (1, -2)],
        (RotationState::Two, RotationState::R) => [(0, 0), (-1, 0), (-1, -1), (0, 2), (-1, 2)],
        (RotationState::Two, RotationState::L) => [(0, 0), (1, 0), (1, -1), (0, 2), (1, 2)],
        (RotationState::L, RotationState::Two) => [(0, 0), (-1, 0), (-1, 1), (0, -2), (-1, -2)],
        (RotationState::L, RotationState::Zero) => [(0, 0), (-1, 0), (-1, 1), (0, -2), (-1, -2)],
        (RotationState::Zero, RotationState::L) => [(0, 0), (1, 0), (1, -1), (0, 2), (1, 2)],
        _ => [(0, 0), (0, 0), (0, 0), (0, 0), (0, 0)],
    };
    k
}

/// The SRS kick table for the I piece.
pub fn get_i_kicks(from: RotationState, to: RotationState) -> (k: [(i32, i32); 5])
    ensures
        k@.len() == 5,
        forall|i: int| 0 <= i < 5 ==> (k@[i].0 as int, k@[i].1 as int) == #[trigger] i_kicks(from, to)[i],
{
    let k = match (from, to) {
        (RotationState::Zero, RotationState::R) => [(0, 0), (-2, 0), (1, 0), (-2, 1), (1, -2)],
        (RotationState::R, RotationState::Zero) => [(0, 0), (2, 0), (-1, 0), (2, -1), (-1, 2)],
        (RotationState::R, RotationState::Two) => [(0, 0), (-1, 0), (2, 0), (-1, -2), (2, 1)],
        (RotationState::Two, RotationState::R) => [(0, 0), (1, 0), (-2, 0), (1, 2), (-2, -1)],
        (RotationState::Two, RotationState::L) => [(0, 0), (2, 0), (-1, 0), (2, -1), (-1, 2)],
        (RotationState::L, RotationState::Two) => [(0, 0), (-2, 0), (1, 0), (-2, 1), (1, -2)],
        (RotationState::L, RotationState::Zero) => [(0, 0), (1, 0), (-2, 0), (1, 2), (-2, -1)],
        (RotationState::Zero, RotationState::L) => [(0, 0), (-1, 0), (2, 0), (-1, -2), (2, 1)],
        _ => [(0, 0), (0, 0), (0, 0), (0, 0), (0, 0)],
    };
    k
}


/// A playfield as rows (top first) of cells; a cell holds the type of the piece
/// that left a block there.
pub open spec fn rows_of(grid: Seq<Vec<Option<PieceType>>>) -> Seq<Seq<Option<PieceType>>> {
    grid.map_values(|r: Vec<Option<PieceType>>| r@)
}

/// The playfield is `TETRIS_GRID_HEIGHT` rows of `TETRIS_GRID_WIDTH` cells.
pub open spec fn well_shaped(rows: Seq<Seq<Option<PieceType>>>) -> bool {
    &&& rows.len() == 20
    &&& forall|y: int| 0 <= y < 20 ==> #[trigger] rows[y].len() == 10
}

/// A cell that a piece may not enter: outside the walls, below the floor, or
/// filled. Cells above the top of the playfield are free.
pub open spec fn blocked(rows: Seq<Seq<Option<PieceType>>>, x: int, y: int) -> bool {
    x < 0 || x >= 10 || y >= 20 || (y >= 0 && rows[y][x] is Some)
}

/// The piece overlaps a wall, the floor or a filled cell.
pub open spec fn collides(rows: Seq<Seq<Option<PieceType>>>, p: Piece) -> bool {
    exists|i: int| 0 <= i < 4 && #[trigger] blocked(rows, piece_cells(p)[i].0, piece_cells(p)[i].1)
}

/// The piece moved by `(dx, dy)`.
pub open spec fn shifted_piece(p: Piece, dx: int, dy: int) -> Piece {
    Piece { x: (p.x + dx) as i32, y: (p.y + dy) as i32, ..p }
}

/// The piece moved to row `y`.
pub open spec fn piece_at_row(p: Piece, y: int) -> Piece {
    Piece { y: y as i32, ..p }
}

/// The box of a piece lies where pieces in play can be: no further left than
/// three columns outside the left wall, not right of the last column, not below
/// the last row.
pub open spec fn piece_box_ok(p: Piece) -> bool {
    -3 <= p.x <= 9 && p.y <= 19
}

/// `yl` is the row where the piece comes to rest when it drops straight down:
/// every row between its current row (exclusive) and `yl` is free, and the next is not.
pub open spec fn is_landing(rows: Seq<Seq<Option<PieceType>>>, p: Piece, yl: int) -> bool {
    &&& p.y <= yl
    &&& forall|y: int| p.y < y <= yl ==> !#[trigger] collides(rows, piece_at_row(p, y))
    &&& collides(rows, piece_at_row(p, yl + 1))
}

/// A row with every cell filled.
pub open spec fn row_full(r: Seq<Option<PieceType>>) -> bool {
    forall|x: int| 0 <= x < r.len() ==> #[trigger] r[x] is Some
}

/// An empty row.
pub open spec fn empty_row() -> Seq<Option<PieceType>> {
    Seq::new(10, |x: int| None::<PieceType>)
}

/// The rows that are not full, in order.
pub open spec fn kept_rows(rows: Seq<Seq<Option<PieceType>>>) -> Seq<Seq<Option<PieceType>>>
    decreases rows.len(),
{
    if rows.len() == 0 {
        seq![]
    } else {
        let k = kept_rows(rows.drop_last());
        if row_full(rows.last()) {
            k
        } else {
            k.push(rows.last())
        }
    }
}

/// The playfield after its full rows are removed and the rows above drop down.
pub open spec fn cleared(rows: Seq<Seq<Option<PieceType>>>) -> Seq<Seq<Option<PieceType>>> {
    Seq::new((rows.len() - kept_rows(rows).len()) as nat, |i: int| empty_row()) + kept_rows(rows)
}

/// The number of full rows.
pub open spec fn full_count(rows: Seq<Seq<Option<PieceType>>>) -> int {
    rows.len() - kept_rows(rows).len()
}

/// The playfield with the blocks of the piece written into it (blocks outside
/// the playfield are dropped).
pub open spec fn placed(rows: Seq<Seq<Option<PieceType>>>, p: Piece) -> Seq<Seq<Option<PieceType>>> {
    Seq::new(
        rows.len(),
        |y: int|
            Seq::new(
                rows[y].len(),
                |x: int| if piece_cells(p).contains((x, y)) { Some(p.piece_type) } else { rows[y][x] },
            ),
    )
}

/// Points for clearing `n` lines at level 0.
pub open spec fn line_points(n: int) -> int {
    if n == 1 {
        100
    } else if n == 2 {
        300
    } else if n == 3 {
        500
    } else if n == 4 {
        800
    } else {
        0
    }
}

/// Line clears score 100, 300, 500 and 800 points (at level 0) for one to four
/// lines, nothing for none: clearing more lines at once always scores more.
pub proof fn lemma_line_points_table()
    ensures
        line_points(0) == 0,
        line_points(1) == 100,
        line_points(2) == 300,
        line_points(3) == 500,
        line_points(4) == 800,
        forall|n: int| 0 <= n < 4 ==> #[trigger] line_points(n) < line_points(n + 1),
{
}

/// Points at level 0 for a T-spin (`proper`) or a mini T-spin that clears `n` lines.
pub open spec fn t_spin_points(proper: bool, n: int) -> int {
    if proper {
        if n == 0 {
            400
        } else if n == 1 {
            800
        } else if n == 2 {
            1200
        } else if n == 3 {
            1600
        } else {
            0
        }
    } else {
        if n == 0 {
            100
        } else if n == 1 {
            200
        } else if n == 2 {
            400
        } else {
            0
        }
    }
}

/// T-spins score (at level 0) 400, 800, 1200 and 1600 points for a proper
/// one clearing zero to three lines, and 100, 200 and 400 for a mini one
/// clearing zero to two; each extra line scores more, and a proper T-spin
/// always scores more than a mini one clearing as many lines.
pub proof fn lemma_t_spin_points_table()
    ensures
        t_spin_points(true, 0) == 400,
        t_spin_points(true, 1) == 800,
        t_spin_points(true, 2) == 1200,
        t_spin_points(true, 3) == 1600,
        t_spin_points(false, 0) == 100,
        t_spin_points(false, 1) == 200,
        t_spin_points(false, 2) == 400,
        forall|n: int| 0 <= n < 3 ==> #[trigger] t_spin_points(true, n) < t_spin_points(true, n + 1),
        forall|n: int| 0 <= n < 2 ==> #[trigger] t_spin_points(false, n) < t_spin_points(false, n + 1),
        forall|n: int| 0 <= n < 3 ==> #[trigger] t_spin_points(false, n) < t_spin_points(true, n),
{
}

/// The level after a clear brings the line count to `lines`: Zen and Sprint keep
/// the level, Survival levels up every 5 lines, Normal and Dig every 10.
pub open spec fn level_after(mode: TetrisMode, level: int, lines: int) -> int {
    match mode {
        TetrisMode::Zen | TetrisMode::Sprint => level,
        TetrisMode::Survival => if lines / 5 > level { lines / 5 } else { level },
        _ => if lines / 10 > level { lines / 10 } else { level },
    }
}

/// Whether the four diagonal neighbours of the T's centre at `(cx, cy)` count as
/// occupied (outside the playfield counts).
pub open spec fn corner_occupied(rows: Seq<Seq<Option<PieceType>>>, x: int, y: int) -> bool {
    x < 0 || x >= 10 || y < 0 || y >= 20 || rows[y][x] is Some
}

/// The corners, in the order top-left, top-right, bottom-left, bottom-right.
pub open spec fn t_corners(p: Piece) -> Seq<(int, int)> {
    let cx = p.x + 1;
    let cy = p.y + 1;
    seq![(cx - 1, cy - 1), (cx + 1, cy - 1), (cx - 1, cy + 1), (cx + 1, cy + 1)]
}

/// Whether corner `i` is in front of the T (on the side its point faces).
pub open spec fn is_front_corner(r: RotationState, i: int) -> bool {
    match r {
        RotationState::Zero => i == 0 || i == 1,
        RotationState::R => i == 1 || i == 3,
        RotationState::Two => i == 2 || i == 3,
        RotationState::L => i == 0 || i == 2,
    }
}

/// The number of occupied corners among the first `n`, counting all or only front ones.
pub open spec fn occupied_corners(rows: Seq<Seq<Option<PieceType>>>, p: Piece, n: int, front_only: bool) -> int
    decreases n,
{
    if n <= 0 {
        0
    } else {
        let c = t_corners(p)[n - 1];
        occupied_corners(rows, p, n - 1, front_only) + if corner_occupied(rows, c.0, c.1) && (!front_only
            || is_front_corner(p.rotation, n - 1)) {
            1int
        } else {
            0int
        }
    }
}

/// The T-spin that locking the piece makes: none unless it is a T whose last
/// action was a rotation and at least three corners are occupied; `Some(true)`
/// (proper) when both front corners are occupied or the last rotation used the
/// fifth kick, `Some(false)` (mini) otherwise.
pub open spec fn t_spin_kind(
    rows: Seq<Seq<Option<PieceType>>>,
    p: Piece,
    last_was_rotation: bool,
    last_kick: int,
) -> Option<bool> {
    if p.piece_type != PieceType::T || !last_was_rotation || occupied_corners(rows, p, 4, false) < 3 {
        None
    } else {
        Some(occupied_corners(rows, p, 4, true) == 2 || last_kick == 4)
    }
}

/// The orientation after one turn in the given direction.
pub open spec fn turned(r: RotationState, clockwise: bool) -> RotationState {
    if clockwise {
        rotation_of(rotation_index(r) + 1int)
    } else {
        rotation_of(rotation_index(r) + 3int)
    }
}

/// The kick table for a rotation of the piece.
pub open spec fn kicks_for(p: Piece, to: RotationState) -> Seq<(int, int)> {
    if p.piece_type == PieceType::I {
        i_kicks(p.rotation, to)
    } else {
        jlstz_kicks(p.rotation, to)
    }
}

/// The piece turned to `to` and moved by kick `k`.
pub open spec fn kicked(p: Piece, to: RotationState, k: int) -> Piece {
    Piece { x: (p.x + kicks_for(p, to)[k].0) as i32, y: (p.y + kicks_for(p, to)[k].1) as i32, rotation: to, ..p }
}

/// Index of the first kick, at `start` or later, that leaves the turned piece free.
pub open spec fn first_free_kick(rows: Seq<Seq<Option<PieceType>>>, p: Piece, to: RotationState, start: int) -> Option<int>
    decreases 5 - start,
{
    if start >= 5 || start < 0 {
        None
    } else if !collides(rows, kicked(p, to, start)) {
        Some(start)
    } else {
        first_free_kick(rows, p, to, start + 1)
    }
}

/// The Tetris game without its clocks.
#[derive(Debug)]
pub struct TetrisGame {
    pub mode: TetrisMode,
    /// `grid[y][x]`, rows top first.
    pub grid: Vec<Vec<Option<PieceType>>>,
    pub current_piece: Option<Piece>,
    pub next_piece: PieceType,
    pub hold_piece: Option<PieceType>,
    /// Whether hold is allowed (once per piece).
    pub can_hold: bool,
    pub score: u32,
    pub level: u32,
    pub lines_cleared: u32,
    pub game_over: bool,
    /// What is left of the current seven-bag; the next piece is taken from its end.
    pub bag: Vec<PieceType>,
    pub rng: ThreadRng,
    /// Whether the piece rests on something and the lock delay runs.
    pub lock_delay_active: bool,
    /// How often a move or turn has restarted the lock delay of this piece.
    pub lock_delay_resets: u32,
    /// How often the lock delay may restart before the piece locks.
    pub lock_delay_max_resets: u32,
    pub last_action_was_rotation: bool,
    pub last_kick_index: usize,
    /// Lines to clear in Sprint mode.
    pub target_lines: u32,
}

impl TetrisGame {
    /// The playfield as rows of cells.
    pub open spec fn rows(&self) -> Seq<Seq<Option<PieceType>>> {
        rows_of(self.grid@)
    }

    /// The playfield has its size and a piece in play lies where pieces can be.
    pub open spec fn wf(&self) -> bool {
        &&& well_shaped(self.rows())
        &&& (self.current_piece matches Some(p) ==> piece_box_ok(p))
    }

}

/// Locking the piece `p` (the last action being a turn when `last_rot`) keeps
/// the counters within `u32`: the cleared lines fit in the line count, and the
/// points scored for them, and the level factor they are multiplied by, fit
/// in the score.
pub open spec fn lock_fits(g: &TetrisGame, p: Piece, last_rot: bool) -> bool {
    let n = full_count(placed(g.rows(), p));
    &&& n > 0 ==> g.lines_cleared + n <= u32::MAX
    &&& match t_spin_kind(g.rows(), p, last_rot, g.last_kick_index as int) {
        None => n > 0 ==> g.level + 1 <= u32::MAX && g.score + line_points(n) * (g.level + 1) <= u32::MAX,
        Some(proper) => g.level + 1 <= u32::MAX && g.score + t_spin_points(proper, n) * (g.level + 1) <= u32::MAX,
    }
}

/// Locking the piece in play where it is keeps the counters within `u32`.
pub open spec fn lock_now_fits(g: &TetrisGame) -> bool {
    g.current_piece matches Some(p) ==> lock_fits(g, p, g.last_action_was_rotation)
}

/// Dropping the piece in play and locking it where it lands keeps the counters
/// within `u32`.
pub open spec fn drop_fits_spec(g: &TetrisGame) -> bool {
    g.current_piece matches Some(p) ==> forall|yl: int|
        #[trigger] is_landing(g.rows(), p, yl) ==> lock_fits(g, piece_at_row(p, yl), g.last_action_was_rotation && yl
            == p.y)
}

/// Everything but the piece in play and its move bookkeeping stays the same.
pub open spec fn same_board(a: &TetrisGame, b: &TetrisGame) -> bool {
    &&& b.mode == a.mode
    &&& b.grid@ == a.grid@
    &&& b.next_piece == a.next_piece
    &&& b.hold_piece == a.hold_piece
    &&& b.can_hold == a.can_hold
    &&& b.score == a.score
    &&& b.level == a.level
    &&& b.lines_cleared == a.lines_cleared
    &&& b.game_over == a.game_over
    &&& b.bag@ == a.bag@
    &&& b.lock_delay_active == a.lock_delay_active
    &&& b.lock_delay_max_resets == a.lock_delay_max_resets
    &&& b.target_lines == a.target_lines
}

/// The lock-delay restart that a successful move or turn makes: the count goes
/// up when the delay runs and restarts are left.
pub open spec fn resets_after_move(g: &TetrisGame) -> u32 {
    if g.lock_delay_active && g.lock_delay_resets < g.lock_delay_max_resets {
        (g.lock_delay_resets + 1) as u32
    } else {
        g.lock_delay_resets
    }
}

impl TetrisGame {
    /// Whether the piece overlaps a wall, the floor or a filled cell.
    fn check_collision(&self, piece: &Piece) -> (r: bool)
        requires
            well_shaped(self.rows()),
            piece_in_range(*piece),
        ensures
            r == collides(self.rows(), *piece),
    {
        let blocks = piece.blocks();
        let mut i: usize = 0;
        while i < 4
            invariant
                i <= 4,
                well_shaped(self.rows()),
                blocks@.len() == 4,
                forall|j: int| 0 <= j < 4 ==> (blocks@[j].0 as int, blocks@[j].1 as int) == #[trigger] piece_cells(*piece)[j],
                forall|j: int| 0 <= j < i ==> !#[trigger] blocked(self.rows(), piece_cells(*piece)[j].0, piece_cells(*piece)[j].1),
            decreases 4 - i,
        {
            let (x, y) = blocks[i];
            assert((x as int, y as int) == piece_cells(*piece)[i as int]);
            if x < 0 || x >= TETRIS_GRID_WIDTH as i32 || y >= TETRIS_GRID_HEIGHT as i32 {
                assert(blocked(self.rows(), piece_cells(*piece)[i as int].0, piece_cells(*piece)[i as int].1));
                return true;
            }
            if y >= 0 {
                assert(self.rows()[y as int] == self.grid@[y as int]@);
                if self.grid[y as usize][x as usize].is_some() {
                    assert(blocked(self.rows(), piece_cells(*piece)[i as int].0, piece_cells(*piece)[i as int].1));
                    return true;
                }
            }
            i += 1;
        }
        false
    }

    /// Moves the piece in play by `(dx, dy)` if it does not collide there; a
    /// successful move clears the "last action was a turn" mark and restarts a
    /// running lock delay while restarts are left. Returns whether it moved.
    pub fn move_piece(&mut self, dx: i32, dy: i32) -> (moved: bool)
        requires
            old(self).wf(),
            old(self).current_piece matches Some(p) ==> {
                &&& i32::MIN <= p.x + dx && p.x + dx + 3 <= i32::MAX
                &&& i32::MIN <= p.y + dy && p.y + dy + 3 <= i32::MAX
            },
        ensures
            final(self).wf(),
            same_board(old(self), final(self)),
            final(self).last_kick_index == old(self).last_kick_index,
            match old(self).current_piece {
                None => !moved && final(self).current_piece == old(self).current_piece
                    && final(self).lock_delay_resets == old(self).lock_delay_resets
                    && final(self).last_action_was_rotation == old(self).last_action_was_rotation,
                Some(p) => {
                    &&& moved == !collides(old(self).rows(), shifted_piece(p, dx as int, dy as int))
                    &&& moved ==> final(self).current_piece == Some(shifted_piece(p, dx as int, dy as int))
                        && !final(self).last_action_was_rotation
                        && final(self).lock_delay_resets == resets_after_move(old(self))
                    &&& !moved ==> final(self).current_piece == old(self).current_piece
                        && final(self).last_action_was_rotation == old(self).last_action_was_rotation
                        && final(self).lock_delay_resets == old(self).lock_delay_resets
                },
            },
    {
        if let Some(piece) = self.current_piece {
            let test_piece = Piece { x: piece.x + dx, y: piece.y + dy, ..piece };
            assert(test_piece == shifted_piece(piece, dx as int, dy as int));
            if !self.check_collision(&test_piece) {
                proof {
                    lemma_free_piece_box(self.rows(), test_piece);
                }
                self.current_piece = Some(test_piece);
                self.last_action_was_rotation = false;
                if self.lock_delay_active && self.lock_delay_resets < self.lock_delay_max_resets {
                    self.lock_delay_resets += 1;
                }
                return true;
            }
        }
        false
    }
}

proof fn lemma_kicks_small(p: Piece, to: RotationState)
    ensures
        kicks_for(p, to).len() == 5,
        forall|k: int| 0 <= k < 5 ==> -2 <= #[trigger] kicks_for(p, to)[k].0 <= 2 && -2 <= kicks_for(p, to)[k].1 <= 2,
{
}

/// A turn of the piece can be computed without leaving `i32`.
pub open spec fn turn_in_range(g: &TetrisGame) -> bool {
    g.current_piece matches Some(p) ==> p.y >= i32::MIN + 2
}

impl TetrisGame {
    fn rotate_piece_internal(&mut self, clockwise: bool)
        requires
            old(self).wf(),
            turn_in_range(old(self)),
        ensures
            final(self).wf(),
            same_board(old(self), final(self)),
            match old(self).current_piece {
                Some(p) if p.piece_type != PieceType::O => match first_free_kick(
                    old(self).rows(),
                    p,
                    turned(p.rotation, clockwise),
                    0,
                ) {
                    Some(k) => {
                        &&& final(self).current_piece == Some(kicked(p, turned(p.rotation, clockwise), k))
                        &&& final(self).last_action_was_rotation
                        &&& final(self).last_kick_index == k
                        &&& final(self).lock_delay_resets == resets_after_move(old(self))
                    },
                    None => {
                        &&& final(self).current_piece == old(self).current_piece
                        &&& final(self).last_action_was_rotation == old(self).last_action_was_rotation
                        &&& final(self).last_kick_index == old(self).last_kick_index
                        &&& final(self).lock_delay_resets == old(self).lock_delay_resets
                    },
                },
                _ => {
                    &&& final(self).current_piece == old(self).current_piece
                    &&& final(self).last_action_was_rotation == old(self).last_action_was_rotation
                    &&& final(self).last_kick_index == old(self).last_kick_index
                    &&& final(self).lock_delay_resets == old(self).lock_delay_resets
                },
            },
    {
        if let Some(piece) = self.current_piece {
            if piece.piece_type == PieceType::O {
                return;
            }
            let from_state = piece.rotation;
            let to_state = if clockwise {
                RotationState::from_u8((from_state.to_u8() + 1) % 4)
            } else {
                RotationState::from_u8((from_state.to_u8() + 3) % 4)
            };
            assert(to_state == turned(piece.rotation, clockwise));
            let kicks = if piece.piece_type == PieceType::I {
                get_i_kicks(from_state, to_state)
            } else {
                get_jlstz_kicks(from_state, to_state)
            };
            proof {
                lemma_kicks_small(piece, to_state);
            }
            let mut kick_index: usize = 0;
            while kick_index < 5
                invariant
                    kick_index <= 5,
                    self.wf(),
                    self.current_piece == Some(piece),
                    old(self).current_piece == Some(piece),
                    piece.piece_type != PieceType::O,
                    piece_box_ok(piece),
                    piece.y >= i32::MIN + 2,
                    to_state == turned(piece.rotation, clockwise),
                    kicks@.len() == 5,
                    forall|i: int| 0 <= i < 5 ==> (kicks@[i].0 as int, kicks@[i].1 as int) == #[trigger] kicks_for(piece, to_state)[i],
                    forall|k: int| 0 <= k < 5 ==> -2 <= #[trigger] kicks_for(piece, to_state)[k].0 <= 2 && -2 <= kicks_for(piece, to_state)[k].1 <= 2,
                    first_free_kick(self.rows(), piece, to_state, 0) == first_free_kick(self.rows(), piece, to_state, kick_index as int),
                    same_board(old(self), self),
                    self.last_action_was_rotation == old(self).last_action_was_rotation,
                    self.last_kick_index == old(self).last_kick_index,
                    self.lock_delay_resets == old(self).lock_delay_resets,
                decreases 5 - kick_index,
            {
                let (kick_x, kick_y) = kicks[kick_index];
                assert((kick_x as int, kick_y as int) == kicks_for(piece, to_state)[kick_index as int]);
                let test_piece = Piece { x: piece.x + kick_x, y: piece.y + kick_y, rotation: to_state, ..piece };
                assert(test_piece == kicked(piece, to_state, kick_index as int));
                let collides_here = self.check_collision(&test_piece);
                if !collides_here {
                    proof {
                        lemma_free_piece_box(self.rows(), test_piece);
                    }
                    assert(first_free_kick(self.rows(), piece, to_state, kick_index as int) == Some(kick_index as int));
                    self.current_piece = Some(test_piece);
                    self.last_action_was_rotation = true;
                    self.last_kick_index = kick_index;
                    if self.lock_delay_active && self.lock_delay_resets < self.lock_delay_max_resets {
                        self.lock_delay_resets += 1;
                    }
                    return;
                }
                kick_index += 1;
            }
        }
    }

    /// Turns the piece in play clockwise, trying the SRS kicks in order.
    pub fn rotate_piece_cw(&mut self)
        requires
            old(self).wf(),
            turn_in_range(old(self)),
        ensures
            final(self).wf(),
            same_board(old(self), final(self)),
            match old(self).current_piece {
                Some(p) if p.piece_type != PieceType::O => match first_free_kick(
                    old(self).rows(),
                    p,
                    turned(p.rotation, true),
                    0,
                ) {
                    Some(k) => final(self).current_piece == Some(kicked(p, turned(p.rotation, true), k))
                        && final(self).last_action_was_rotation && final(self).last_kick_index == k
                        && final(self).lock_delay_resets == resets_after_move(old(self)),
                    None => final(self).current_piece == old(self).current_piece
                        && final(self).last_action_was_rotation == old(self).last_action_was_rotation
                        && final(self).last_kick_index == old(self).last_kick_index
                        && final(self).lock_delay_resets == old(self).lock_delay_resets,
                },
                _ => final(self).current_piece == old(self).current_piece
                    && final(self).last_action_was_rotation == old(self).last_action_was_rotation
                    && final(self).last_kick_index == old(self).last_kick_index
                    && final(self).lock_delay_resets == old(self).lock_delay_resets,
            },
    {
        self.rotate_piece_internal(true);
    }

    /// Turns the piece in play counter-clockwise, trying the SRS kicks in order.
    pub fn rotate_piece_ccw(&mut self)
        requires
            old(self).wf(),
            turn_in_range(old(self)),
        ensures
            final(self).wf(),
            same_board(old(self), final(self)),
            match old(self).current_piece {
                Some(p) if p.piece_type != PieceType::O => match first_free_kick(
                    old(self).rows(),
                    p,
                    turned(p.rotation, false),
                    0,
                ) {
                    Some(k) => final(self).current_piece == Some(kicked(p, turned(p.rotation, false), k))
                        && final(self).last_action_was_rotation && final(self).last_kick_index == k
                        && final(self).lock_delay_resets == resets_after_move(old(self)),
                    None => final(self).current_piece == old(self).current_piece
                        && final(self).last_action_was_rotation == old(self).last_action_was_rotation
                        && final(self).last_kick_index == old(self).last_kick_index
                        && final(self).lock_delay_resets == old(self).lock_delay_resets,
                },
                _ => final(self).current_piece == old(self).current_piece
                    && final(self).last_action_was_rotation == old(self).last_action_was_rotation
                    && final(self).last_kick_index == old(self).last_kick_index
                    && final(self).lock_delay_resets == old(self).lock_delay_resets,
            },
    {
        self.rotate_piece_internal(false);
    }
}

proof fn lemma_kept_rows_len(rows: Seq<Seq<Option<PieceType>>>)
    ensures
        kept_rows(rows).len() <= rows.len(),
        forall|i: int| 0 <= i < kept_rows(rows).len() ==> !row_full(#[trigger] kept_rows(rows)[i]),
        forall|i: int| 0 <= i < kept_rows(rows).len() ==> rows.contains(#[trigger] kept_rows(rows)[i]),
    decreases rows.len(),
{
    if rows.len() > 0 {
        let d = rows.drop_last();
        lemma_kept_rows_len(d);
        assert forall|i: int| 0 <= i < kept_rows(rows).len() implies rows.contains(#[trigger] kept_rows(rows)[i]) by {
            if i < kept_rows(d).len() {
                let r = kept_rows(d)[i];
                assert(d.contains(r));
                let j = choose|j: int| 0 <= j < d.len() && d[j] == r;
                assert(rows[j] == r);
            } else {
                assert(rows[rows.len() - 1] == rows.last());
            }
        }
    }
}

/// Clearing keeps the size of the playfield and leaves no full row behind.
pub proof fn lemma_cleared_shape(rows: Seq<Seq<Option<PieceType>>>)
    requires
        well_shaped(rows),
    ensures
        well_shaped(cleared(rows)),
        forall|y: int| 0 <= y < 20 ==> !row_full(#[trigger] cleared(rows)[y]),
{
    lemma_kept_rows_len(rows);
    let c = cleared(rows);
    let k = kept_rows(rows);
    let n = (rows.len() - k.len()) as nat;
    assert forall|y: int| 0 <= y < 20 implies #[trigger] c[y].len() == 10 && !row_full(c[y]) by {
        if y < n {
            assert(c[y] == empty_row());
            assert(!(empty_row()[0] is Some));
        } else {
            assert(c[y] == k[y - n]);
            assert(rows.contains(k[y - n]));
        }
    }
}

impl TetrisGame {
    /// Removes the full rows (the rows above drop down and empty rows come in at
    /// the top), counts them, scores them (unless `scores_lines` is false, for a
    /// T-spin, whose own score takes the place of the line score) and advances
    /// the level or ends a sprint.
    fn clear_lines_and_return_count(&mut self, scores_lines: bool) -> (count: u32)
        requires
            well_shaped(old(self).rows()),
            full_count(old(self).rows()) > 0 ==> old(self).lines_cleared + full_count(old(self).rows()) <= u32::MAX,
            full_count(old(self).rows()) > 0 && scores_lines ==> old(self).level + 1 <= u32::MAX && old(self).score
                + line_points(full_count(old(self).rows())) * (old(self).level + 1) <= u32::MAX,
        ensures
            well_shaped(final(self).rows()),
            final(self).rows() == cleared(old(self).rows()),
            count == full_count(old(self).rows()),
            final(self).lines_cleared == old(self).lines_cleared + count,
            final(self).score == old(self).score + if scores_lines {
                line_points(count as int) * (old(self).level + 1)
            } else {
                0
            },
            final(self).level == if count > 0 {
                level_after(old(self).mode, old(self).level as int, final(self).lines_cleared as int)
            } else {
                old(self).level as int
            },
            final(self).game_over == (old(self).game_over || (count > 0 && old(self).mode == TetrisMode::Sprint
                && final(self).lines_cleared >= old(self).target_lines)),
            final(self).mode == old(self).mode,
            final(self).current_piece == old(self).current_piece,
            final(self).next_piece == old(self).next_piece,
            final(self).hold_piece == old(self).hold_piece,
            final(self).can_hold == old(self).can_hold,
            final(self).bag@ == old(self).bag@,
            final(self).lock_delay_active == old(self).lock_delay_active,
            final(self).lock_delay_resets == old(self).lock_delay_resets,
            final(self).lock_delay_max_resets == old(self).lock_delay_max_resets,
            final(self).last_action_was_rotation == old(self).last_action_was_rotation,
            final(self).last_kick_index == old(self).last_kick_index,
            final(self).target_lines == old(self).target_lines,
    {
        let ghost orig = self.rows();
        proof {
            lemma_kept_rows_len(orig);
        }
        let mut count: u32 = 0;
        let mut y: usize = 0;
        assert(cleared(orig.take(0)) + orig.skip(0) =~= orig);
        while y < TETRIS_GRID_HEIGHT
            invariant
                y <= 20,
                well_shaped(orig),
                self.rows() == cleared(orig.take(y as int)) + orig.skip(y as int),
                self.grid@.len() == 20,
                count == full_count(orig.take(y as int)),
                count <= y,
                self.lines_cleared == old(self).lines_cleared,
                self.score == old(self).score,
                self.level == old(self).level,
                self.game_over == old(self).game_over,
                self.mode == old(self).mode,
                self.current_piece == old(self).current_piece,
                self.next_piece == old(self).next_piece,
                self.hold_piece == old(self).hold_piece,
                self.can_hold == old(self).can_hold,
                self.bag@ == old(self).bag@,
                self.lock_delay_active == old(self).lock_delay_active,
                self.lock_delay_resets == old(self).lock_delay_resets,
                self.lock_delay_max_resets == old(self).lock_delay_max_resets,
                self.last_action_was_rotation == old(self).last_action_was_rotation,
                self.last_kick_index == old(self).last_kick_index,
                self.target_lines == old(self).target_lines,
            decreases 20 - y,
        {
            let ghost pre = orig.take(y as int);
            let ghost pre1 = orig.take(y + 1);
            proof {
                lemma_kept_rows_len(pre);
                assert(pre1.drop_last() == pre);
                assert(pre1.last() == orig[y as int]);
            }
            assert(cleared(pre).len() == y);
            assert(self.rows()[y as int] == orig[y as int]);
            assert(self.grid@[y as int]@ == orig[y as int]);
            let mut full = true;
            let mut x: usize = 0;
            while x < TETRIS_GRID_WIDTH
                invariant
                    x <= 10,
                    y < 20,
                    self.grid@.len() == 20,
                    orig.len() == 20,
                    self.grid@[y as int]@ == orig[y as int],
                    orig[y as int].len() == 10,
                    full == forall|i: int| 0 <= i < x ==> #[trigger] orig[y as int][i] is Some,
                decreases 10 - x,
            {
                if self.grid[y][x].is_none() {
                    full = false;
                }
                x += 1;
            }
            assert(full == row_full(orig[y as int]));
            if full {
                let ghost before = self.rows();
                self.grid.remove(y);
                assert(self.rows() =~= before.remove(y as int));
                assert(before.remove(y as int) =~= cleared(pre) + orig.skip(y + 1));
                let mut empty: Vec<Option<PieceType>> = Vec::new();
                let mut i: usize = 0;
                while i < TETRIS_GRID_WIDTH
                    invariant
                        i <= 10,
                        empty@ == Seq::new(i as nat, |j: int| None::<PieceType>),
                    decreases 10 - i,
                {
                    empty.push(None);
                    i += 1;
                    assert(empty@ =~= Seq::new(i as nat, |j: int| None::<PieceType>));
                }
                let ghost mid = self.rows();
                assert(empty@ =~= empty_row());
                self.grid.insert(0, empty);
                count += 1;
                assert(self.rows() =~= mid.insert(0, empty_row()));
                assert(kept_rows(pre1) == kept_rows(pre));
                assert(cleared(pre1) =~= seq![empty_row()] + cleared(pre));
                assert(mid.insert(0, empty_row()) =~= seq![empty_row()] + (cleared(pre) + orig.skip(y + 1)));
                assert(self.rows() =~= cleared(pre1) + orig.skip(y + 1));
            } else {
                assert(kept_rows(pre1) == kept_rows(pre).push(orig[y as int]));
                assert(self.rows() =~= cleared(pre1) + orig.skip(y + 1));
            }
            y += 1;
        }
        assert(orig.take(20) == orig);
        assert(orig.skip(20) =~= Seq::<Seq<Option<PieceType>>>::empty());
        assert(self.rows() =~= cleared(orig));
        proof {
            lemma_cleared_shape(orig);
        }
        if count == 0 {
            return 0;
        }
        self.lines_cleared += count;
        let base_score: u32 = if count == 1 {
            100
        } else if count == 2 {
            300
        } else if count == 3 {
            500
        } else if count == 4 {
            800
        } else {
            0
        };
        if scores_lines {
            assert(base_score == line_points(count as int));
            self.score += base_score * (self.level + 1);
        }
        match self.mode {
            TetrisMode::Zen => {},
            TetrisMode::Sprint => {
                if self.lines_cleared >= self.target_lines {
                    self.game_over = true;
                }
            },
            TetrisMode::Survival => {
                let new_level = self.lines_cleared / 5;
                if new_level > self.level {
                    self.level = new_level;
                }
            },
            TetrisMode::Normal | TetrisMode::Dig => {
                let new_level = self.lines_cleared / 10;
                if new_level > self.level {
                    self.level = new_level;
                }
            },
        }
        count
    }
}

impl TetrisGame {
    /// Writes the blocks of the piece into the playfield (blocks outside it are dropped).
    fn place_piece(&mut self, piece: &Piece)
        requires
            well_shaped(old(self).rows()),
            piece_box_ok(*piece),
        ensures
            final(self).rows() == placed(old(self).rows(), *piece),
            well_shaped(final(self).rows()),
            final(self).mode == old(self).mode,
            final(self).current_piece == old(self).current_piece,
            final(self).next_piece == old(self).next_piece,
            final(self).hold_piece == old(self).hold_piece,
            final(self).can_hold == old(self).can_hold,
            final(self).score == old(self).score,
            final(self).level == old(self).level,
            final(self).lines_cleared == old(self).lines_cleared,
            final(self).game_over == old(self).game_over,
            final(self).bag@ == old(self).bag@,
            final(self).lock_delay_active == old(self).lock_delay_active,
            final(self).lock_delay_resets == old(self).lock_delay_resets,
            final(self).lock_delay_max_resets == old(self).lock_delay_max_resets,
            final(self).last_action_was_rotation == old(self).last_action_was_rotation,
            final(self).last_kick_index == old(self).last_kick_index,
            final(self).target_lines == old(self).target_lines,
    {
        proof {
            lemma_cells_of_box(*piece);
        }
        let ghost orig = self.rows();
        let ghost cells = piece_cells(*piece);
        let blocks = piece.blocks();
        let mut i: usize = 0;
        while i < 4
            invariant
                i <= 4,
                well_shaped(orig),
                well_shaped(self.rows()),
                self.grid@.len() == 20,
                cells == piece_cells(*piece),
                cells.len() == 4,
                blocks@.len() == 4,
                forall|j: int| 0 <= j < 4 ==> (blocks@[j].0 as int, blocks@[j].1 as int) == #[trigger] cells[j],
                forall|y: int, x: int| 0 <= y < 20 && 0 <= x < 10 ==> #[trigger] self.rows()[y][x] == if cells.take(
                    i as int,
                ).contains((x, y)) {
                    Some(piece.piece_type)
                } else {
                    orig[y][x]
                },
                self.mode == old(self).mode,
                self.current_piece == old(self).current_piece,
                self.next_piece == old(self).next_piece,
                self.hold_piece == old(self).hold_piece,
                self.can_hold == old(self).can_hold,
                self.score == old(self).score,
                self.level == old(self).level,
                self.lines_cleared == old(self).lines_cleared,
                self.game_over == old(self).game_over,
                self.bag@ == old(self).bag@,
                self.lock_delay_active == old(self).lock_delay_active,
                self.lock_delay_resets == old(self).lock_delay_resets,
                self.lock_delay_max_resets == old(self).lock_delay_max_resets,
                self.last_action_was_rotation == old(self).last_action_was_rotation,
                self.last_kick_index == old(self).last_kick_index,
                self.target_lines == old(self).target_lines,
            decreases 4 - i,
        {
            let (x, y) = blocks[i];
            assert((x as int, y as int) == cells[i as int]);
            let ghost before = self.rows();
            assert(cells.take(i + 1) == cells.take(i as int).push(cells[i as int]));
            if y >= 0 && y < TETRIS_GRID_HEIGHT as i32 && x >= 0 && x < TETRIS_GRID_WIDTH as i32 {
                let ghost g0 = self.grid@;
                let mut row = self.grid.remove(y as usize);
                assert(row@ == before[y as int]);
                assert(row@.len() == 10);
                row.set(x as usize, Some(piece.piece_type));
                let ghost new_row = row@;
                assert(new_row == before[y as int].update(x as int, Some(piece.piece_type)));
                self.grid.insert(y as usize, row);
                assert(self.grid@ =~= g0.remove(y as int).insert(y as int, row));
                assert(self.rows() =~= before.update(y as int, new_row));
                assert forall|yy: int, xx: int| 0 <= yy < 20 && 0 <= xx < 10 implies #[trigger] self.rows()[yy][xx] == if cells.take(
                    i + 1,
                ).contains((xx, yy)) {
                    Some(piece.piece_type)
                } else {
                    orig[yy][xx]
                } by {
                    let old_v = before[yy][xx];
                    assert(old_v == if cells.take(i as int).contains((xx, yy)) {
                        Some(piece.piece_type)
                    } else {
                        orig[yy][xx]
                    });
                    if xx == x && yy == y {
                        assert(self.rows()[yy][xx] == Some(piece.piece_type));
                        assert(cells.take(i + 1)[i as int] == (xx, yy));
                        assert(cells.take(i + 1).contains((xx, yy)));
                    } else {
                        assert(self.rows()[yy][xx] == old_v);
                        if cells.take(i as int).contains((xx, yy)) {
                            let k = choose|k: int| 0 <= k < i && #[trigger] cells.take(i as int)[k] == (xx, yy);
                            assert(cells.take(i + 1)[k] == (xx, yy));
                        }
                        if cells.take(i + 1).contains((xx, yy)) {
                            let k = choose|k: int| 0 <= k < i + 1 && #[trigger] cells.take(i + 1)[k] == (xx, yy);
                            assert(k != i);
                            assert(cells.take(i as int)[k] == (xx, yy));
                        }
                    }
                }
                assert(well_shaped(self.rows()));
            } else {
                assert forall|yy: int, xx: int| 0 <= yy < 20 && 0 <= xx < 10 implies #[trigger] self.rows()[yy][xx] == if cells.take(
                    i + 1,
                ).contains((xx, yy)) {
                    Some(piece.piece_type)
                } else {
                    orig[yy][xx]
                } by {
                    if cells.take(i as int).contains((xx, yy)) {
                        assert(cells.take(i + 1).contains((xx, yy)));
                    }
                    if cells.take(i + 1).contains((xx, yy)) {
                        let k = choose|k: int| 0 <= k < i + 1 && #[trigger] cells.take(i + 1)[k] == (xx, yy);
                        if k < i {
                            assert(cells.take(i as int)[k] == (xx, yy));
                        }
                    }
                }
            }
            i += 1;
        }
        assert(cells.take(4) == cells);
        assert(self.rows() =~~= placed(orig, *piece)) by {
            assert forall|y: int| 0 <= y < 20 implies #[trigger] self.rows()[y] =~= placed(orig, *piece)[y] by {
            }
        }
    }
}

/// The piece that enters the playfield: the given type at the spawn position.
pub open spec fn spawned(t: PieceType) -> Piece {
    Piece { piece_type: t, x: spawn_x(), y: 0, rotation: RotationState::Zero }
}

/// `after` took its next piece from the end of `before`'s bag, refilling the bag
/// with a shuffled set of all seven types first when it was empty.
pub open spec fn drew_next(before: &TetrisGame, after: &TetrisGame) -> bool {
    exists|full: Seq<PieceType>|
        {
            &&& (before.bag@.len() == 0 ==> full.len() == 7 && full.to_multiset() == all_pieces().to_multiset())
            &&& (before.bag@.len() > 0 ==> full == before.bag@)
            &&& after.next_piece == full.last()
            &&& after.bag@ == full.drop_last()
        }
}

impl TetrisGame {
    fn new_bag(rng: &mut ThreadRng) -> (bag: Vec<PieceType>)
        ensures
            bag@.len() == 7,
            bag@.to_multiset() == all_pieces().to_multiset(),
    {
        let all = PieceType::all();
        let mut bag: Vec<PieceType> = Vec::new();
        let mut i: usize = 0;
        while i < 7
            invariant
                i <= 7,
                all@ == all_pieces(),
                bag@ == all_pieces().take(i as int),
            decreases 7 - i,
        {
            bag.push(all[i]);
            i += 1;
            assert(bag@ =~= all_pieces().take(i as int));
        }
        assert(all_pieces().take(7) =~= all_pieces());
        shuffle(&mut bag, rng);
        bag
    }

    /// Takes the next piece from the bag (refilling it when empty) and brings the
    /// previous next piece into play; the game ends when its spawn position is blocked.
    fn spawn_piece(&mut self)
        requires
            well_shaped(old(self).rows()),
        ensures
            drew_next(old(self), final(self)),
            collides(old(self).rows(), spawned(old(self).next_piece)) ==> final(self).game_over
                && final(self).current_piece == old(self).current_piece,
            !collides(old(self).rows(), spawned(old(self).next_piece)) ==> final(self).game_over == old(self).game_over
                && final(self).current_piece == Some(spawned(old(self).next_piece)),
            final(self).grid@ == old(self).grid@,
            final(self).mode == old(self).mode,
            final(self).hold_piece == old(self).hold_piece,
            final(self).can_hold == old(self).can_hold,
            final(self).score == old(self).score,
            final(self).level == old(self).level,
            final(self).lines_cleared == old(self).lines_cleared,
            final(self).lock_delay_active == old(self).lock_delay_active,
            final(self).lock_delay_resets == old(self).lock_delay_resets,
            final(self).lock_delay_max_resets == old(self).lock_delay_max_resets,
            final(self).last_action_was_rotation == old(self).last_action_was_rotation,
            final(self).last_kick_index == old(self).last_kick_index,
            final(self).target_lines == old(self).target_lines,
    {
        if self.bag.len() == 0 {
            self.bag = Self::new_bag(&mut self.rng);
        }
        let ghost full = self.bag@;
        let piece_type = self.next_piece;
        let popped = self.bag.pop();
        match popped {
            Some(t) => {
                self.next_piece = t;
            },
            None => {},
        }
        assert(full.len() > 0);
        assert(self.bag@ == full.drop_last());
        assert(drew_next(old(self), self));
        let piece = Piece::new(piece_type);
        if self.check_collision(&piece) {
            self.game_over = true;
            return;
        }
        self.current_piece = Some(piece);
    }

    /// The kind of T-spin that locking `piece` makes, if any.
    fn check_t_spin(&self, piece: &Piece) -> (r: Option<bool>)
        requires
            well_shaped(self.rows()),
            piece_box_ok(*piece),
        ensures
            r == t_spin_kind(self.rows(), *piece, self.last_action_was_rotation, self.last_kick_index as int),
    {
        if piece.piece_type != PieceType::T {
            return None;
        }
        if !self.last_action_was_rotation {
            return None;
        }
        let center_x = piece.x + 1;
        let center_y = piece.y + 1;
        let corners = [
            (center_x - 1, center_y - 1),
            (center_x + 1, center_y - 1),
            (center_x - 1, center_y + 1),
            (center_x + 1, center_y + 1),
        ];
        let ghost tc = t_corners(*piece);
        let mut occupied_count: u32 = 0;
        let mut front_corners_occupied: u32 = 0;
        let mut i: usize = 0;
        while i < 4
            invariant
                i <= 4,
                well_shaped(self.rows()),
                tc == t_corners(*piece),
                forall|j: int| 0 <= j < 4 ==> (corners@[j].0 as int, corners@[j].1 as int) == #[trigger] tc[j],
                occupied_count == occupied_corners(self.rows(), *piece, i as int, false),
                front_corners_occupied == occupied_corners(self.rows(), *piece, i as int, true),
                occupied_count <= i,
                front_corners_occupied <= i,
            decreases 4 - i,
        {
            let (x, y) = corners[i];
            assert((x as int, y as int) == tc[i as int]);
            let is_occupied = if x < 0 || x >= TETRIS_GRID_WIDTH as i32 || y < 0 || y >= TETRIS_GRID_HEIGHT as i32 {
                true
            } else {
                assert(self.grid@[y as int]@ == self.rows()[y as int]);
                self.grid[y as usize][x as usize].is_some()
            };
            assert(is_occupied == corner_occupied(self.rows(), tc[i as int].0, tc[i as int].1));
            if is_occupied {
                occupied_count += 1;
                let is_front = match piece.rotation {
                    RotationState::Zero => i == 0 || i == 1,
                    RotationState::R => i == 1 || i == 3,
                    RotationState::Two => i == 2 || i == 3,
                    RotationState::L => i == 0 || i == 2,
                };
                if is_front {
                    front_corners_occupied += 1;
                }
            }
            i += 1;
        }
        if occupied_count < 3 {
            return None;
        }
        let is_proper = front_corners_occupied == 2 || self.last_kick_index == 4;
        Some(is_proper)
    }
}

/// `after` is `before` once the piece `p` has locked (the last action being a turn
/// when `last_rot`): its blocks are written, full rows cleared and scored (a
/// T-spin scores its own points in place of the line score), the level
/// advanced, hold allowed again, the lock delay reset, and the next piece
/// brought into play.
pub open spec fn locked_as(before: &TetrisGame, p: Piece, last_rot: bool, after: &TetrisGame) -> bool {
    let kind = t_spin_kind(before.rows(), p, last_rot, before.last_kick_index as int);
    let pl = placed(before.rows(), p);
    let n = full_count(pl);
    let lines1 = before.lines_cleared + n;
    let level1 = if n > 0 { level_after(before.mode, before.level as int, lines1) } else { before.level as int };
    let points = match kind {
        Some(proper) => t_spin_points(proper, n),
        None => line_points(n),
    };
    let ended = before.game_over || (n > 0 && before.mode == TetrisMode::Sprint && lines1 >= before.target_lines);
    &&& after.rows() == cleared(pl)
    &&& after.lines_cleared == lines1
    &&& after.level == level1
    &&& after.score == before.score + points * (before.level + 1)
    &&& after.can_hold
    &&& !after.lock_delay_active
    &&& after.lock_delay_resets == 0
    &&& !after.last_action_was_rotation
    &&& after.mode == before.mode
    &&& after.hold_piece == before.hold_piece
    &&& after.target_lines == before.target_lines
    &&& after.lock_delay_max_resets == before.lock_delay_max_resets
    &&& after.last_kick_index == before.last_kick_index
    &&& drew_next(before, after)
    &&& if collides(cleared(pl), spawned(before.next_piece)) {
        after.game_over && after.current_piece is None
    } else {
        after.current_piece == Some(spawned(before.next_piece)) && after.game_over == ended
    }
}

proof fn lemma_placed_shape(rows: Seq<Seq<Option<PieceType>>>, p: Piece)
    requires
        well_shaped(rows),
    ensures
        well_shaped(placed(rows, p)),
{
}

impl TetrisGame {
    /// Locks the piece in play where it is (see `locked_as`). Without a piece in
    /// play nothing happens.
    fn lock_piece(&mut self)
        requires
            old(self).wf(),
            lock_now_fits(old(self)),
        ensures
            final(self).wf(),
            match old(self).current_piece {
                None => final(self).current_piece == old(self).current_piece && same_board(old(self), final(self))
                    && final(self).lock_delay_resets == old(self).lock_delay_resets
                    && final(self).last_action_was_rotation == old(self).last_action_was_rotation
                    && final(self).last_kick_index == old(self).last_kick_index,
                Some(p) => locked_as(old(self), p, old(self).last_action_was_rotation, final(self)),
            },
    {
        let taken = self.current_piece.take();
        match taken {
            None => {},
            Some(piece) => {
                let ghost before = *old(self);
                let t_spin_type = self.check_t_spin(&piece);
                self.place_piece(&piece);
                proof {
                    lemma_placed_shape(old(self).rows(), piece);
                    lemma_kept_rows_len(self.rows());
                }
                let level_before = self.level;
                let lines_cleared = self.clear_lines_and_return_count(t_spin_type.is_none());
                assert(lines_cleared <= 20);
                match t_spin_type {
                    Some(is_proper) => {
                        let base_score: u32 = if is_proper {
                            if lines_cleared == 0 {
                                400
                            } else if lines_cleared == 1 {
                                800
                            } else if lines_cleared == 2 {
                                1200
                            } else if lines_cleared == 3 {
                                1600
                            } else {
                                0
                            }
                        } else {
                            if lines_cleared == 0 {
                                100
                            } else if lines_cleared == 1 {
                                200
                            } else if lines_cleared == 2 {
                                400
                            } else {
                                0
                            }
                        };
                        self.score += base_score * (level_before + 1);
                    },
                    None => {},
                }
                self.lock_delay_active = false;
                self.lock_delay_resets = 0;
                self.last_action_was_rotation = false;
                self.can_hold = true;
                proof {
                    lemma_cleared_shape(placed(old(self).rows(), piece));
                }
                self.spawn_piece();
            },
        }
    }
}

/// A dropping piece comes to rest at one row only.
pub proof fn lemma_landing_unique(rows: Seq<Seq<Option<PieceType>>>, p: Piece, y1: int, y2: int)
    requires
        is_landing(rows, p, y1),
        is_landing(rows, p, y2),
    ensures
        y1 == y2,
{
    if y1 < y2 {
        assert(!collides(rows, piece_at_row(p, y1 + 1)));
    } else if y2 < y1 {
        assert(!collides(rows, piece_at_row(p, y2 + 1)));
    }
}

impl TetrisGame {
    /// Moves the piece in play one row down, if it is free there.
    pub fn soft_drop(&mut self)
        requires
            old(self).wf(),
        ensures
            final(self).wf(),
            same_board(old(self), final(self)),
            final(self).last_kick_index == old(self).last_kick_index,
            match old(self).current_piece {
                None => final(self).current_piece == old(self).current_piece
                    && final(self).lock_delay_resets == old(self).lock_delay_resets
                    && final(self).last_action_was_rotation == old(self).last_action_was_rotation,
                Some(p) => if !collides(old(self).rows(), shifted_piece(p, 0, 1)) {
                    final(self).current_piece == Some(shifted_piece(p, 0, 1)) && !final(self).last_action_was_rotation
                        && final(self).lock_delay_resets == resets_after_move(old(self))
                } else {
                    final(self).current_piece == old(self).current_piece
                        && final(self).last_action_was_rotation == old(self).last_action_was_rotation
                        && final(self).lock_delay_resets == old(self).lock_delay_resets
                },
            },
    {
        self.move_piece(0, 1);
    }

    /// Drops the piece in play as far as it goes and locks it there.
    pub fn hard_drop(&mut self)
        requires
            old(self).wf(),
            drop_fits_spec(old(self)),
        ensures
            final(self).wf(),
            match old(self).current_piece {
                None => final(self).current_piece == old(self).current_piece && same_board(old(self), final(self))
                    && final(self).lock_delay_resets == old(self).lock_delay_resets
                    && final(self).last_action_was_rotation == old(self).last_action_was_rotation
                    && final(self).last_kick_index == old(self).last_kick_index,
                Some(p) => exists|yl: int|
                    #[trigger] is_landing(old(self).rows(), p, yl) && locked_as(
                        old(self),
                        piece_at_row(p, yl),
                        old(self).last_action_was_rotation && yl == p.y,
                        final(self),
                    ),
            },
    {
        let ghost start = self.current_piece;
        let ghost mut y: int = match start {
            Some(p) => p.y as int,
            None => 0,
        };
        proof {
            if let Some(p) = start {
                assert(piece_at_row(p, p.y as int) == p);
            }
        }
        loop
            invariant
                self.wf(),
                drop_fits_spec(old(self)),
                same_board(old(self), self),
                self.last_kick_index == old(self).last_kick_index,
                start == old(self).current_piece,
                match start {
                    None => self.current_piece == start && self.lock_delay_resets == old(self).lock_delay_resets
                        && self.last_action_was_rotation == old(self).last_action_was_rotation,
                    Some(p) => {
                        &&& p.y <= y <= 19
                        &&& self.current_piece == Some(piece_at_row(p, y))
                        &&& forall|z: int| p.y < z <= y ==> !#[trigger] collides(old(self).rows(), piece_at_row(p, z))
                        &&& self.last_action_was_rotation == (old(self).last_action_was_rotation && y == p.y)
                    },
                },
            ensures
                start matches Some(p) ==> collides(old(self).rows(), piece_at_row(p, y + 1)),
            decreases match self.current_piece {
                Some(q) => 20 - q.y,
                None => 0,
            },
        {
            let ghost before = self.current_piece;
            let moved = self.move_piece(0, 1);
            if !moved {
                proof {
                    if let Some(p) = start {
                        let q = before.unwrap();
                        assert(q.y == y);
                        assert(shifted_piece(q, 0, 1) == piece_at_row(p, y + 1));
                    }
                }
                break;
            }
            proof {
                let p = start.unwrap();
                let q = before.unwrap();
                assert(q.y == y);
                assert(shifted_piece(q, 0, 1) == piece_at_row(p, y + 1));
                y = y + 1;
            }
        }
        let ghost mid = *self;
        proof {
            if let Some(p) = start {
                let q = mid.current_piece.unwrap();
                assert(q.y == y);
                assert(shifted_piece(q, 0, 1) == piece_at_row(p, y + 1));
                assert(is_landing(old(self).rows(), p, y));
                assert(mid.rows() == old(self).rows());
                assert(lock_fits(old(self), piece_at_row(p, y), old(self).last_action_was_rotation && y == p.y));
            }
        }
        self.lock_piece();
    }
}

impl TetrisGame {
    /// Puts the piece in play on hold (once per piece): a held piece comes back
    /// into play at the spawn position, or, when none was held, the next piece comes in.
    pub fn hold(&mut self)
        requires
            old(self).wf(),
        ensures
            final(self).wf(),
            !old(self).can_hold || old(self).current_piece is None ==> {
                &&& final(self).current_piece == old(self).current_piece
                &&& same_board(old(self), final(self))
                &&& final(self).lock_delay_resets == old(self).lock_delay_resets
                &&& final(self).last_action_was_rotation == old(self).last_action_was_rotation
                &&& final(self).last_kick_index == old(self).last_kick_index
            },
            old(self).can_hold && old(self).current_piece is Some ==> {
                let p = old(self).current_piece.unwrap();
                &&& final(self).hold_piece == Some(p.piece_type)
                &&& final(self).last_kick_index == old(self).last_kick_index
                &&& !final(self).can_hold
                &&& !final(self).lock_delay_active
                &&& final(self).lock_delay_resets == 0
                &&& !final(self).last_action_was_rotation
                &&& final(self).grid@ == old(self).grid@
                &&& final(self).score == old(self).score
                &&& final(self).level == old(self).level
                &&& final(self).lines_cleared == old(self).lines_cleared
                &&& final(self).mode == old(self).mode
                &&& final(self).target_lines == old(self).target_lines
                &&& match old(self).hold_piece {
                    Some(h) => {
                        &&& final(self).current_piece == Some(spawned(h))
                        &&& final(self).next_piece == old(self).next_piece
                        &&& final(self).bag@ == old(self).bag@
                        &&& final(self).game_over == old(self).game_over
                    },
                    None => {
                        &&& drew_next(old(self), final(self))
                        &&& collides(old(self).rows(), spawned(old(self).next_piece)) ==> final(self).game_over
                            && final(self).current_piece is None
                        &&& !collides(old(self).rows(), spawned(old(self).next_piece)) ==> final(self).game_over
                            == old(self).game_over && final(self).current_piece == Some(spawned(old(self).next_piece))
                    },
                }
            },
    {
        if !self.can_hold {
            return;
        }
        let taken = self.current_piece.take();
        match taken {
            None => {},
            Some(current) => {
                match self.hold_piece {
                    Some(held_type) => {
                        self.hold_piece = Some(current.piece_type);
                        self.current_piece = Some(Piece::new(held_type));
                    },
                    None => {
                        self.hold_piece = Some(current.piece_type);
                        self.spawn_piece();
                    },
                }
                self.lock_delay_active = false;
                self.lock_delay_resets = 0;
                self.last_action_was_rotation = false;
                self.can_hold = false;
            },
        }
    }

    /// Whether the piece in play rests on something (it cannot move one row down).
    pub fn is_grounded(&self) -> (r: bool)
        requires
            self.wf(),
        ensures
            r == match self.current_piece {
                Some(p) => collides(self.rows(), shifted_piece(p, 0, 1)),
                None => false,
            },
    {
        match self.current_piece {
            Some(piece) => {
                let test_piece = Piece { y: piece.y + 1, ..piece };
                assert(test_piece == shifted_piece(piece, 0, 1));
                self.check_collision(&test_piece)
            },
            None => false,
        }
    }

    fn check_collision_for_piece(&self, piece: &Piece, dx: i32, dy: i32) -> (r: bool)
        requires
            well_shaped(self.rows()),
            i32::MIN <= piece.x + dx && piece.x + dx + 3 <= i32::MAX,
            i32::MIN <= piece.y + dy && piece.y + dy + 3 <= i32::MAX,
        ensures
            r == collides(self.rows(), shifted_piece(*piece, dx as int, dy as int)),
    {
        let test_piece = Piece { x: piece.x + dx, y: piece.y + dy, ..*piece };
        assert(test_piece == shifted_piece(*piece, dx as int, dy as int));
        self.check_collision(&test_piece)
    }

    /// The cells where the piece in play would come to rest if dropped straight down.
    pub fn get_ghost_position(&self) -> (r: Option<Vec<(i32, i32)>>)
        requires
            self.wf(),
        ensures
            match self.current_piece {
                None => r is None,
                Some(p) => r matches Some(b) && exists|yl: int|
                    #[trigger] is_landing(self.rows(), p, yl) && b@.len() == 4 && forall|i: int|
                        0 <= i < 4 ==> (b@[i].0 as int, b@[i].1 as int) == #[trigger] piece_cells(piece_at_row(p, yl))[i],
            },
    {
        match self.current_piece {
            None => None,
            Some(piece) => {
                let mut ghost_piece = piece;
                assert(piece_at_row(piece, piece.y as int) == piece);
                while !self.check_collision_for_piece(&ghost_piece, 0, 1)
                    invariant
                        self.wf(),
                        self.current_piece == Some(piece),
                        piece.y <= ghost_piece.y <= 19,
                        ghost_piece == piece_at_row(piece, ghost_piece.y as int),
                        forall|z: int| piece.y < z <= ghost_piece.y ==> !#[trigger] collides(self.rows(), piece_at_row(piece, z)),
                    decreases 20 - ghost_piece.y,
                {
                    assert(shifted_piece(ghost_piece, 0, 1) == piece_at_row(piece, ghost_piece.y + 1));
                    proof {
                        lemma_free_piece_box(self.rows(), shifted_piece(ghost_piece, 0, 1));
                    }
                    ghost_piece.y = ghost_piece.y + 1;
                }
                assert(shifted_piece(ghost_piece, 0, 1) == piece_at_row(piece, ghost_piece.y + 1));
                assert(is_landing(self.rows(), piece, ghost_piece.y as int));
                proof {
                    lemma_cells_of_box(ghost_piece);
                }
                Some(ghost_piece.blocks())
            },
        }
    }

    /// The number of rows that are full once the blocks of `piece` are written in.
    fn full_rows_after(&self, piece: &Piece) -> (n: u32)
        requires
            well_shaped(self.rows()),
            piece_box_ok(*piece),
        ensures
            n == full_count(placed(self.rows(), *piece)),
            n <= 20,
    {
        proof {
            lemma_cells_of_box(*piece);
        }
        let ghost rows = self.rows();
        let ghost pl = placed(rows, *piece);
        let ghost cells = piece_cells(*piece);
        let blocks = piece.blocks();
        let mut count: u32 = 0;
        let mut y: usize = 0;
        while y < TETRIS_GRID_HEIGHT
            invariant
                y <= 20,
                well_shaped(rows),
                rows == self.rows(),
                self.grid@.len() == 20,
                pl == placed(rows, *piece),
                cells == piece_cells(*piece),
                cells.len() == 4,
                blocks@.len() == 4,
                forall|j: int| 0 <= j < 4 ==> (blocks@[j].0 as int, blocks@[j].1 as int) == #[trigger] cells[j],
                count == full_count(pl.take(y as int)),
                count <= y,
            decreases 20 - y,
        {
            assert(self.grid@[y as int]@ == rows[y as int]);
            let mut full = true;
            let mut x: usize = 0;
            while x < TETRIS_GRID_WIDTH
                invariant
                    x <= 10,
                    y < 20,
                    well_shaped(rows),
                    rows == self.rows(),
                    self.grid@.len() == 20,
                    self.grid@[y as int]@ == rows[y as int],
                    pl == placed(rows, *piece),
                    cells == piece_cells(*piece),
                    cells.len() == 4,
                    blocks@.len() == 4,
                    forall|j: int| 0 <= j < 4 ==> (blocks@[j].0 as int, blocks@[j].1 as int) == #[trigger] cells[j],
                    full == forall|i: int| 0 <= i < x ==> #[trigger] pl[y as int][i] is Some,
                decreases 10 - x,
            {
                let xi = x as i32;
                let yi = y as i32;
                let covered = (blocks[0].0 == xi && blocks[0].1 == yi) || (blocks[1].0 == xi && blocks[1].1 == yi)
                    || (blocks[2].0 == xi && blocks[2].1 == yi) || (blocks[3].0 == xi && blocks[3].1 == yi);
                proof {
                    let c = (x as int, y as int);
                    assert(blocks@[0].0 as int == cells[0].0 && blocks@[0].1 as int == cells[0].1);
                    assert(blocks@[1].0 as int == cells[1].0 && blocks@[1].1 as int == cells[1].1);
                    assert(blocks@[2].0 as int == cells[2].0 && blocks@[2].1 as int == cells[2].1);
                    assert(blocks@[3].0 as int == cells[3].0 && blocks@[3].1 as int == cells[3].1);
                    if cells.contains(c) {
                        let j = choose|j: int| 0 <= j < cells.len() && cells[j] == c;
                        assert(cells[j] == c);
                    }
                    if covered {
                        if blocks@[0].0 == xi && blocks@[0].1 == yi {
                            assert(cells[0] == c);
                        } else if blocks@[1].0 == xi && blocks@[1].1 == yi {
                            assert(cells[1] == c);
                        } else if blocks@[2].0 == xi && blocks@[2].1 == yi {
                            assert(cells[2] == c);
                        } else {
                            assert(cells[3] == c);
                        }
                    }
                    assert(covered == cells.contains(c));
                    assert(pl[y as int][x as int] == if cells.contains(c) { Some(piece.piece_type) } else { rows[y as int][x as int] });
                }
                if !covered && self.grid[y][x].is_none() {
                    full = false;
                }
                x += 1;
            }
            assert(full == row_full(pl[y as int]));
            proof {
                let t = pl.take(y + 1);
                assert(t.drop_last() == pl.take(y as int));
                assert(t.last() == pl[y as int]);
                lemma_kept_rows_len(pl.take(y as int));
            }
            if full {
                count += 1;
            }
            y += 1;
        }
        assert(pl.take(20) == pl);
        count
    }

    /// Whether locking `piece` (the last action being a turn when `last_rot`)
    /// keeps the counters within `u32` (see `lock_fits`).
    fn lock_fits_for(&self, piece: &Piece, last_rot: bool) -> (r: bool)
        requires
            well_shaped(self.rows()),
            piece_box_ok(*piece),
            last_rot ==> self.last_action_was_rotation,
        ensures
            r == lock_fits(self, *piece, last_rot),
    {
        let n = self.full_rows_after(piece);
        let kind = if last_rot {
            self.check_t_spin(piece)
        } else {
            None
        };
        let lines_ok = n == 0 || self.lines_cleared as u64 + n as u64 <= u32::MAX as u64;
        let factor: u64 = self.level as u64 + 1;
        let score: u64 = self.score as u64;
        match kind {
            None => {
                let base: u64 = if n == 1 {
                    100
                } else if n == 2 {
                    300
                } else if n == 3 {
                    500
                } else if n == 4 {
                    800
                } else {
                    0
                };
                assert(base == line_points(n as int));
                assert(base * factor <= 800 * 4294967296) by (nonlinear_arith)
                    requires
                        base <= 800,
                        factor <= 4294967296,
                ;
                lines_ok && (n == 0 || (factor <= u32::MAX as u64 && score + base * factor <= u32::MAX as u64))
            },
            Some(proper) => {
                let base: u64 = if proper {
                    if n == 0 {
                        400
                    } else if n == 1 {
                        800
                    } else if n == 2 {
                        1200
                    } else if n == 3 {
                        1600
                    } else {
                        0
                    }
                } else {
                    if n == 0 {
                        100
                    } else if n == 1 {
                        200
                    } else if n == 2 {
                        400
                    } else {
                        0
                    }
                };
                assert(base == t_spin_points(proper, n as int));
                assert(base * factor <= 1600 * 4294967296) by (nonlinear_arith)
                    requires
                        base <= 1600,
                        factor <= 4294967296,
                ;
                lines_ok && factor <= u32::MAX as u64 && score + base * factor <= u32::MAX as u64
            },
        }
    }

    /// Whether locking the piece in play where it is keeps the counters within
    /// `u32`; `advance` asks this of a lock that is due.
    pub fn lock_fits_now(&self) -> (r: bool)
        requires
            self.wf(),
        ensures
            r == lock_now_fits(self),
    {
        match self.current_piece {
            None => true,
            Some(piece) => self.lock_fits_for(&piece, self.last_action_was_rotation),
        }
    }

    /// Whether dropping the piece in play and locking it where it lands keeps
    /// the counters within `u32`; `hard_drop` asks this.
    pub fn drop_fits(&self) -> (r: bool)
        requires
            self.wf(),
        ensures
            r == drop_fits_spec(self),
    {
        match self.current_piece {
            None => true,
            Some(piece) => {
                let mut ghost_piece = piece;
                assert(piece_at_row(piece, piece.y as int) == piece);
                while !self.check_collision_for_piece(&ghost_piece, 0, 1)
                    invariant
                        self.wf(),
                        self.current_piece == Some(piece),
                        piece.y <= ghost_piece.y <= 19,
                        piece_box_ok(ghost_piece),
                        ghost_piece == piece_at_row(piece, ghost_piece.y as int),
                        forall|z: int| piece.y < z <= ghost_piece.y ==> !#[trigger] collides(self.rows(), piece_at_row(piece, z)),
                    decreases 20 - ghost_piece.y,
                {
                    assert(shifted_piece(ghost_piece, 0, 1) == piece_at_row(piece, ghost_piece.y + 1));
                    proof {
                        lemma_free_piece_box(self.rows(), shifted_piece(ghost_piece, 0, 1));
                    }
                    ghost_piece.y = ghost_piece.y + 1;
                }
                assert(shifted_piece(ghost_piece, 0, 1) == piece_at_row(piece, ghost_piece.y + 1));
                let yl = ghost_piece.y;
                assert(is_landing(self.rows(), piece, yl as int));
                let r = self.lock_fits_for(&ghost_piece, self.last_action_was_rotation && yl == piece.y);
                proof {
                    assert forall|y2: int| #[trigger] is_landing(self.rows(), piece, y2) implies lock_fits(
                        self,
                        piece_at_row(piece, y2),
                        self.last_action_was_rotation && y2 == piece.y,
                    ) == r by {
                        lemma_landing_unique(self.rows(), piece, yl as int, y2);
                    }
                }
                r
            },
        }
    }

    /// Whether the game has ended.
    pub fn is_finished(&self) -> (r: bool)
        ensures
            r == self.game_over,
    {
        self.game_over
    }

    /// One step of the game clock. `lock_delay_expired` tells whether the lock
    /// delay of a resting piece has run out, `fall_due` whether a gravity step is
    /// due. A resting piece starts its lock delay, and locks when the delay ran out
    /// or no restarts are left; a piece that does not rest ends its lock delay.
    /// Unless the piece locked, a due gravity step moves it one row down. Returns
    /// whether the piece locked. An ended game does not change.
    pub fn advance(&mut self, lock_delay_expired: bool, fall_due: bool) -> (locked: bool)
        requires
            old(self).wf(),
            !old(self).game_over && old(self).current_piece is Some && collides(
                old(self).rows(),
                shifted_piece(old(self).current_piece.unwrap(), 0, 1),
            ) && (lock_delay_expired || old(self).lock_delay_resets >= old(self).lock_delay_max_resets)
                ==> lock_now_fits(old(self)),
        ensures
            final(self).wf(),
            old(self).game_over ==> !locked && final(self).current_piece == old(self).current_piece
                && same_board(old(self), final(self)) && final(self).lock_delay_resets == old(self).lock_delay_resets
                && final(self).last_action_was_rotation == old(self).last_action_was_rotation,
            !old(self).game_over ==> match old(self).current_piece {
                None => !locked && final(self).current_piece is None && !final(self).lock_delay_active
                    && final(self).lock_delay_resets == 0 && final(self).grid@ == old(self).grid@
                    && final(self).score == old(self).score && final(self).game_over == old(self).game_over,
                Some(p) => if collides(old(self).rows(), shifted_piece(p, 0, 1)) {
                    if lock_delay_expired || old(self).lock_delay_resets >= old(self).lock_delay_max_resets {
                        locked && locked_as(old(self), p, old(self).last_action_was_rotation, final(self))
                    } else {
                        &&& !locked
                        &&& final(self).lock_delay_active
                        &&& final(self).current_piece == old(self).current_piece
                        &&& final(self).lock_delay_resets == old(self).lock_delay_resets
                        &&& final(self).grid@ == old(self).grid@
                        &&& final(self).score == old(self).score
                        &&& final(self).game_over == old(self).game_over
                    }
                } else {
                    &&& !locked
                    &&& !final(self).lock_delay_active
                    &&& final(self).lock_delay_resets == 0
                    &&& final(self).current_piece == if fall_due { Some(shifted_piece(p, 0, 1)) } else { Some(p) }
                    &&& final(self).grid@ == old(self).grid@
                    &&& final(self).score == old(self).score
                    &&& final(self).game_over == old(self).game_over
                },
            },
    {
        if self.game_over {
            return false;
        }
        let grounded = self.is_grounded();
        if grounded {
            if !self.lock_delay_active {
                self.lock_delay_active = true;
            }
            if lock_delay_expired || self.lock_delay_resets >= self.lock_delay_max_resets {
                let ghost mid = *self;
                self.lock_piece();
                assert(mid.rows() == old(self).rows());
                return true;
            }
        } else {
            self.lock_delay_active = false;
            self.lock_delay_resets = 0;
        }
        if fall_due {
            self.move_piece(0, 1);
        }
        false
    }
}

/// Row `y` of a fresh playfield for the mode: Dig mode starts with its bottom rows
/// full of garbage (type L) but for one hole each; every other row is empty.
pub open spec fn fresh_row_ok(mode: TetrisMode, row: Seq<Option<PieceType>>, y: int) -> bool {
    if mode == TetrisMode::Dig && y >= 10 {
        row.len() == 10 && exists|hole: int|
            0 <= hole < 10 && #[trigger] row[hole] is None && forall|x: int|
                0 <= x < 10 && x != hole ==> row[x] == Some(PieceType::L)
    } else {
        row == empty_row()
    }
}

fn make_row(hole: usize, fill: bool) -> (row: Vec<Option<PieceType>>)
    requires
        !fill || hole < 10,
    ensures
        row@.len() == 10,
        forall|x: int| 0 <= x < 10 ==> #[trigger] row@[x] == if fill && x != hole { Some(PieceType::L) } else { None },
{
    let mut row: Vec<Option<PieceType>> = Vec::new();
    let mut x: usize = 0;
    while x < TETRIS_GRID_WIDTH
        invariant
            x <= 10,
            row@.len() == x,
            forall|i: int| 0 <= i < x ==> #[trigger] row@[i] == if fill && i != hole { Some(PieceType::L) } else { None },
        decreases 10 - x,
    {
        if fill && x != hole {
            row.push(Some(PieceType::L));
        } else {
            row.push(None);
        }
        x += 1;
    }
    row
}

impl TetrisGame {
    /// Prepares a fresh playfield for the mode: garbage rows with one random hole
    /// each in Dig mode, level 5 in Survival mode.
    fn setup_mode(&mut self)
        requires
            old(self).grid@.len() == 20,
            forall|i: int| 0 <= i < 20 ==> #[trigger] old(self).rows()[i] == empty_row(),
            old(self).level == 0,
        ensures
            final(self).grid@.len() == 20,
            forall|i: int| 0 <= i < 20 ==> fresh_row_ok(final(self).mode, #[trigger] final(self).rows()[i], i),
            final(self).level == if old(self).mode == TetrisMode::Survival { 5u32 } else { 0u32 },
            final(self).mode == old(self).mode,
            final(self).current_piece == old(self).current_piece,
            final(self).next_piece == old(self).next_piece,
            final(self).hold_piece == old(self).hold_piece,
            final(self).can_hold == old(self).can_hold,
            final(self).score == old(self).score,
            final(self).lines_cleared == old(self).lines_cleared,
            final(self).game_over == old(self).game_over,
            final(self).bag@ == old(self).bag@,
            final(self).lock_delay_active == old(self).lock_delay_active,
            final(self).lock_delay_resets == old(self).lock_delay_resets,
            final(self).lock_delay_max_resets == old(self).lock_delay_max_resets,
            final(self).last_action_was_rotation == old(self).last_action_was_rotation,
            final(self).last_kick_index == old(self).last_kick_index,
            final(self).target_lines == old(self).target_lines,
    {
        match self.mode {
            TetrisMode::Dig => {
                let mut y: usize = TETRIS_GRID_HEIGHT - TETRIS_DIG_GARBAGE_ROWS;
                while y < TETRIS_GRID_HEIGHT
                    invariant
                        10 <= y <= 20,
                        self.grid@.len() == 20,
                        self.mode == TetrisMode::Dig,
                        forall|i: int| 0 <= i < y ==> fresh_row_ok(self.mode, #[trigger] self.rows()[i], i),
                        forall|i: int| y <= i < 20 ==> #[trigger] self.rows()[i] == empty_row(),
                        self.level == old(self).level,
                        self.mode == old(self).mode,
                        self.current_piece == old(self).current_piece,
                        self.next_piece == old(self).next_piece,
                        self.hold_piece == old(self).hold_piece,
                        self.can_hold == old(self).can_hold,
                        self.score == old(self).score,
                        self.lines_cleared == old(self).lines_cleared,
                        self.game_over == old(self).game_over,
                        self.bag@ == old(self).bag@,
                        self.lock_delay_active == old(self).lock_delay_active,
                        self.lock_delay_resets == old(self).lock_delay_resets,
                        self.lock_delay_max_resets == old(self).lock_delay_max_resets,
                        self.last_action_was_rotation == old(self).last_action_was_rotation,
                        self.last_kick_index == old(self).last_kick_index,
                        self.target_lines == old(self).target_lines,
                    decreases 20 - y,
                {
                    let ghost r_head = self.rows();
                    assert(forall|i: int| 0 <= i < y ==> fresh_row_ok(self.mode, #[trigger] r_head[i], i));
                    assert(forall|i: int| y <= i < 20 ==> #[trigger] r_head[i] == empty_row());
                    let hole_x = gen_range(&mut self.rng, 0, TETRIS_GRID_WIDTH as u64) as usize;
                    let row = make_row(hole_x, true);
                    let ghost g0 = self.grid@;
                    let ghost r0 = self.rows();
                    self.grid.remove(y);
                    self.grid.insert(y, row);
                    assert(self.grid@ =~= g0.update(y as int, row));
                    assert(self.rows() =~= r0.update(y as int, row@));
                    assert(row@[hole_x as int] is None);
                    assert(fresh_row_ok(self.mode, self.rows()[y as int], y as int));
                    assert forall|i: int| 0 <= i < y + 1 implies fresh_row_ok(self.mode, #[trigger] self.rows()[i], i) by {
                        if i < y {
                            assert(self.rows()[i] == r0[i]);
                            assert(r0[i] == r_head[i]);
                        }
                    }
                    assert forall|i: int| y + 1 <= i < 20 implies #[trigger] self.rows()[i] == empty_row() by {
                        assert(self.rows()[i] == r0[i]);
                        assert(r0[i] == r_head[i]);
                    }
                    y += 1;
                }
            },
            TetrisMode::Survival => {
                self.level = 5;
                assert forall|i: int| 0 <= i < 20 implies fresh_row_ok(self.mode, #[trigger] self.rows()[i], i) by {
                    assert(self.rows()[i] == old(self).rows()[i]);
                }
            },
            _ => {
                assert forall|i: int| 0 <= i < 20 implies fresh_row_ok(self.mode, #[trigger] self.rows()[i], i) by {
                    assert(self.rows()[i] == old(self).rows()[i]);
                }
            },
        }
    }

    /// A new game in the given mode: a fresh playfield (with garbage in Dig mode),
    /// a shuffled bag, the first piece in play, level 5 in Survival mode and a
    /// 40-line target in Sprint mode.
    pub fn new(mode: TetrisMode) -> (g: TetrisGame)
        ensures
            g.wf(),
            g.mode == mode,
            forall|y: int| 0 <= y < 20 ==> fresh_row_ok(mode, #[trigger] g.rows()[y], y),
            g.current_piece matches Some(p) && p == spawned(p.piece_type),
            (g.bag@ + seq![g.next_piece, g.current_piece.unwrap().piece_type]).to_multiset() == all_pieces().to_multiset(),
            g.hold_piece is None,
            g.can_hold,
            g.score == 0,
            g.level == if mode == TetrisMode::Survival { 5u32 } else { 0u32 },
            g.lines_cleared == 0,
            !g.game_over,
            !g.lock_delay_active,
            g.lock_delay_resets == 0,
            g.lock_delay_max_resets == 20,
            !g.last_action_was_rotation,
            g.last_kick_index == 0,
            g.target_lines == if mode == TetrisMode::Sprint { 40u32 } else { 0u32 },
    {
        let mut rng = thread_rng();
        let mut bag = Self::new_bag(&mut rng);
        let ghost full = bag@;
        let next_piece = match bag.pop() {
            Some(t) => t,
            None => PieceType::I,
        };
        let mut grid: Vec<Vec<Option<PieceType>>> = Vec::new();
        let mut y: usize = 0;
        while y < TETRIS_GRID_HEIGHT
            invariant
                y <= 20,
                grid@.len() == y,
                forall|i: int| 0 <= i < y ==> #[trigger] grid@[i]@ == empty_row(),
            decreases 20 - y,
        {
            let row = make_row(0, false);
            assert(row@ =~= empty_row());
            grid.push(row);
            y += 1;
        }
        let mut game = TetrisGame {
            mode,
            grid,
            current_piece: None,
            next_piece,
            hold_piece: None,
            can_hold: true,
            score: 0,
            level: 0,
            lines_cleared: 0,
            game_over: false,
            bag,
            rng,
            lock_delay_active: false,
            lock_delay_resets: 0,
            lock_delay_max_resets: 20,
            last_action_was_rotation: false,
            last_kick_index: 0,
            target_lines: if mode == TetrisMode::Sprint { 40 } else { 0 },
        };
        assert forall|i: int| 0 <= i < 20 implies #[trigger] game.rows()[i] == empty_row() by {
            assert(game.rows()[i] == game.grid@[i]@);
        }
        game.setup_mode();
        assert forall|y: int| 0 <= y < 20 implies #[trigger] game.rows()[y].len() == 10 by {
            assert(fresh_row_ok(mode, game.rows()[y], y));
            if !(mode == TetrisMode::Dig && y >= 10) {
                assert(game.rows()[y] == empty_row());
            }
        }
        assert(!collides(game.rows(), spawned(next_piece))) by {
            lemma_offsets_in_box(next_piece, RotationState::Zero);
            assert forall|i: int| 0 <= i < 4 implies !#[trigger] blocked(
                game.rows(),
                piece_cells(spawned(next_piece))[i].0,
                piece_cells(spawned(next_piece))[i].1,
            ) by {
                let c = piece_cells(spawned(next_piece))[i];
                assert(0 <= c.1 <= 3);
                assert(fresh_row_ok(mode, game.rows()[c.1], c.1));
                assert(game.rows()[c.1] == empty_row());
            }
        }
        let ghost before_spawn = game.bag@;
        game.spawn_piece();
        proof {
            assert(full =~= before_spawn.push(next_piece));
            let rest = before_spawn.drop_last();
            assert(before_spawn == rest.push(game.next_piece));
            assert(game.bag@ == rest);
            assert(rest + seq![game.next_piece, next_piece] =~= full);
        }
        game
    }
}

/// Four quarter turns bring every piece back to its spawn cells.
pub proof fn lemma_four_turns(p: PieceType)
    ensures
        turned_offsets(p, 4) == base_offsets(p),
{
    lemma_turned_in_box(p, 0);
    assert(turned_offsets(p, 4) =~= base_offsets(p)) by {
        reveal_with_fuel(turned_offsets, 5);
    }
}

proof fn lemma_cells_of_box(p: Piece)
    requires
        piece_box_ok(p),
    ensures
        piece_in_range(p),
        piece_cells(p).len() == 4,
        forall|i: int| 0 <= i < 4 ==> {
            let c = #[trigger] piece_cells(p)[i];
            p.x <= c.0 <= p.x + 3 && p.y <= c.1 <= p.y + 3
        },
{
    lemma_offsets_in_box(p.piece_type, p.rotation);
}

proof fn lemma_free_piece_box(rows: Seq<Seq<Option<PieceType>>>, p: Piece)
    requires
        !collides(rows, p),
    ensures
        piece_box_ok(p),
{
    lemma_offsets_in_box(p.piece_type, p.rotation);
    let o0 = piece_offsets(p.piece_type, p.rotation)[0];
    assert(!blocked(rows, piece_cells(p)[0].0, piece_cells(p)[0].1));
    assert(piece_cells(p)[0] == (p.x + o0.0, p.y + o0.1));
}

} // verus!
