//! Playfield: the padded grid, the active piece, movement and rotation
//! validation, locking, and line clearing.
//!
//! The grid keeps two wall rows at the bottom and two wall columns on each
//! side, filled with the sentinel value 9, so that collision checks against
//! in-grid cells need no separate bounds tests.  Rows above the playable
//! area are a free margin: pieces may be kicked into it by the rotation
//! correction, and its content takes part in line shifting.
use vstd::prelude::*;
use crate::config::{
    HEIGHT_WITH_PADDING, INITIAL_MONO_COL, INITIAL_MONO_ROW, WIDTH_WITH_PADDING,
};
use crate::tetrimono::{fig_wf, occ, occ_low, rot_rel, Tetromino};

verus! {

pub type Grid = [[u8; WIDTH_WITH_PADDING]; HEIGHT_WITH_PADDING];

#[derive(Clone, Copy, Debug, PartialEq, Eq, Structural)]
pub enum MoveDirection {
    Down,
    Left,
    Right,
}

pub open spec fn grid_h() -> int {
    HEIGHT_WITH_PADDING as int
}

pub open spec fn grid_w() -> int {
    WIDTH_WITH_PADDING as int
}

/// Grid position (y, x) belongs to the wall border.
pub open spec fn wall_pos(y: int, x: int) -> bool {
    y < 2 || x < 2 || x >= grid_w() - 2
}

/// The wall border holds the sentinel 9 and every other cell holds a
/// colour code or is empty.
pub open spec fn grid_wf(b: Grid) -> bool {
    &&& forall|y: int, x: int| #![trigger b[y][x]]
        0 <= y < grid_h() && 0 <= x < grid_w() && wall_pos(y, x) ==> b[y][x] == 9
    &&& forall|y: int, x: int| #![trigger b[y][x]]
        0 <= y < grid_h() && 0 <= x < grid_w() && !wall_pos(y, x) ==> b[y][x] <= 7
}

/// Every occupied cell of `fig`, placed with its origin at (r, c), stays
/// inside the grid's index range.
pub open spec fn fits(fig: [[u8; 4]; 4], r: int, c: int) -> bool {
    forall|y: int, x: int| #![trigger occ(fig, y, x)]
        occ(fig, y, x) ==> r + y < grid_h() && c + x < grid_w()
}

/// Compositing `fig` with its origin at (r, c) overlaps a non-empty grid
/// cell.  A position outside the grid counts as occupied, in the spirit of
/// the wall border.
pub open spec fn hits(b: Grid, fig: [[u8; 4]; 4], r: int, c: int) -> bool {
    exists|y: int, x: int| #![trigger occ(fig, y, x)]
        occ(fig, y, x) && !(0 <= r + y < grid_h() && 0 <= c + x < grid_w() && b[r + y][c + x]
            == 0)
}

/// No occupied cell of `fig`, placed at (r, c), lands on a wall position.
pub open spec fn off_walls(fig: [[u8; 4]; 4], r: int, c: int) -> bool {
    forall|y: int, x: int| #![trigger occ(fig, y, x)]
        occ(fig, y, x) ==> !wall_pos(r + y, c + x)
}

/// Row offset of a move.
pub open spec fn dir_dy(d: MoveDirection) -> int {
    match d {
        MoveDirection::Down => -1,
        _ => 0,
    }
}

/// Column offset of a move.
pub open spec fn dir_dx(d: MoveDirection) -> int {
    match d {
        MoveDirection::Left => -1,
        MoveDirection::Right => 1,
        MoveDirection::Down => 0,
    }
}

/// Value of grid cell (y, x) once the active piece is drawn on top of the
/// grid: an occupied figure cell covering the position wins, any other
/// position shows the grid.
pub open spec fn composite_cell(
    b: Grid,
    t: Option<Tetromino>,
    cur: (usize, usize),
    y: int,
    x: int,
) -> u8 {
    if t is Some && occ(t.unwrap().figure, y - cur.0, x - cur.1) {
        t.unwrap().figure[y - cur.0][x - cur.1]
    } else {
        b[y][x]
    }
}

/// Truncated remainder of the rotation accumulator modulo 180, the
/// machine's signed remainder.
pub open spec fn spec_angle(rot: int) -> int {
    let m = rot % 180;
    if rot >= 0 {
        m
    } else if m == 0 {
        0
    } else {
        m - 180
    }
}

/// Rotation accumulator after one rotation call: advanced by 90 degrees in
/// the chosen direction, or unchanged for a rotation-immune shape.
pub open spec fn rotated_rotation(t: Tetromino, right: bool) -> int {
    if t.matrix_size >= 1 {
        t.rotation + if right {
            90int
        } else {
            -90int
        }
    } else {
        t.rotation as int
    }
}

/// Column shift of the first correction candidate (re-applied by the last
/// one), decided by the reduced angle, or by the turn direction when the
/// angle is zero.
pub open spec fn kick_dcol(angle: int, right: bool) -> int {
    if angle > 0 {
        -1
    } else if angle < 0 {
        1
    } else if right {
        -1
    } else {
        1
    }
}

/// Row shift of the later correction candidates.
pub open spec fn kick_drow(angle: int) -> int {
    if angle != 0 {
        1
    } else {
        -1
    }
}

/// The ordered cursor candidates of the rotation correction: the unmoved
/// cursor, then a column shift, then a row shift on top of it, then the
/// row shift alone from the original cursor (discarding the column
/// correction), then that column shift re-applied.
pub open spec fn kick_cand(i: int, r: int, c: int, angle: int, right: bool) -> (int, int) {
    let dc = kick_dcol(angle, right);
    let dr = kick_drow(angle);
    if i == 0 {
        (r, c)
    } else if i == 1 {
        (r, c + dc)
    } else if i == 2 {
        (r + dr, c + dc)
    } else if i == 3 {
        (r + dr, c)
    } else {
        (r + dr, c + dc)
    }
}

/// A placement that overlaps nothing pins the cursor near the playable
/// area: each occupied cell sits on an empty in-grid cell, hence off the
/// walls, and the shape's well-formedness provides occupied cells close
/// enough to each edge of the pattern.
pub proof fn lemma_placeable_cursor(b: Grid, t: Tetromino, r: int, c: int)
    requires
        grid_wf(b),
        fig_wf(t),
        !hits(b, t.figure, r, c),
    ensures
        r >= 2 - occ_low(t.matrix_size as int),
        c >= 2 - occ_low(t.matrix_size as int),
        r <= grid_h() - 2,
        c <= grid_w() - 4,
{
    let n = t.matrix_size as int;
    let (y1, x1) = choose|y: int, x: int| occ(t.figure, y, x) && y <= occ_low(n);
    assert(!(r + y1 < 0 || r + y1 >= grid_h() || c + x1 < 0 || c + x1 >= grid_w()
        || b[r + y1][c + x1] != 0));
    assert(!wall_pos(r + y1, c + x1));
    let (y2, x2) = choose|y: int, x: int| occ(t.figure, y, x) && x <= occ_low(n);
    assert(b[r + y2][c + x2] == 0);
    assert(!wall_pos(r + y2, c + x2));
    let (y3, x3) = choose|y: int, x: int| occ(t.figure, y, x) && y >= 1;
    assert(b[r + y3][c + x3] == 0);
    let (y4, x4) = choose|y: int, x: int| occ(t.figure, y, x) && x >= 1;
    assert(b[r + y4][c + x4] == 0);
    assert(!wall_pos(r + y4, c + x4));
}

/// Outcome of a successful rotation call on `pre`: the active piece's
/// sub-square has made a quarter turn, the accumulator has advanced, and
/// the cursor sits at the first correction candidate whose placement
/// overlaps nothing — every earlier candidate overlaps.  The long piece
/// (sub-square 4) only ever commits the unmoved cursor.
pub open spec fn rotate_success(pre: GameBoard, post: GameBoard, right: bool) -> bool {
    let t0 = pre.tetrimono.unwrap();
    let t1 = post.tetrimono.unwrap();
    let angle = spec_angle(rotated_rotation(t0, right));
    let r0 = pre.cursor.0 as int;
    let c0 = pre.cursor.1 as int;
    &&& pre.tetrimono is Some
    &&& post.tetrimono is Some
    &&& t1.matrix_size == t0.matrix_size
    &&& t1.rotation == rotated_rotation(t0, right)
    &&& rot_rel(t0.figure, t1.figure, t0.matrix_size as int)
    &&& exists|i: int|
        #![trigger kick_cand(i, r0, c0, angle, right)]
        {
            &&& 0 <= i <= 4
            &&& (t0.matrix_size == 4 ==> i == 0)
            &&& post.cursor.0 as int == kick_cand(i, r0, c0, angle, right).0
            &&& post.cursor.1 as int == kick_cand(i, r0, c0, angle, right).1
            &&& !hits(
                pre.board,
                t1.figure,
                kick_cand(i, r0, c0, angle, right).0,
                kick_cand(i, r0, c0, angle, right).1,
            )
            &&& forall|j: int|
                #![trigger kick_cand(j, r0, c0, angle, right)]
                0 <= j < i ==> hits(
                    pre.board,
                    t1.figure,
                    kick_cand(j, r0, c0, angle, right).0,
                    kick_cand(j, r0, c0, angle, right).1,
                )
        }
}

/// Outcome of a failed rotation call on `pre`: the rotated figure (`g`,
/// determined by `rot_rel`) overlaps at the unmoved cursor, and — unless
/// the piece is the long one, which gets no correction attempts — at every
/// correction candidate as well.
pub open spec fn rotate_failure(pre: GameBoard, right: bool) -> bool {
    let t0 = pre.tetrimono.unwrap();
    let angle = spec_angle(rotated_rotation(t0, right));
    let r0 = pre.cursor.0 as int;
    let c0 = pre.cursor.1 as int;
    exists|g: [[u8; 4]; 4]|
        #![trigger rot_rel(t0.figure, g, t0.matrix_size as int)]
        {
            &&& rot_rel(t0.figure, g, t0.matrix_size as int)
            &&& hits(pre.board, g, r0, c0)
            &&& (t0.matrix_size != 4 ==> forall|i: int|
                #![trigger kick_cand(i, r0, c0, angle, right)]
                1 <= i <= 4 ==> hits(
                    pre.board,
                    g,
                    kick_cand(i, r0, c0, angle, right).0,
                    kick_cand(i, r0, c0, angle, right).1,
                ))
        }
}

/// Law: `simulate_move` is the sole guard of movement legality.  When it
/// rejects a direction for the active piece, shifting the cursor that way
/// regardless (as a test-only bypass of the guard would) leaves the piece
/// overlapping a wall or a locked cell, which the overlap test at the new
/// cursor reports.
pub proof fn lemma_blocked_move_overlaps(pre: GameBoard, post: GameBoard, dir: MoveDirection)
    requires
        pre.tetrimono is Some,
        hits(
            pre.board,
            pre.tetrimono.unwrap().figure,
            pre.cursor.0 + dir_dy(dir),
            pre.cursor.1 + dir_dx(dir),
        ),
        post.board == pre.board,
        post.tetrimono == pre.tetrimono,
        post.cursor.0 as int == pre.cursor.0 + dir_dy(dir),
        post.cursor.1 as int == pre.cursor.1 + dir_dx(dir),
    ensures
        hits(
            post.board,
            post.tetrimono.unwrap().figure,
            post.cursor.0 as int,
            post.cursor.1 as int,
        ),
{
}

/// Law: the long piece gets no correction attempts.  A successful
/// rotation of it can only have committed the unmoved cursor, with an
/// overlap-free placement there — so whenever its naively rotated
/// placement overlaps, the call fails, and failure leaves the piece and
/// cursor untouched.
pub proof fn lemma_long_piece_no_kick(pre: GameBoard, post: GameBoard, right: bool)
    requires
        pre.tetrimono is Some,
        pre.tetrimono.unwrap().matrix_size == 4,
        rotate_success(pre, post, right),
    ensures
        post.cursor.0 == pre.cursor.0,
        post.cursor.1 == pre.cursor.1,
        rot_rel(pre.tetrimono.unwrap().figure, post.tetrimono.unwrap().figure, 4),
        !hits(
            pre.board,
            post.tetrimono.unwrap().figure,
            pre.cursor.0 as int,
            pre.cursor.1 as int,
        ),
{
    let t0 = pre.tetrimono.unwrap();
    let t1 = post.tetrimono.unwrap();
    let angle = spec_angle(rotated_rotation(t0, right));
    let r0 = pre.cursor.0 as int;
    let c0 = pre.cursor.1 as int;
    assert(rot_rel(t0.figure, t1.figure, 4));
    assert(kick_cand(0, r0, c0, angle, right) == (r0, c0));
}

/// The active piece and its cursor, as a plain copyable snapshot.
#[derive(Clone, Copy)]
pub struct CurrentTetrimono {
    pub cursor: (usize, usize),
    pub mono: Option<Tetromino>,
}

impl Default for CurrentTetrimono {
    fn default() -> (r: Self)
        ensures
            r.mono is None,
            r.cursor.0 == 0 && r.cursor.1 == 0,
    {
        CurrentTetrimono { cursor: (0, 0), mono: None }
    }
}

/// A piece set aside for later use.
pub struct StockTetrimono {
    pub mono: Option<Tetromino>,
}

impl Default for StockTetrimono {
    fn default() -> (r: Self)
        ensures
            r.mono is None,
    {
        StockTetrimono { mono: None }
    }
}

/// The playfield: grid, cursor of the active piece, and the active piece
/// itself (absent once locked).
pub struct GameBoard {
    pub board: Grid,
    pub cursor: (usize, usize),
    pub tetrimono: Option<Tetromino>,
}

impl GameBoard {
    /// Structural invariant: the grid keeps its walls and value range, and
    /// an active piece stays within the grid's index range.
    pub open spec fn wf(self) -> bool {
        &&& grid_wf(self.board)
        &&& self.tetrimono is Some ==> fig_wf(self.tetrimono.unwrap()) && fits(
            self.tetrimono.unwrap().figure,
            self.cursor.0 as int,
            self.cursor.1 as int,
        )
    }
}

impl Default for GameBoard {
    /// An empty playfield: walls on the border, all other cells empty, no
    /// active piece.
    fn default() -> (r: Self)
        ensures
            r.wf(),
            r.tetrimono is None,
            r.cursor.0 == 0 && r.cursor.1 == 0,
            forall|y: int, x: int| #![trigger r.board[y][x]]
                0 <= y < grid_h() && 0 <= x < grid_w() ==> r.board[y][x] == if wall_pos(y, x) {
                    9u8
                } else {
                    0u8
                },
    {
        let mut board = [[0u8; WIDTH_WITH_PADDING]; HEIGHT_WITH_PADDING];
        let mut y: usize = 0;
        while y < HEIGHT_WITH_PADDING
            invariant
                y <= HEIGHT_WITH_PADDING,
                forall|a: int, b: int| #![trigger board[a][b]]
                    0 <= a < grid_h() && 0 <= b < grid_w() ==> board[a][b] == if a < y
                        && wall_pos(a, b) {
                        9u8
                    } else {
                        0u8
                    },
            decreases HEIGHT_WITH_PADDING - y,
        {
            let mut x: usize = 0;
            while x < WIDTH_WITH_PADDING
                invariant
                    y < HEIGHT_WITH_PADDING,
                    x <= WIDTH_WITH_PADDING,
                    forall|a: int, b: int| #![trigger board[a][b]]
                        0 <= a < grid_h() && 0 <= b < grid_w() ==> board[a][b] == if (a < y || (a
                            == y && b < x)) && wall_pos(a, b) {
                            9u8
                        } else {
                            0u8
                        },
                decreases WIDTH_WITH_PADDING - x,
            {
                if y < 2 || x < 2 || x >= WIDTH_WITH_PADDING - 2 {
                    board[y][x] = 9;
                }
                x = x + 1;
            }
            y = y + 1;
        }
        GameBoard { board, cursor: (0, 0), tetrimono: None }
    }
}

impl GameBoard {
    /// Reset the cursor to the spawn coordinate and make `tetrimono` the
    /// active piece.  No collision check happens here: an over-spawn is
    /// detected afterwards through `is_game_over`.
    pub fn init_tetrimono(&mut self, tetrimono: Tetromino)
        requires
            grid_wf(old(self).board),
            fig_wf(tetrimono),
        ensures
            final(self).board == old(self).board,
            final(self).cursor.0 == INITIAL_MONO_ROW,
            final(self).cursor.1 == INITIAL_MONO_COL,
            final(self).tetrimono == Some(tetrimono),
            final(self).wf(),
    {
        self.cursor = (INITIAL_MONO_ROW, INITIAL_MONO_COL);
        self.tetrimono = Some(tetrimono);
    }

    /// Overlap test of `tetrimono` placed at `cursor` against `board`:
    /// true when some occupied figure cell covers a non-empty grid cell.
    pub fn check_duplicate(board: Grid, tetrimono: Tetromino, cursor: (usize, usize)) -> (r: bool)
        requires
            fits(tetrimono.figure, cursor.0 as int, cursor.1 as int),
        ensures
            r == hits(board, tetrimono.figure, cursor.0 as int, cursor.1 as int),
    {
        let mut y: usize = 0;
        while y < 4
            invariant
                y <= 4,
                fits(tetrimono.figure, cursor.0 as int, cursor.1 as int),
                forall|a: int, b: int| #![trigger occ(tetrimono.figure, a, b)]
                    occ(tetrimono.figure, a, b) && a < y ==> board[cursor.0 + a][cursor.1 + b]
                        == 0,
            decreases 4 - y,
        {
            let mut x: usize = 0;
            while x < 4
                invariant
                    y < 4,
                    x <= 4,
                    fits(tetrimono.figure, cursor.0 as int, cursor.1 as int),
                    forall|a: int, b: int| #![trigger occ(tetrimono.figure, a, b)]
                        occ(tetrimono.figure, a, b) && (a < y || (a == y && b < x)) ==> board[
                            cursor.0 + a
                        ][cursor.1 + b] == 0,
                decreases 4 - x,
            {
                if tetrimono.figure[y][x] != 0 {
                    proof {
                        assert(occ(tetrimono.figure, y as int, x as int));
                    }
                    if board[cursor.0 + y][cursor.1 + x] != 0 {
                        return true;
                    }
                }
                x = x + 1;
            }
            y = y + 1;
        }
        false
    }

    /// Overlap test at a signed position: coordinates outside the grid
    /// count as occupied.
    fn hits_check(board: &Grid, fig: &[[u8; 4]; 4], r: i64, c: i64) -> (res: bool)
        requires
            -10 <= r < 40,
            -10 <= c < 40,
        ensures
            res == hits(*board, *fig, r as int, c as int),
    {
        let mut y: usize = 0;
        while y < 4
            invariant
                -10 <= r < 40,
                -10 <= c < 40,
                y <= 4,
                forall|a: int, b: int| #![trigger occ(*fig, a, b)]
                    occ(*fig, a, b) && a < y ==> 0 <= r + a < grid_h() && 0 <= c + b < grid_w()
                        && board[r + a][c + b] == 0,
            decreases 4 - y,
        {
            let mut x: usize = 0;
            while x < 4
                invariant
                    -10 <= r < 40,
                    -10 <= c < 40,
                    y < 4,
                    x <= 4,
                    forall|a: int, b: int| #![trigger occ(*fig, a, b)]
                        occ(*fig, a, b) && (a < y || (a == y && b < x)) ==> 0 <= r + a < grid_h()
                            && 0 <= c + b < grid_w() && board[r + a][c + b] == 0,
                decreases 4 - x,
            {
                if fig[y][x] != 0 {
                    proof {
                        assert(occ(*fig, y as int, x as int));
                    }
                    let ry = r + y as i64;
                    let cx = c + x as i64;
                    if ry < 0 || ry >= HEIGHT_WITH_PADDING as i64 || cx < 0 || cx
                        >= WIDTH_WITH_PADDING as i64 {
                        return true;
                    }
                    if board[ry as usize][cx as usize] != 0 {
                        return true;
                    }
                }
                x = x + 1;
            }
            y = y + 1;
        }
        false
    }

    /// Non-mutating legality check of one move of the active piece: true
    /// exactly when the piece, shifted one step in `dir`, overlaps nothing.
    /// False when no piece is active.
    pub fn simulate_move(&self, dir: MoveDirection) -> (r: bool)
        requires
            self.wf(),
        ensures
            self.tetrimono is None ==> r == false,
            self.tetrimono is Some ==> r == !hits(
                self.board,
                self.tetrimono.unwrap().figure,
                self.cursor.0 + dir_dy(dir),
                self.cursor.1 + dir_dx(dir),
            ),
    {
        if self.tetrimono.is_none() {
            return false;
        }
        let tetrimono = self.tetrimono.unwrap();
        proof {
            let (wy, wx) = choose|y: int, x: int| occ(tetrimono.figure, y, x) && y >= 1;
            assert(self.cursor.0 + wy < grid_h());
            assert(self.cursor.1 + wx < grid_w());
        }
        let r0 = self.cursor.0 as i64;
        let c0 = self.cursor.1 as i64;
        let (ry, cx) = match dir {
            MoveDirection::Down => (r0 - 1, c0),
            MoveDirection::Left => (r0, c0 - 1),
            MoveDirection::Right => (r0, c0 + 1),
        };
        !GameBoard::hits_check(&self.board, &tetrimono.figure, ry, cx)
    }

    /// Shift the cursor one step in `dir`, unconditionally: callers must
    /// have confirmed legality through `simulate_move` first.
    pub fn apply_move(&mut self, dir: MoveDirection)
        requires
            dir is Down ==> old(self).cursor.0 >= 1,
            dir is Left ==> old(self).cursor.1 >= 1,
            dir is Right ==> old(self).cursor.1 < usize::MAX,
            old(self).tetrimono is Some ==> fits(
                old(self).tetrimono.unwrap().figure,
                old(self).cursor.0 + dir_dy(dir),
                old(self).cursor.1 + dir_dx(dir),
            ),
        ensures
            final(self).cursor.0 == old(self).cursor.0 + dir_dy(dir),
            final(self).cursor.1 == old(self).cursor.1 + dir_dx(dir),
            final(self).board == old(self).board,
            final(self).tetrimono == old(self).tetrimono,
            old(self).wf() ==> final(self).wf(),
    {
        self.cursor = match dir {
            MoveDirection::Down => (self.cursor.0 - 1, self.cursor.1),
            MoveDirection::Left => (self.cursor.0, self.cursor.1 - 1),
            MoveDirection::Right => (self.cursor.0, self.cursor.1 + 1),
        };
    }

    /// Read-only snapshot of the grid with the active piece drawn on top.
    pub fn get_written_clone(&self) -> (r: Grid)
        requires
            self.wf(),
        ensures
            forall|y: int, x: int| #![trigger r[y][x]]
                0 <= y < grid_h() && 0 <= x < grid_w() ==> r[y][x] == composite_cell(
                    self.board,
                    self.tetrimono,
                    self.cursor,
                    y,
                    x,
                ),
    {
        let mut out = self.board;
        if self.tetrimono.is_none() {
            return out;
        }
        let tetrimono = self.tetrimono.unwrap();
        let r0 = self.cursor.0;
        let c0 = self.cursor.1;
        let mut y: usize = 0;
        while y < 4
            invariant
                self.wf(),
                self.tetrimono == Some(tetrimono),
                r0 == self.cursor.0,
                c0 == self.cursor.1,
                y <= 4,
                forall|a: int, b: int| #![trigger out[a][b]]
                    0 <= a < grid_h() && 0 <= b < grid_w() ==> out[a][b] == if occ(
                        tetrimono.figure,
                        a - r0,
                        b - c0,
                    ) && a - r0 < y {
                        tetrimono.figure[a - r0][b - c0]
                    } else {
                        self.board[a][b]
                    },
            decreases 4 - y,
        {
            let mut x: usize = 0;
            while x < 4
                invariant
                    self.wf(),
                    self.tetrimono == Some(tetrimono),
                    r0 == self.cursor.0,
                    c0 == self.cursor.1,
                    y < 4,
                    x <= 4,
                    forall|a: int, b: int| #![trigger out[a][b]]
                        0 <= a < grid_h() && 0 <= b < grid_w() ==> out[a][b] == if occ(
                            tetrimono.figure,
                            a - r0,
                            b - c0,
                        ) && (a - r0 < y || (a - r0 == y && b - c0 < x)) {
                            tetrimono.figure[a - r0][b - c0]
                        } else {
                            self.board[a][b]
                        },
                decreases 4 - x,
            {
                if tetrimono.figure[y][x] != 0 {
                    proof {
                        assert(occ(tetrimono.figure, y as int, x as int));
                    }
                    out[r0 + y][c0 + x] = tetrimono.figure[y][x];
                }
                x = x + 1;
            }
            y = y + 1;
        }
        out
    }

    /// Composite the active piece permanently into the grid and clear the
    /// active piece.  The caller must have kept the piece off the walls.
    pub fn write_tetrimono(&mut self)
        requires
            old(self).wf(),
            old(self).tetrimono is Some ==> off_walls(
                old(self).tetrimono.unwrap().figure,
                old(self).cursor.0 as int,
                old(self).cursor.1 as int,
            ),
        ensures
            final(self).cursor == old(self).cursor,
            final(self).tetrimono is None,
            old(self).tetrimono is None ==> final(self).tetrimono == old(self).tetrimono
                && final(self).board == old(self).board,
            forall|y: int, x: int| #![trigger final(self).board[y][x]]
                0 <= y < grid_h() && 0 <= x < grid_w() ==> final(self).board[y][x]
                    == composite_cell(old(self).board, old(self).tetrimono, old(self).cursor, y, x),
            final(self).wf(),
    {
        if self.tetrimono.is_none() {
            return;
        }
        let tetrimono = self.tetrimono.unwrap();
        let r0 = self.cursor.0;
        let c0 = self.cursor.1;
        let ghost old_board = self.board;
        let mut y: usize = 0;
        while y < 4
            invariant
                grid_wf(old_board),
                fig_wf(tetrimono),
                fits(tetrimono.figure, r0 as int, c0 as int),
                off_walls(tetrimono.figure, r0 as int, c0 as int),
                y <= 4,
                forall|a: int, b: int| #![trigger self.board[a][b]]
                    0 <= a < grid_h() && 0 <= b < grid_w() ==> self.board[a][b] == if occ(
                        tetrimono.figure,
                        a - r0,
                        b - c0,
                    ) && a - r0 < y {
                        tetrimono.figure[a - r0][b - c0]
                    } else {
                        old_board[a][b]
                    },
                self.cursor == old(self).cursor,
                self.tetrimono == old(self).tetrimono,
            decreases 4 - y,
        {
            let mut x: usize = 0;
            while x < 4
                invariant
                    grid_wf(old_board),
                    fig_wf(tetrimono),
                    fits(tetrimono.figure, r0 as int, c0 as int),
                    off_walls(tetrimono.figure, r0 as int, c0 as int),
                    y < 4,
                    x <= 4,
                    forall|a: int, b: int| #![trigger self.board[a][b]]
                        0 <= a < grid_h() && 0 <= b < grid_w() ==> self.board[a][b] == if occ(
                            tetrimono.figure,
                            a - r0,
                            b - c0,
                        ) && (a - r0 < y || (a - r0 == y && b - c0 < x)) {
                            tetrimono.figure[a - r0][b - c0]
                        } else {
                            old_board[a][b]
                        },
                    self.cursor == old(self).cursor,
                    self.tetrimono == old(self).tetrimono,
                decreases 4 - x,
            {
                if tetrimono.figure[y][x] != 0 {
                    proof {
                        assert(occ(tetrimono.figure, y as int, x as int));
                    }
                    self.board[r0 + y][c0 + x] = tetrimono.figure[y][x];
                }
                x = x + 1;
            }
            y = y + 1;
        }
        self.tetrimono = None;
    }

    /// True when no piece is active, or when the active piece already
    /// overlaps the grid at its current cursor — used right after a spawn
    /// to detect that there was no room.
    pub fn is_game_over(&mut self) -> (r: bool)
        requires
            old(self).wf(),
        ensures
            *final(self) == *old(self),
            r == (old(self).tetrimono is None || hits(
                old(self).board,
                old(self).tetrimono.unwrap().figure,
                old(self).cursor.0 as int,
                old(self).cursor.1 as int,
            )),
    {
        if self.tetrimono.is_none() {
            return true;
        }
        GameBoard::check_duplicate(self.board, self.tetrimono.unwrap(), self.cursor)
    }

    /// Attempt a rotation of the active piece, with positional correction.
    /// The rotated shape is tried at the unmoved cursor first; if that
    /// overlaps, the long piece fails at once, and any other piece tries
    /// four shifted cursor candidates in order, committing the first whose
    /// placement overlaps nothing.  On failure nothing changes.
    #[verifier::rlimit(100)]
    pub fn try_rotate(&mut self, is_right: bool) -> (r: bool)
        requires
            old(self).wf(),
            old(self).tetrimono is Some ==> i64::MIN + 90 <= old(self).tetrimono.unwrap().rotation
                <= i64::MAX - 90,
            old(self).tetrimono is Some && old(self).tetrimono.unwrap().matrix_size != 4 ==> old(
                self,
            ).cursor.0 >= 1 && old(self).cursor.1 >= 1,
        ensures
            final(self).board == old(self).board,
            final(self).wf(),
            !r ==> *final(self) == *old(self),
            old(self).tetrimono is None ==> !r,
            r ==> rotate_success(*old(self), *final(self), is_right),
            old(self).tetrimono is Some && !r ==> rotate_failure(*old(self), is_right),
    {
        if self.tetrimono.is_none() {
            return false;
        }
        let mut tetrimono = self.tetrimono.unwrap();
        let ghost t0 = old(self).tetrimono.unwrap();
        let ghost n = t0.matrix_size as int;
        proof {
            let (ay, ax) = choose|y: int, x: int| occ(t0.figure, y, x) && y >= 1;
            assert(self.cursor.0 + ay < grid_h());
            let (by, bx) = choose|y: int, x: int| occ(t0.figure, y, x) && x >= 1;
            assert(self.cursor.1 + bx < grid_w());
        }
        let r0 = self.cursor.0;
        let c0 = self.cursor.1;
        if is_right {
            tetrimono.rotate_right();
        } else {
            tetrimono.rotate_left();
        }
        let ghost angle_g = spec_angle(rotated_rotation(t0, is_right));
        proof {
            assert(tetrimono.rotation == rotated_rotation(t0, is_right));
        }
        if !GameBoard::hits_check(&self.board, &tetrimono.figure, r0 as i64, c0 as i64) {
            self.tetrimono = Some(tetrimono);
            proof {
                assert(fits(tetrimono.figure, r0 as int, c0 as int)) by {
                    assert forall|y: int, x: int| occ(tetrimono.figure, y, x) implies r0 + y
                        < grid_h() && c0 + x < grid_w() by {}
                }
                assert(kick_cand(0, r0 as int, c0 as int, angle_g, is_right) == (
                    r0 as int,
                    c0 as int,
                ));
            }
            return true;
        }
        if tetrimono.matrix_size == 4 {
            proof {
                assert(rot_rel(t0.figure, tetrimono.figure, n) && hits(
                    self.board,
                    tetrimono.figure,
                    r0 as int,
                    c0 as int,
                ));
            }
            return false;
        }
        let angle = tetrimono.rotation % 180;
        proof {
            assert(angle == angle_g);
        }
        let dc: i64 = if angle > 0 {
            -1
        } else if angle < 0 {
            1
        } else if is_right {
            -1
        } else {
            1
        };
        let dr: i64 = if angle != 0 {
            1
        } else {
            -1
        };
        proof {
            assert(dc == kick_dcol(angle_g, is_right));
            assert(dr == kick_drow(angle_g));
        }
        let cand1 = (r0 as i64, c0 as i64 + dc);
        if !GameBoard::hits_check(&self.board, &tetrimono.figure, cand1.0, cand1.1) {
            self.tetrimono = Some(tetrimono);
            self.cursor = (cand1.0 as usize, cand1.1 as usize);
            proof {
                self.commit_proof(*old(self), tetrimono, 1, angle_g, is_right);
            }
            return true;
        }
        let cand2 = (cand1.0 + dr, cand1.1);
        if !GameBoard::hits_check(&self.board, &tetrimono.figure, cand2.0, cand2.1) {
            self.tetrimono = Some(tetrimono);
            self.cursor = (cand2.0 as usize, cand2.1 as usize);
            proof {
                self.commit_proof(*old(self), tetrimono, 2, angle_g, is_right);
            }
            return true;
        }
        let cand3 = (r0 as i64 + dr, c0 as i64);
        if !GameBoard::hits_check(&self.board, &tetrimono.figure, cand3.0, cand3.1) {
            self.tetrimono = Some(tetrimono);
            self.cursor = (cand3.0 as usize, cand3.1 as usize);
            proof {
                self.commit_proof(*old(self), tetrimono, 3, angle_g, is_right);
            }
            return true;
        }
        let cand4 = (cand3.0, cand3.1 + dc);
        if !GameBoard::hits_check(&self.board, &tetrimono.figure, cand4.0, cand4.1) {
            self.tetrimono = Some(tetrimono);
            self.cursor = (cand4.0 as usize, cand4.1 as usize);
            proof {
                self.commit_proof(*old(self), tetrimono, 4, angle_g, is_right);
            }
            return true;
        }
        proof {
            assert(rot_rel(t0.figure, tetrimono.figure, n) && hits(
                self.board,
                tetrimono.figure,
                r0 as int,
                c0 as int,
            ) && (t0.matrix_size != 4 ==> forall|i: int|
                #![trigger kick_cand(i, r0 as int, c0 as int, angle_g, is_right)]
                1 <= i <= 4 ==> hits(
                    self.board,
                    tetrimono.figure,
                    kick_cand(i, r0 as int, c0 as int, angle_g, is_right).0,
                    kick_cand(i, r0 as int, c0 as int, angle_g, is_right).1,
                )));
        }
        false
    }

    /// Shared proof that committing correction candidate `i` meets the
    /// rotation contract.
    proof fn commit_proof(
        &self,
        pre: GameBoard,
        t1: Tetromino,
        i: int,
        angle: int,
        right: bool,
    )
        requires
            1 <= i <= 4,
            pre.tetrimono is Some,
            fig_wf(t1),
            angle == spec_angle(rotated_rotation(pre.tetrimono.unwrap(), right)),
            t1.matrix_size == pre.tetrimono.unwrap().matrix_size,
            t1.matrix_size != 4,
            t1.rotation == rotated_rotation(pre.tetrimono.unwrap(), right),
            rot_rel(
                pre.tetrimono.unwrap().figure,
                t1.figure,
                pre.tetrimono.unwrap().matrix_size as int,
            ),
            self.board == pre.board,
            self.tetrimono == Some(t1),
            self.cursor.0 as int == kick_cand(
                i,
                pre.cursor.0 as int,
                pre.cursor.1 as int,
                angle,
                right,
            ).0,
            self.cursor.1 as int == kick_cand(
                i,
                pre.cursor.0 as int,
                pre.cursor.1 as int,
                angle,
                right,
            ).1,
            !hits(pre.board, t1.figure, self.cursor.0 as int, self.cursor.1 as int),
            forall|j: int|
                #![trigger kick_cand(j, pre.cursor.0 as int, pre.cursor.1 as int, angle, right)]
                0 <= j < i ==> hits(
                    pre.board,
                    t1.figure,
                    kick_cand(j, pre.cursor.0 as int, pre.cursor.1 as int, angle, right).0,
                    kick_cand(j, pre.cursor.0 as int, pre.cursor.1 as int, angle, right).1,
                ),
            grid_wf(pre.board),
        ensures
            rotate_success(pre, *self, right),
            self.wf(),
    {
        assert(fits(t1.figure, self.cursor.0 as int, self.cursor.1 as int)) by {
            assert forall|y: int, x: int| occ(t1.figure, y, x) implies self.cursor.0 + y
                < grid_h() && self.cursor.1 + x < grid_w() by {}
        }
    }
}

} // verus!
