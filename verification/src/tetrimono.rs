//! Piece catalog: the seven piece shapes and the clockwise rotation
//! transform on a shape's leading sub-square.
use vstd::prelude::*;
use crate::config::TETRIMONO_MATRIX_SIZE;

verus! {

/// A piece's 4x4 occupancy pattern plus rotation metadata.
///
/// `matrix_size` is the side length of the sub-square that takes part in
/// rotation: 0 means the piece never rotates, 3 is the standard case, 4 is
/// the long piece.  `rotation` accumulates the signed angle in degrees.
#[derive(Clone, Copy)]
pub struct Tetromino {
    pub figure: [[u8; TETRIMONO_MATRIX_SIZE]; TETRIMONO_MATRIX_SIZE],
    pub matrix_size: usize,
    pub rotation: i64,
}

#[derive(Clone, Copy, Debug, PartialEq, Eq, Structural)]
pub enum TetrominoType {
    T,
    L,
    J,
    O,
    S,
    Z,
    I,
}

/// Cell (y, x) of the 4x4 pattern is occupied.
pub open spec fn occ(fig: [[u8; 4]; 4], y: int, x: int) -> bool {
    0 <= y < 4 && 0 <= x < 4 && fig[y][x] != 0
}

/// Colour code of each piece type, also the value of its occupied cells.
pub open spec fn type_color(t: TetrominoType) -> u8 {
    match t {
        TetrominoType::T => 1,
        TetrominoType::L => 2,
        TetrominoType::J => 3,
        TetrominoType::O => 4,
        TetrominoType::S => 5,
        TetrominoType::Z => 6,
        TetrominoType::I => 7,
    }
}

/// Side of the rotating sub-square of each piece type.
pub open spec fn spec_msize(t: TetrominoType) -> usize {
    match t {
        TetrominoType::O => 0,
        TetrominoType::I => 4,
        _ => 3,
    }
}

/// Canonical cell value at (y, x) of the fixed layout of piece type `t`.
pub open spec fn shape_cell(t: TetrominoType, y: int, x: int) -> u8 {
    let on = match t {
        TetrominoType::T => (y == 1 && 0 <= x <= 2) || (y == 2 && x == 1),
        TetrominoType::L => (y == 1 && 0 <= x <= 2) || (y == 2 && x == 2),
        TetrominoType::J => (y == 1 && 0 <= x <= 2) || (y == 2 && x == 0),
        TetrominoType::O => (y == 0 || y == 1) && (x == 0 || x == 1),
        TetrominoType::S => (y == 1 && (x == 0 || x == 1)) || (y == 2 && (x == 1 || x == 2)),
        TetrominoType::Z => (y == 1 && (x == 1 || x == 2)) || (y == 2 && (x == 0 || x == 1)),
        TetrominoType::I => y == 1 && 0 <= x <= 3,
    };
    if on {
        type_color(t)
    } else {
        0
    }
}

/// `shape` holds exactly the canonical layout of piece type `t`, with a
/// zero rotation accumulator.
pub open spec fn is_shape_for(t: TetrominoType, shape: Tetromino) -> bool {
    &&& forall|y: int, x: int|
        0 <= y < 4 && 0 <= x < 4 ==> shape.figure[y][x] == shape_cell(t, y, x)
    &&& shape.matrix_size == spec_msize(t)
    &&& shape.rotation == 0
}

/// Every well-formed shape has an occupied cell whose row index is at
/// most this bound, and one whose column index is at most this bound.
pub open spec fn occ_low(n: int) -> int {
    if n == 4 {
        2
    } else {
        1
    }
}

/// Well-formedness of a shape.  The sub-square side is one of 0, 3, 4;
/// occupied cells carry a colour code; a non-long piece occupies only its
/// leading 3x3 square; and occupied cells exist both near the pattern's
/// origin and away from it on each axis.  The last four clauses are what
/// collision reasoning needs to bound the cursor, and each is preserved by
/// the rotation transform.
pub open spec fn fig_wf(t: Tetromino) -> bool {
    let n = t.matrix_size as int;
    &&& (n == 0 || n == 3 || n == 4)
    &&& (forall|y: int, x: int| occ(t.figure, y, x) ==> t.figure[y][x] <= 7)
    &&& (n != 4 ==> forall|y: int, x: int| occ(t.figure, y, x) ==> y < 3 && x < 3)
    &&& (exists|y: int, x: int| occ(t.figure, y, x) && y <= occ_low(n))
    &&& (exists|y: int, x: int| occ(t.figure, y, x) && y >= 1)
    &&& (exists|y: int, x: int| occ(t.figure, y, x) && x <= occ_low(n))
    &&& (exists|y: int, x: int| occ(t.figure, y, x) && x >= 1)
}

/// `b` is `a` with the leading `n x n` sub-square rotated a quarter turn
/// clockwise; cells outside the sub-square are unchanged.
pub open spec fn rot_rel(a: [[u8; 4]; 4], b: [[u8; 4]; 4], n: int) -> bool {
    forall|y: int, x: int|
        0 <= y < 4 && 0 <= x < 4 ==> b[y][x] == if y < n && x < n {
            a[x][n - 1 - y]
        } else {
            a[y][x]
        }
}

impl TetrominoType {
    pub fn get_tetromono(self) -> (r: Tetromino)
        ensures
            is_shape_for(self, r),
            fig_wf(r),
    {
        Tetromino::from(self)
    }

    /// The full set of the seven piece types, in catalog order.
    pub fn all() -> (r: Vec<TetrominoType>)
        ensures
            r@ =~= seq![
                TetrominoType::T,
                TetrominoType::L,
                TetrominoType::J,
                TetrominoType::O,
                TetrominoType::S,
                TetrominoType::Z,
                TetrominoType::I,
            ],
    {
        let mut v: Vec<TetrominoType> = Vec::new();
        v.push(TetrominoType::T);
        v.push(TetrominoType::L);
        v.push(TetrominoType::J);
        v.push(TetrominoType::O);
        v.push(TetrominoType::S);
        v.push(TetrominoType::Z);
        v.push(TetrominoType::I);
        v
    }
}

impl Tetromino {
    fn new(figure: [[u8; 4]; 4], matrix_size: usize) -> (r: Self)
        ensures
            r.figure == figure,
            r.matrix_size == matrix_size,
            r.rotation == 0,
    {
        Tetromino { figure, matrix_size, rotation: 0 }
    }

    fn type_t() -> (r: Self)
        ensures
            is_shape_for(TetrominoType::T, r),
            fig_wf(r),
    {
        let mut figure = [[0u8; TETRIMONO_MATRIX_SIZE]; TETRIMONO_MATRIX_SIZE];
        figure[1][0] = 1;
        figure[1][1] = 1;
        figure[1][2] = 1;
        figure[2][1] = 1;
        let r = Tetromino::new(figure, 3);
        proof {
            assert(occ(r.figure, 1, 0) && 1 <= occ_low(3));
            assert(occ(r.figure, 2, 1) && 2 >= 1);
            assert(occ(r.figure, 1, 1) && 1 >= 1);
        }
        r
    }

    fn type_l() -> (r: Self)
        ensures
            is_shape_for(TetrominoType::L, r),
            fig_wf(r),
    {
        let mut figure = [[0u8; TETRIMONO_MATRIX_SIZE]; TETRIMONO_MATRIX_SIZE];
        figure[1][0] = 2;
        figure[1][1] = 2;
        figure[1][2] = 2;
        figure[2][2] = 2;
        let r = Tetromino::new(figure, 3);
        proof {
            assert(occ(r.figure, 1, 0));
            assert(occ(r.figure, 2, 2));
            assert(occ(r.figure, 1, 1));
        }
        r
    }

    fn type_j() -> (r: Self)
        ensures
            is_shape_for(TetrominoType::J, r),
            fig_wf(r),
    {
        let mut figure = [[0u8; TETRIMONO_MATRIX_SIZE]; TETRIMONO_MATRIX_SIZE];
        figure[1][0] = 3;
        figure[1][1] = 3;
        figure[1][2] = 3;
        figure[2][0] = 3;
        let r = Tetromino::new(figure, 3);
        proof {
            assert(occ(r.figure, 1, 0));
            assert(occ(r.figure, 2, 0));
            assert(occ(r.figure, 1, 1));
        }
        r
    }

    fn type_o() -> (r: Self)
        ensures
            is_shape_for(TetrominoType::O, r),
            fig_wf(r),
    {
        let mut figure = [[0u8; TETRIMONO_MATRIX_SIZE]; TETRIMONO_MATRIX_SIZE];
        figure[0][0] = 4;
        figure[0][1] = 4;
        figure[1][0] = 4;
        figure[1][1] = 4;
        let r = Tetromino::new(figure, 0);
        proof {
            assert(occ(r.figure, 0, 0));
            assert(occ(r.figure, 1, 0) && 1 >= 1);
            assert(occ(r.figure, 0, 1) && 1 >= 1);
        }
        r
    }

    fn type_s() -> (r: Self)
        ensures
            is_shape_for(TetrominoType::S, r),
            fig_wf(r),
    {
        let mut figure = [[0u8; TETRIMONO_MATRIX_SIZE]; TETRIMONO_MATRIX_SIZE];
        figure[1][0] = 5;
        figure[1][1] = 5;
        figure[2][1] = 5;
        figure[2][2] = 5;
        let r = Tetromino::new(figure, 3);
        proof {
            assert(occ(r.figure, 1, 0));
            assert(occ(r.figure, 2, 1));
            assert(occ(r.figure, 1, 1));
        }
        r
    }

    fn type_z() -> (r: Self)
        ensures
            is_shape_for(TetrominoType::Z, r),
            fig_wf(r),
    {
        let mut figure = [[0u8; TETRIMONO_MATRIX_SIZE]; TETRIMONO_MATRIX_SIZE];
        figure[1][1] = 6;
        figure[1][2] = 6;
        figure[2][0] = 6;
        figure[2][1] = 6;
        let r = Tetromino::new(figure, 3);
        proof {
            assert(occ(r.figure, 1, 1));
            assert(occ(r.figure, 2, 0));
            assert(occ(r.figure, 2, 1));
        }
        r
    }

    fn type_i() -> (r: Self)
        ensures
            is_shape_for(TetrominoType::I, r),
            fig_wf(r),
    {
        let mut figure = [[0u8; TETRIMONO_MATRIX_SIZE]; TETRIMONO_MATRIX_SIZE];
        figure[1][0] = 7;
        figure[1][1] = 7;
        figure[1][2] = 7;
        figure[1][3] = 7;
        let r = Tetromino::new(figure, 4);
        proof {
            assert(occ(r.figure, 1, 0) && 1 <= occ_low(4));
            assert(occ(r.figure, 1, 1) && 1 >= 1);
        }
        r
    }

    pub fn from(typ: TetrominoType) -> (r: Self)
        ensures
            is_shape_for(typ, r),
            fig_wf(r),
    {
        match typ {
            TetrominoType::I => Tetromino::type_i(),
            TetrominoType::J => Tetromino::type_j(),
            TetrominoType::Z => Tetromino::type_z(),
            TetrominoType::S => Tetromino::type_s(),
            TetrominoType::L => Tetromino::type_l(),
            TetrominoType::O => Tetromino::type_o(),
            TetrominoType::T => Tetromino::type_t(),
        }
    }

    /// Quarter turn clockwise of the leading sub-square; advances the
    /// rotation accumulator by 90 degrees.  A shape whose sub-square side
    /// is below 1 is rotation-immune and left entirely unchanged.
    pub fn rotate_right(&mut self)
        requires
            old(self).rotation + 90 <= i64::MAX,
            old(self).matrix_size <= 4,
        ensures
            final(self).matrix_size == old(self).matrix_size,
            old(self).matrix_size < 1 ==> *final(self) == *old(self),
            old(self).matrix_size >= 1 ==> final(self).rotation == old(self).rotation + 90,
            old(self).matrix_size >= 1 ==> rot_rel(
                old(self).figure,
                final(self).figure,
                old(self).matrix_size as int,
            ),
            fig_wf(*old(self)) ==> fig_wf(*final(self)),
    {
        if self.matrix_size < 1 {
            return;
        }
        self.rotate_figure();
        self.rotation = self.rotation + 90;
    }

    /// Counter-rotation entry point.  It performs the identical clockwise
    /// cell transform and differs from `rotate_right` only in subtracting
    /// 90 from the rotation accumulator.  It does not produce a true
    /// counter-clockwise transform; this engine deliberately keeps the
    /// shared transform, and the contract says so openly.
    pub fn rotate_left(&mut self)
        requires
            old(self).rotation - 90 >= i64::MIN,
            old(self).matrix_size <= 4,
        ensures
            final(self).matrix_size == old(self).matrix_size,
            old(self).matrix_size < 1 ==> *final(self) == *old(self),
            old(self).matrix_size >= 1 ==> final(self).rotation == old(self).rotation - 90,
            old(self).matrix_size >= 1 ==> rot_rel(
                old(self).figure,
                final(self).figure,
                old(self).matrix_size as int,
            ),
            fig_wf(*old(self)) ==> fig_wf(*final(self)),
    {
        if self.matrix_size < 1 {
            return;
        }
        self.rotate_figure();
        self.rotation = self.rotation - 90;
    }

    /// Shared clockwise cell transform of the two rotation entry points.
    fn rotate_figure(&mut self)
        requires
            1 <= old(self).matrix_size <= 4,
        ensures
            final(self).matrix_size == old(self).matrix_size,
            final(self).rotation == old(self).rotation,
            rot_rel(old(self).figure, final(self).figure, old(self).matrix_size as int),
            fig_wf(*old(self)) ==> fig_wf(*final(self)),
    {
        let n = self.matrix_size;
        let fig = self.figure;
        let mut out = self.figure;
        let mut y: usize = 0;
        while y < n
            invariant
                1 <= n <= 4,
                y <= n,
                forall|a: int, b: int|
                    0 <= a < 4 && 0 <= b < 4 ==> out[a][b] == if a < y && b < n {
                        fig[b][n - 1 - a]
                    } else {
                        fig[a][b]
                    },
            decreases n - y,
        {
            let mut x: usize = 0;
            while x < n
                invariant
                    1 <= n <= 4,
                    y < n,
                    x <= n,
                    forall|a: int, b: int|
                        0 <= a < 4 && 0 <= b < 4 ==> out[a][b] == if (a < y && b < n) || (a == y
                            && b < x) {
                            fig[b][n - 1 - a]
                        } else {
                            fig[a][b]
                        },
                decreases n - x,
            {
                out[y][x] = fig[x][n - 1 - y];
                x = x + 1;
            }
            y = y + 1;
        }
        self.figure = out;
        proof {
            if fig_wf(*old(self)) {
                lemma_rot_preserves_wf(*old(self), *self);
            }
        }
    }
}

/// The clockwise transform keeps a shape well formed.
proof fn lemma_rot_preserves_wf(pre: Tetromino, post: Tetromino)
    requires
        fig_wf(pre),
        1 <= pre.matrix_size,
        post.matrix_size == pre.matrix_size,
        rot_rel(pre.figure, post.figure, pre.matrix_size as int),
    ensures
        fig_wf(post),
{
    let n = pre.matrix_size as int;
    let lo = occ_low(n);
    // Every occupied cell of the old figure lies inside the n x n square.
    assert forall|a: int, b: int| occ(pre.figure, a, b) implies a < n && b < n by {
        if n != 4 {
            assert(a < 3 && b < 3);
        }
    }
    // Witnesses: an old occupied cell (a, b) reappears at (n - 1 - b, a).
    let (a1, b1) = choose|a: int, b: int| occ(pre.figure, a, b) && b >= 1;
    assert(occ(post.figure, n - 1 - b1, a1) && n - 1 - b1 <= lo) by {
        assert(post.figure[n - 1 - b1][a1] == pre.figure[a1][b1]);
    }
    let (a2, b2) = choose|a: int, b: int| occ(pre.figure, a, b) && b <= lo;
    assert(occ(post.figure, n - 1 - b2, a2) && n - 1 - b2 >= 1) by {
        assert(post.figure[n - 1 - b2][a2] == pre.figure[a2][b2]);
    }
    let (a3, b3) = choose|a: int, b: int| occ(pre.figure, a, b) && a <= lo;
    assert(occ(post.figure, n - 1 - b3, a3) && a3 <= lo) by {
        assert(post.figure[n - 1 - b3][a3] == pre.figure[a3][b3]);
    }
    let (a4, b4) = choose|a: int, b: int| occ(pre.figure, a, b) && a >= 1;
    assert(occ(post.figure, n - 1 - b4, a4) && a4 >= 1) by {
        assert(post.figure[n - 1 - b4][a4] == pre.figure[a4][b4]);
    }
    // Occupied cells of the new figure come from occupied cells of the old.
    assert forall|y: int, x: int| occ(post.figure, y, x) implies post.figure[y][x] <= 7 && (n != 4
        ==> y < 3 && x < 3) by {
        if y < n && x < n {
            assert(post.figure[y][x] == pre.figure[x][n - 1 - y]);
            assert(occ(pre.figure, x, n - 1 - y));
        } else {
            assert(post.figure[y][x] == pre.figure[y][x]);
            assert(occ(pre.figure, y, x));
        }
    }
}

/// Law: rotating a rotation-capable shape four times clockwise returns it
/// to its original cell pattern.  The four figures are linked pairwise by
/// the quarter-turn transform; the last equals the first, cell for cell.
pub proof fn lemma_rotate_four_times_identity(
    f0: [[u8; 4]; 4],
    f1: [[u8; 4]; 4],
    f2: [[u8; 4]; 4],
    f3: [[u8; 4]; 4],
    f4: [[u8; 4]; 4],
    n: int,
)
    requires
        1 <= n <= 4,
        rot_rel(f0, f1, n),
        rot_rel(f1, f2, n),
        rot_rel(f2, f3, n),
        rot_rel(f3, f4, n),
    ensures
        forall|y: int, x: int| 0 <= y < 4 && 0 <= x < 4 ==> f4[y][x] == f0[y][x],
{
    assert forall|y: int, x: int| 0 <= y < 4 && 0 <= x < 4 implies f4[y][x] == f0[y][x] by {
        if y < n && x < n {
            assert(f4[y][x] == f3[x][n - 1 - y]);
            assert(f3[x][n - 1 - y] == f2[n - 1 - y][n - 1 - x]);
            assert(f2[n - 1 - y][n - 1 - x] == f1[n - 1 - x][y]);
            assert(f1[n - 1 - x][y] == f0[y][x]);
        } else {
            assert(f4[y][x] == f3[y][x]);
            assert(f3[y][x] == f2[y][x]);
            assert(f2[y][x] == f1[y][x]);
            assert(f1[y][x] == f0[y][x]);
        }
    }
}

} // verus!
