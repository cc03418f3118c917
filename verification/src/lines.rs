//! Line clearing: scanning the playable rows bottom to top, zeroing each
//! fully occupied row and letting everything above it fall one row, with
//! the same row index re-examined after each collapse so that adjacent
//! full rows cascade.
use vstd::prelude::*;
use crate::config::{HEIGHT_PADDING, MAX_HEIGHT, MAX_WIDTH};
use crate::tetris::{grid_h, grid_w, grid_wf, wall_pos, GameBoard, Grid};

verus! {

/// First playable row index.
pub open spec fn play_lo() -> int {
    (HEIGHT_PADDING / 2) as int
}

/// One past the last playable row index; also the index of the margin row
/// whose content falls into the top playable row on a clear.
pub open spec fn play_hi() -> int {
    play_lo() + MAX_HEIGHT as int
}

/// First playable column index.
pub open spec fn col_lo() -> int {
    (HEIGHT_PADDING / 2) as int
}

/// One past the last playable column index.
pub open spec fn col_hi() -> int {
    col_lo() + MAX_WIDTH as int
}

/// Row `y` is full: every playable column holds a piece colour (neither
/// empty nor the wall sentinel).
pub open spec fn row_full(b: Grid, y: int) -> bool {
    forall|x: int| #![trigger b[y][x]] col_lo() <= x < col_hi() ==> b[y][x] != 0 && b[y][x] != 9
}

/// Number of full rows with index in [lo, hi).
pub open spec fn cnt_full(b: Grid, lo: int, hi: int) -> nat
    decreases hi - lo,
{
    if lo >= hi {
        0
    } else {
        (if row_full(b, lo) {
            1nat
        } else {
            0nat
        }) + cnt_full(b, lo + 1, hi)
    }
}

/// Index of the j-th (0-based) non-full row at or above `y` within the
/// playable rows, or the margin row when fewer such rows remain.
pub open spec fn nth_nonfull(b: Grid, y: int, j: int) -> int
    decreases play_hi() - y,
{
    if y < play_lo() || y >= play_hi() {
        play_hi()
    } else if !row_full(b, y) {
        if j <= 0 {
            y
        } else {
            nth_nonfull(b, y + 1, j - 1)
        }
    } else {
        nth_nonfull(b, y + 1, j)
    }
}

/// Overall effect of a line-clear pass: outside the playable area the grid
/// is untouched, and playable row `a` ends up holding the (a - 2)-th
/// non-full row of the original grid — or the margin row's content once
/// the non-full rows are used up.
pub open spec fn lines_cleared(pre: Grid, post: Grid) -> bool {
    &&& forall|a: int, b: int| #![trigger post[a][b]]
        0 <= a < grid_h() && 0 <= b < grid_w() && !(play_lo() <= a < play_hi() && col_lo() <= b
            < col_hi()) ==> post[a][b] == pre[a][b]
    &&& forall|a: int, b: int| #![trigger post[a][b]]
        play_lo() <= a < play_hi() && col_lo() <= b < col_hi() ==> post[a][b] == pre[nth_nonfull(
            pre,
            play_lo(),
            a - play_lo(),
        )][b]
}

/// Two rows that agree on every playable column are equally full.
proof fn lemma_row_congruent(b1: Grid, y1: int, b2: Grid, y2: int)
    requires
        forall|v: int| #![trigger b1[y1][v]] col_lo() <= v < col_hi() ==> b1[y1][v] == b2[y2][v],
    ensures
        row_full(b1, y1) == row_full(b2, y2),
{
    if row_full(b2, y2) {
        assert forall|v: int| col_lo() <= v < col_hi() implies b1[y1][v] != 0 && b1[y1][v] != 9 by {
            assert(b1[y1][v] == b2[y2][v]);
        }
    }
    if row_full(b1, y1) {
        assert forall|v: int| col_lo() <= v < col_hi() implies b2[y2][v] != 0 && b2[y2][v] != 9 by {
            assert(b1[y1][v] == b2[y2][v]);
        }
    }
}

/// Counting full rows over [lo, hi) splits off the last row.
proof fn lemma_cnt_snoc(b: Grid, lo: int, hi: int)
    requires
        lo < hi,
    ensures
        cnt_full(b, lo, hi) == cnt_full(b, lo, hi - 1) + if row_full(b, hi - 1) {
            1nat
        } else {
            0nat
        },
    decreases hi - lo,
{
    if lo >= hi - 1 {
        assert(cnt_full(b, lo, hi - 1) == 0);
        assert(cnt_full(b, lo + 1, hi) == 0);
    } else {
        lemma_cnt_snoc(b, lo + 1, hi);
        assert(cnt_full(b, lo, hi) == (if row_full(b, lo) {
            1nat
        } else {
            0nat
        }) + cnt_full(b, lo + 1, hi));
        assert(cnt_full(b, lo, hi - 1) == (if row_full(b, lo) {
            1nat
        } else {
            0nat
        }) + cnt_full(b, lo + 1, hi - 1));
    }
}

/// There are at most hi - lo full rows in [lo, hi).
proof fn lemma_cnt_le(b: Grid, lo: int, hi: int)
    requires
        lo <= hi,
    ensures
        cnt_full(b, lo, hi) <= hi - lo,
    decreases hi - lo,
{
    if lo < hi {
        lemma_cnt_le(b, lo + 1, hi);
    }
}

/// Counting over a longer range counts at least as many rows.
proof fn lemma_cnt_mono(b: Grid, lo: int, m: int, hi: int)
    requires
        lo <= m <= hi,
    ensures
        cnt_full(b, lo, m) <= cnt_full(b, lo, hi),
    decreases hi - m,
{
    if m < hi {
        lemma_cnt_snoc(b, lo, hi);
        lemma_cnt_mono(b, lo, m, hi - 1);
    }
}

/// A non-full row `s` is found by `nth_nonfull` at the index that counts
/// the non-full rows below it.
proof fn lemma_nth_locate(b: Grid, lo: int, s: int)
    requires
        play_lo() <= lo <= s < play_hi(),
        !row_full(b, s),
    ensures
        nth_nonfull(b, lo, (s - lo) - cnt_full(b, lo, s)) == s,
    decreases s - lo,
{
    lemma_cnt_le(b, lo, s);
    if lo < s {
        lemma_nth_locate(b, lo + 1, s);
        if !row_full(b, lo) {
            lemma_cnt_le(b, lo + 1, s);
        }
    }
}

/// Once `j` reaches the number of non-full playable rows at or above
/// `lo`, `nth_nonfull` answers with the margin row.
proof fn lemma_nth_exhausted(b: Grid, lo: int, j: int)
    requires
        play_lo() <= lo <= play_hi(),
        j >= (play_hi() - lo) - cnt_full(b, lo, play_hi()),
    ensures
        nth_nonfull(b, lo, j) == play_hi(),
    decreases play_hi() - lo,
{
    if lo < play_hi() {
        lemma_cnt_le(b, lo + 1, play_hi());
        lemma_nth_exhausted(b, lo + 1, if row_full(b, lo) {
            j
        } else {
            j - 1
        });
    }
}

impl GameBoard {
    /// Test row `y` for fullness; a full row has its playable cells
    /// zeroed and the call answers true, any other row is left alone.
    #[verifier::loop_isolation(false)]
    fn clear_line(&mut self, y: usize) -> (r: bool)
        requires
            play_lo() <= y < play_hi(),
        ensures
            r == row_full(old(self).board, y as int),
            !r ==> *final(self) == *old(self),
            final(self).cursor == old(self).cursor,
            final(self).tetrimono == old(self).tetrimono,
            forall|a: int, b: int| #![trigger final(self).board[a][b]]
                0 <= a < grid_h() && 0 <= b < grid_w() ==> final(self).board[a][b] == if r && a
                    == y && col_lo() <= b < col_hi() {
                    0u8
                } else {
                    old(self).board[a][b]
                },
    {
        let start = HEIGHT_PADDING / 2;
        let mut x: usize = start;
        while x < start + MAX_WIDTH
            invariant
                play_lo() <= y < play_hi(),
                col_lo() <= x <= col_hi(),
                *self == *old(self),
                forall|v: int| #![trigger self.board[y as int][v]]
                    col_lo() <= v < x ==> self.board[y as int][v] != 0 && self.board[y as int][v]
                        != 9,
            decreases col_hi() - x,
        {
            if self.board[y][x] == 0 || self.board[y][x] == 9 {
                return false;
            }
            x = x + 1;
        }
        let mut x: usize = start;
        while x < start + MAX_WIDTH
            invariant
                play_lo() <= y < play_hi(),
                col_lo() <= x <= col_hi(),
                row_full(old(self).board, y as int),
                self.cursor == old(self).cursor,
                self.tetrimono == old(self).tetrimono,
                forall|a: int, b: int| #![trigger self.board[a][b]]
                    0 <= a < grid_h() && 0 <= b < grid_w() ==> self.board[a][b] == if a == y
                        && col_lo() <= b < x {
                        0u8
                    } else {
                        old(self).board[a][b]
                    },
            decreases col_hi() - x,
        {
            self.board[y][x] = 0;
            x = x + 1;
        }
        true
    }

    /// Let every playable row from `from_y` upward take the content of
    /// the row above it; the topmost playable row takes the margin row.
    #[verifier::loop_isolation(false)]
    fn shift_lines(&mut self, from_y: usize)
        requires
            play_lo() <= from_y < play_hi(),
        ensures
            final(self).cursor == old(self).cursor,
            final(self).tetrimono == old(self).tetrimono,
            forall|a: int, b: int| #![trigger final(self).board[a][b]]
                0 <= a < grid_h() && 0 <= b < grid_w() ==> final(self).board[a][b] == if from_y
                    <= a < play_hi() && col_lo() <= b < col_hi() {
                    old(self).board[a + 1][b]
                } else {
                    old(self).board[a][b]
                },
    {
        let start = HEIGHT_PADDING / 2;
        let mut y: usize = from_y;
        while y < start + MAX_HEIGHT
            invariant
                play_lo() <= from_y <= y <= play_hi(),
                self.cursor == old(self).cursor,
                self.tetrimono == old(self).tetrimono,
                forall|a: int, b: int| #![trigger self.board[a][b]]
                    0 <= a < grid_h() && 0 <= b < grid_w() ==> self.board[a][b] == if from_y <= a
                        < y && col_lo() <= b < col_hi() {
                        old(self).board[a + 1][b]
                    } else {
                        old(self).board[a][b]
                    },
            decreases play_hi() - y,
        {
            let mut x: usize = start;
            while x < start + MAX_WIDTH
                invariant
                    play_lo() <= from_y <= y < play_hi(),
                    col_lo() <= x <= col_hi(),
                    self.cursor == old(self).cursor,
                    self.tetrimono == old(self).tetrimono,
                    forall|a: int, b: int| #![trigger self.board[a][b]]
                        0 <= a < grid_h() && 0 <= b < grid_w() ==> self.board[a][b] == if (from_y
                            <= a < y && col_lo() <= b < col_hi()) || (a == y && col_lo() <= b < x) {
                            old(self).board[a + 1][b]
                        } else {
                            old(self).board[a][b]
                        },
                decreases col_hi() - x,
            {
                self.board[y][x] = self.board[y + 1][x];
                x = x + 1;
            }
            y = y + 1;
        }
    }

    /// Scan the playable rows bottom to top and collapse every full row,
    /// re-examining the same index after each collapse.  Answers with the
    /// number of rows cleared.
    ///
    /// The margin row just above the playable area must not be full: its
    /// content falls into the top playable row on every collapse, so a
    /// full margin row would feed the cascade forever.
    #[verifier::loop_isolation(false)]
    #[verifier::rlimit(100)]
    pub fn clear_lines(&mut self) -> (count: u8)
        requires
            old(self).wf(),
            !row_full(old(self).board, play_hi()),
        ensures
            final(self).cursor == old(self).cursor,
            final(self).tetrimono == old(self).tetrimono,
            final(self).wf(),
            count as int == cnt_full(old(self).board, play_lo(), play_hi()),
            lines_cleared(old(self).board, final(self).board),
    {
        let ghost b0 = self.board;
        let start = HEIGHT_PADDING / 2;
        let mut clear_line_count: u8 = 0;
        let mut y: usize = start;
        proof {
            lemma_cnt_le(b0, play_lo(), play_hi());
        }
        while y < start + MAX_HEIGHT
            invariant
                old(self).wf(),
                b0 == old(self).board,
                !row_full(b0, play_hi()),
                play_lo() <= y <= play_hi(),
                clear_line_count as int <= cnt_full(b0, play_lo(), play_hi()),
                y + clear_line_count <= play_hi() ==> clear_line_count as int == cnt_full(
                    b0,
                    play_lo(),
                    y + clear_line_count,
                ),
                y + clear_line_count > play_hi() ==> clear_line_count as int == cnt_full(
                    b0,
                    play_lo(),
                    play_hi(),
                ),
                self.cursor == old(self).cursor,
                self.tetrimono == old(self).tetrimono,
                forall|a: int, b: int| #![trigger self.board[a][b]]
                    0 <= a < grid_h() && 0 <= b < grid_w() && !(play_lo() <= a < play_hi()
                        && col_lo() <= b < col_hi()) ==> self.board[a][b] == b0[a][b],
                forall|a: int, b: int| #![trigger self.board[a][b]]
                    play_lo() <= a < y && col_lo() <= b < col_hi() ==> self.board[a][b] == b0[
                        nth_nonfull(b0, play_lo(), a - play_lo())
                    ][b],
                forall|a: int, b: int| #![trigger self.board[a][b]]
                    y <= a < play_hi() - clear_line_count && col_lo() <= b < col_hi() ==> self.board[
                        a
                    ][b] == b0[a + clear_line_count][b],
                forall|a: int, b: int| #![trigger self.board[a][b]]
                    play_hi() - clear_line_count <= a < play_hi() && col_lo() <= b < col_hi()
                        ==> self.board[a][b] == b0[play_hi() as int][b],
            decreases
                    cnt_full(b0, play_lo(), play_hi()) - clear_line_count,
                    play_hi() - y,
        {
            let ghost c = clear_line_count as int;
            let ghost yy = y as int;
            proof {
                // Identify the row under scan in the original grid and
                // relate its fullness.
                if yy < play_hi() - c {
                    assert forall|v: int| #![trigger self.board[yy][v]]
                        col_lo() <= v < col_hi() implies self.board[yy][v] == b0[yy + c][v] by {}
                    lemma_row_congruent(self.board, yy, b0, yy + c);
                } else {
                    assert forall|v: int| #![trigger self.board[yy][v]]
                        col_lo() <= v < col_hi() implies self.board[yy][v] == b0[
                        play_hi() as int
                    ][v] by {}
                    lemma_row_congruent(self.board, yy, b0, play_hi());
                }
            }
            let ghost pre_loop = *self;
            if !self.clear_line(y) {
                proof {
                    // The scanned row is kept: extend the settled zone.
                    if yy < play_hi() - c {
                        assert(!row_full(b0, yy + c));
                        lemma_cnt_le(b0, play_lo(), yy + c);
                        lemma_nth_locate(b0, play_lo(), yy + c);
                        assert(nth_nonfull(b0, play_lo(), yy - play_lo()) == yy + c);
                        lemma_cnt_snoc(b0, play_lo(), yy + c + 1);
                    } else {
                        lemma_nth_exhausted(b0, play_lo(), yy - play_lo());
                        assert(nth_nonfull(b0, play_lo(), yy - play_lo()) == play_hi());
                    }
                }
                y = y + 1;
                continue;
            }
            proof {
                // A full row was zeroed; it came from the original grid's
                // row yy + c, which is full.
                assert(yy < play_hi() - c) by {
                    if yy >= play_hi() - c {
                        assert(!row_full(b0, play_hi()));
                    }
                }
                assert(row_full(b0, yy + c));
                lemma_cnt_snoc(b0, play_lo(), yy + c + 1);
                lemma_cnt_mono(b0, play_lo(), yy + c + 1, play_hi());
            }
            self.shift_lines(y);
            proof {
                // After the collapse the rows above yy slide down one
                // step and the margin row fills the top.
                assert forall|a: int, b: int|
                    0 <= a < grid_h() && 0 <= b < grid_w() implies self.board[a][b] == if yy <= a
                    < play_hi() - (c + 1) && col_lo() <= b < col_hi() {
                    b0[a + c + 1][b]
                } else if play_hi() - (c + 1) <= a < play_hi() && col_lo() <= b < col_hi() {
                    b0[play_hi() as int][b]
                } else if play_lo() <= a < yy && col_lo() <= b < col_hi() {
                    b0[nth_nonfull(b0, play_lo(), a - play_lo())][b]
                } else {
                    b0[a][b]
                } by {}
            }
            clear_line_count = clear_line_count + 1;
        }
        proof {
            // Walls and cell values carry over from the original grid.
            assert(grid_wf(self.board)) by {
                assert forall|a: int, b: int|
                    0 <= a < grid_h() && 0 <= b < grid_w() implies (wall_pos(a, b)
                    ==> self.board[a][b] == 9) && (!wall_pos(a, b) ==> self.board[a][b] <= 7) by {
                    if play_lo() <= a < play_hi() && col_lo() <= b < col_hi() {
                        let src = nth_nonfull(b0, play_lo(), a - play_lo());
                        lemma_nth_in_range(b0, play_lo(), a - play_lo());
                        assert(!wall_pos(src, b));
                    }
                }
            }
        }
        clear_line_count
    }
}

/// A range of rows that are all non-full counts zero full rows.
proof fn lemma_cnt_zero(b: Grid, lo: int, hi: int)
    requires
        lo <= hi,
        forall|y: int| #![trigger row_full(b, y)] lo <= y < hi ==> !row_full(b, y),
    ensures
        cnt_full(b, lo, hi) == 0,
    decreases hi - lo,
{
    if lo < hi {
        lemma_cnt_zero(b, lo + 1, hi);
    }
}

/// A range with exactly one full row counts one.
proof fn lemma_cnt_single(b: Grid, lo: int, hi: int, f: int)
    requires
        lo <= f < hi,
        row_full(b, f),
        forall|y: int| #![trigger row_full(b, y)] lo <= y < hi && y != f ==> !row_full(b, y),
    ensures
        cnt_full(b, lo, hi) == 1,
    decreases hi - lo,
{
    if lo == f {
        lemma_cnt_zero(b, lo + 1, hi);
    } else {
        lemma_cnt_single(b, lo + 1, hi, f);
    }
}

/// A range with exactly two full rows, adjacent at f and f + 1, counts
/// two.
proof fn lemma_cnt_pair(b: Grid, lo: int, hi: int, f: int)
    requires
        lo <= f,
        f + 1 < hi,
        row_full(b, f),
        row_full(b, f + 1),
        forall|y: int| #![trigger row_full(b, y)] lo <= y < hi && y != f && y != f + 1 ==> !row_full(b, y),
    ensures
        cnt_full(b, lo, hi) == 2,
    decreases hi - lo,
{
    if lo == f {
        lemma_cnt_single(b, lo + 1, hi, f + 1);
    } else {
        lemma_cnt_pair(b, lo + 1, hi, f);
    }
}

/// Law: clearing a grid that has exactly one full playable row removes
/// just that row.  One row is counted; the rows below the full one keep
/// their content; every row above it slides down one step; and the
/// vacated top playable row takes the margin row's content (so it is
/// empty whenever the margin row is).
pub proof fn lemma_clear_single_full_row(pre: Grid, post: Grid, f: int)
    requires
        lines_cleared(pre, post),
        play_lo() <= f < play_hi(),
        row_full(pre, f),
        forall|y: int| #![trigger row_full(pre, y)]
            play_lo() <= y < play_hi() && y != f ==> !row_full(pre, y),
    ensures
        cnt_full(pre, play_lo(), play_hi()) == 1,
        forall|a: int, b: int| #![trigger post[a][b]]
            play_lo() <= a < f && col_lo() <= b < col_hi() ==> post[a][b] == pre[a][b],
        forall|a: int, b: int| #![trigger post[a][b]]
            f <= a < play_hi() - 1 && col_lo() <= b < col_hi() ==> post[a][b] == pre[a + 1][b],
        forall|b: int| #![trigger post[play_hi() - 1][b]]
            col_lo() <= b < col_hi() ==> post[play_hi() - 1][b] == pre[play_hi()][b],
{
    lemma_cnt_single(pre, play_lo(), play_hi(), f);
    assert forall|j: int| #![trigger nth_nonfull(pre, play_lo(), j)]
        0 <= j < play_hi() - 1 - play_lo() implies nth_nonfull(pre, play_lo(), j) == if j
        + play_lo() < f {
        j + play_lo()
    } else {
        j + play_lo() + 1
    } by {
        if j + play_lo() < f {
            lemma_cnt_zero(pre, play_lo(), j + play_lo());
            lemma_nth_locate(pre, play_lo(), j + play_lo());
        } else {
            lemma_cnt_single(pre, play_lo(), j + play_lo() + 1, f);
            lemma_nth_locate(pre, play_lo(), j + play_lo() + 1);
        }
    }
    lemma_nth_exhausted(pre, play_lo(), play_hi() - 1 - play_lo());
}

/// Law: clearing a grid whose only full playable rows are two adjacent
/// ones removes both — the cascade re-examines the collapsed row, so the
/// row that falls into the cleared slot is cleared as well.  Two rows are
/// counted; rows below keep their content; rows above slide down two
/// steps; and the two vacated top rows take the margin row's content.
pub proof fn lemma_clear_two_adjacent_full_rows(pre: Grid, post: Grid, f: int)
    requires
        lines_cleared(pre, post),
        play_lo() <= f,
        f + 1 < play_hi(),
        row_full(pre, f),
        row_full(pre, f + 1),
        forall|y: int| #![trigger row_full(pre, y)]
            play_lo() <= y < play_hi() && y != f && y != f + 1 ==> !row_full(pre, y),
    ensures
        cnt_full(pre, play_lo(), play_hi()) == 2,
        forall|a: int, b: int| #![trigger post[a][b]]
            play_lo() <= a < f && col_lo() <= b < col_hi() ==> post[a][b] == pre[a][b],
        forall|a: int, b: int| #![trigger post[a][b]]
            f <= a < play_hi() - 2 && col_lo() <= b < col_hi() ==> post[a][b] == pre[a + 2][b],
        forall|a: int, b: int| #![trigger post[a][b]]
            play_hi() - 2 <= a < play_hi() && col_lo() <= b < col_hi() ==> post[a][b] == pre[
                play_hi() as int
            ][b],
{
    lemma_cnt_pair(pre, play_lo(), play_hi(), f);
    assert forall|j: int| #![trigger nth_nonfull(pre, play_lo(), j)]
        0 <= j < play_hi() - 2 - play_lo() implies nth_nonfull(pre, play_lo(), j) == if j
        + play_lo() < f {
        j + play_lo()
    } else {
        j + play_lo() + 2
    } by {
        if j + play_lo() < f {
            lemma_cnt_zero(pre, play_lo(), j + play_lo());
            lemma_nth_locate(pre, play_lo(), j + play_lo());
        } else {
            lemma_cnt_pair(pre, play_lo(), j + play_lo() + 2, f);
            lemma_nth_locate(pre, play_lo(), j + play_lo() + 2);
        }
    }
    assert forall|j: int| #![trigger nth_nonfull(pre, play_lo(), j)]
        play_hi() - 2 - play_lo() <= j implies nth_nonfull(pre, play_lo(), j) == play_hi() by {
        lemma_nth_exhausted(pre, play_lo(), j);
    }
}

/// `nth_nonfull` always answers a row between the playable bottom and the
/// margin row.
proof fn lemma_nth_in_range(b: Grid, y: int, j: int)
    requires
        play_lo() <= y <= play_hi(),
    ensures
        play_lo() <= nth_nonfull(b, y, j) <= play_hi(),
    decreases play_hi() - y,
{
    if y < play_hi() {
        lemma_nth_in_range(b, y + 1, j);
        lemma_nth_in_range(b, y + 1, j - 1);
    }
}

} // verus!
