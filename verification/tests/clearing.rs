use tetris_core::tetris::GameBoard;

fn fill_row(g: &mut GameBoard, y: usize, color: u8) {
    for x in 2..12 {
        g.board[y][x] = color;
    }
}

#[test]
fn empty_board_clears_nothing() {
    let mut g = GameBoard::default();
    assert_eq!(g.clear_lines(), 0);
}

#[test]
fn single_full_row_clears_and_shifts() {
    let mut g = GameBoard::default();
    fill_row(&mut g, 2, 1);
    // a marker two rows above the full row
    g.board[4][6] = 5;
    assert_eq!(g.clear_lines(), 1);
    // the marker fell one row
    assert_eq!(g.board[3][6], 5);
    assert_eq!(g.board[4][6], 0);
    // the cleared row took the content of the row above it, which was empty
    for x in 2..12 {
        assert_eq!(g.board[2][x], 0);
    }
    // the vacated top playable row is empty
    for x in 2..12 {
        assert_eq!(g.board[23][x], 0);
    }
}

#[test]
fn full_row_above_floor_clears() {
    let mut g = GameBoard::default();
    fill_row(&mut g, 7, 2);
    g.board[9][3] = 4;
    assert_eq!(g.clear_lines(), 1);
    assert_eq!(g.board[8][3], 4);
    assert_eq!(g.board[9][3], 0);
    // rows below the cleared one are untouched
    for x in 2..12 {
        assert_eq!(g.board[2][x], 0);
    }
}

#[test]
fn two_adjacent_full_rows_cascade() {
    let mut g = GameBoard::default();
    fill_row(&mut g, 5, 3);
    fill_row(&mut g, 6, 6);
    g.board[8][2] = 7;
    assert_eq!(g.clear_lines(), 2);
    // the marker fell two rows: the collapse re-examined row 5 after the
    // first clear pulled the second full row down into it
    assert_eq!(g.board[6][2], 7);
    assert_eq!(g.board[8][2], 0);
    for x in 2..12 {
        assert_eq!(g.board[5][x], 0);
    }
}

#[test]
fn two_separated_full_rows_both_clear() {
    let mut g = GameBoard::default();
    fill_row(&mut g, 3, 1);
    fill_row(&mut g, 8, 2);
    g.board[10][4] = 5;
    assert_eq!(g.clear_lines(), 2);
    assert_eq!(g.board[8][4], 5);
}

#[test]
fn partial_row_does_not_clear() {
    let mut g = GameBoard::default();
    fill_row(&mut g, 2, 1);
    g.board[2][7] = 0;
    assert_eq!(g.clear_lines(), 0);
    assert_eq!(g.board[2][2], 1);
}

#[test]
fn four_full_rows_clear_at_once() {
    let mut g = GameBoard::default();
    for y in 2..6 {
        fill_row(&mut g, y, 7);
    }
    g.board[7][5] = 1;
    assert_eq!(g.clear_lines(), 4);
    assert_eq!(g.board[3][5], 1);
    assert_eq!(g.board[7][5], 0);
}
