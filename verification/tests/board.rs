use tetris_core::config::{HEIGHT_WITH_PADDING, WIDTH_WITH_PADDING};
use tetris_core::tetrimono::TetrominoType;
use tetris_core::tetris::{GameBoard, MoveDirection};

fn empty_board() -> GameBoard {
    GameBoard::default()
}

#[test]
fn default_board_has_walls_and_empty_interior() {
    let g = empty_board();
    for y in 0..HEIGHT_WITH_PADDING {
        for x in 0..WIDTH_WITH_PADDING {
            let wall = y < 2 || x < 2 || x >= WIDTH_WITH_PADDING - 2;
            if wall {
                assert_eq!(g.board[y][x], 9, "({}, {})", y, x);
            } else {
                assert_eq!(g.board[y][x], 0, "({}, {})", y, x);
            }
        }
    }
    assert!(g.tetrimono.is_none());
}

#[test]
fn spawn_sets_cursor_and_piece() {
    let mut g = empty_board();
    g.init_tetrimono(TetrominoType::T.get_tetromono());
    assert_eq!(g.cursor, (20, 5));
    assert!(g.tetrimono.is_some());
    assert!(!g.is_game_over());
}

#[test]
fn moves_on_open_ground_are_legal() {
    let mut g = empty_board();
    g.init_tetrimono(TetrominoType::T.get_tetromono());
    assert!(g.simulate_move(MoveDirection::Down));
    assert!(g.simulate_move(MoveDirection::Left));
    assert!(g.simulate_move(MoveDirection::Right));
    g.apply_move(MoveDirection::Down);
    assert_eq!(g.cursor, (19, 5));
    g.apply_move(MoveDirection::Left);
    assert_eq!(g.cursor, (19, 4));
    g.apply_move(MoveDirection::Right);
    assert_eq!(g.cursor, (19, 5));
}

#[test]
fn move_into_wall_is_rejected() {
    let mut g = empty_board();
    g.init_tetrimono(TetrominoType::T.get_tetromono());
    // T occupies columns 0..=2 of its pattern; the leftmost playable
    // column is 2, so the piece stops once its cursor reaches column 2.
    while g.simulate_move(MoveDirection::Left) {
        g.apply_move(MoveDirection::Left);
    }
    assert_eq!(g.cursor.1, 2);
    assert!(!g.simulate_move(MoveDirection::Left));
}

#[test]
fn blocked_move_applied_anyway_overlaps() {
    let mut g = empty_board();
    g.init_tetrimono(TetrominoType::T.get_tetromono());
    while g.simulate_move(MoveDirection::Left) {
        g.apply_move(MoveDirection::Left);
    }
    assert!(!g.simulate_move(MoveDirection::Left));
    assert!(!g.is_game_over());
    // Test-only bypass of the legality guard: the piece now overlaps the
    // left wall, and the overlap check at the current cursor reports it.
    g.apply_move(MoveDirection::Left);
    assert!(g.is_game_over());
}

#[test]
fn simulate_with_no_piece_is_false() {
    let g = empty_board();
    assert!(!g.simulate_move(MoveDirection::Down));
    let mut g = empty_board();
    assert!(g.is_game_over());
}

#[test]
fn check_duplicate_sees_locked_cells() {
    let mut g = empty_board();
    g.board[10][5] = 3;
    let t = TetrominoType::T.get_tetromono();
    // T's occupied pattern cell (1, 1) lands on (10, 5) from cursor (9, 4).
    assert!(GameBoard::check_duplicate(g.board, t, (9, 4)));
    assert!(!GameBoard::check_duplicate(g.board, t, (12, 4)));
}

#[test]
fn lock_composites_exactly_the_piece_cells() {
    let mut g = empty_board();
    g.init_tetrimono(TetrominoType::T.get_tetromono());
    while g.simulate_move(MoveDirection::Down) {
        g.apply_move(MoveDirection::Down);
    }
    // T's lowest occupied pattern row is 1, so it rests with that row on
    // the floor row 2: cursor row 1.
    assert_eq!(g.cursor, (1, 5));
    let before = g.board;
    g.write_tetrimono();
    assert!(g.tetrimono.is_none());
    let mut diff = Vec::new();
    for y in 0..HEIGHT_WITH_PADDING {
        for x in 0..WIDTH_WITH_PADDING {
            if g.board[y][x] != before[y][x] {
                diff.push((y, x, g.board[y][x]));
            }
        }
    }
    diff.sort();
    assert_eq!(diff, vec![(2, 5, 1), (2, 6, 1), (2, 7, 1), (3, 6, 1)]);
}

#[test]
fn composite_view_overlays_without_mutating() {
    let mut g = empty_board();
    g.init_tetrimono(TetrominoType::O.get_tetromono());
    let snap = g.get_written_clone();
    assert_eq!(snap[20][5], 4);
    assert_eq!(snap[20][6], 4);
    assert_eq!(snap[21][5], 4);
    assert_eq!(snap[21][6], 4);
    // the grid itself is untouched
    assert_eq!(g.board[20][5], 0);
    assert!(g.tetrimono.is_some());
}

#[test]
fn rotation_on_open_ground_commits_the_unmoved_cursor() {
    let mut g = empty_board();
    g.init_tetrimono(TetrominoType::T.get_tetromono());
    assert!(g.try_rotate(true));
    assert_eq!(g.cursor, (20, 5));
    assert_eq!(g.tetrimono.unwrap().rotation, 90);
}

#[test]
fn long_piece_rotation_fails_without_kick_attempts() {
    let mut g = empty_board();
    g.init_tetrimono(TetrominoType::I.get_tetromono());
    // Drop the horizontal long piece to the floor: its occupied pattern
    // row 1 rests on row 2, cursor row 1.  The naive vertical rotation
    // would occupy rows 1..=4, and row 1 is wall.
    while g.simulate_move(MoveDirection::Down) {
        g.apply_move(MoveDirection::Down);
    }
    assert_eq!(g.cursor, (1, 5));
    let before = g.tetrimono.unwrap();
    assert!(!g.try_rotate(true));
    let after = g.tetrimono.unwrap();
    assert_eq!(after.figure, before.figure);
    assert_eq!(after.rotation, before.rotation);
    assert_eq!(g.cursor, (1, 5));
}

#[test]
fn rotation_against_the_wall_takes_a_kick() {
    let mut g = empty_board();
    g.init_tetrimono(TetrominoType::T.get_tetromono());
    assert!(g.try_rotate(true));
    // the piece is now vertical, occupying pattern column 1
    while g.simulate_move(MoveDirection::Left) {
        g.apply_move(MoveDirection::Left);
    }
    assert_eq!(g.cursor.1, 1);
    // Rotating back to horizontal at column 1 would overlap the left
    // wall, so a correction candidate is committed instead.
    let col_before = g.cursor.1;
    if g.try_rotate(true) {
        assert_ne!(g.cursor.1, col_before);
    }
}

#[test]
fn end_to_end_spawn_drop_lock() {
    let mut g = empty_board();
    g.init_tetrimono(TetrominoType::S.get_tetromono());
    assert!(!g.is_game_over());
    let mut steps = 0;
    while g.simulate_move(MoveDirection::Down) {
        g.apply_move(MoveDirection::Down);
        steps += 1;
        assert!(steps < 30, "the drop must reach the floor");
    }
    assert!(!g.simulate_move(MoveDirection::Down));
    let cursor = g.cursor;
    let piece = g.tetrimono.unwrap();
    g.write_tetrimono();
    for y in 0..4 {
        for x in 0..4 {
            if piece.figure[y][x] != 0 {
                assert_eq!(g.board[cursor.0 + y][cursor.1 + x], piece.figure[y][x]);
            }
        }
    }
    assert_eq!(g.clear_lines(), 0);
}
