use tetris_core::tetrimono::{Tetromino, TetrominoType};

fn occupied_cells(t: &Tetromino) -> Vec<(usize, usize)> {
    let mut cells = Vec::new();
    for y in 0..4 {
        for x in 0..4 {
            if t.figure[y][x] != 0 {
                cells.push((y, x));
            }
        }
    }
    cells
}

fn check_shape(typ: TetrominoType, color: u8, msize: usize, cells: &[(usize, usize)]) {
    let t = typ.get_tetromono();
    assert_eq!(t.matrix_size, msize);
    assert_eq!(t.rotation, 0);
    let occ = occupied_cells(&t);
    assert_eq!(occ.len(), cells.len());
    for &(y, x) in cells {
        assert_eq!(t.figure[y][x], color, "cell ({}, {}) of {:?}", y, x, typ);
    }
}

#[test]
fn shape_t_matches_canonical_layout() {
    check_shape(TetrominoType::T, 1, 3, &[(1, 0), (1, 1), (1, 2), (2, 1)]);
}

#[test]
fn shape_l_matches_canonical_layout() {
    check_shape(TetrominoType::L, 2, 3, &[(1, 0), (1, 1), (1, 2), (2, 2)]);
}

#[test]
fn shape_j_matches_canonical_layout() {
    check_shape(TetrominoType::J, 3, 3, &[(1, 0), (1, 1), (1, 2), (2, 0)]);
}

#[test]
fn shape_o_matches_canonical_layout() {
    check_shape(TetrominoType::O, 4, 0, &[(0, 0), (0, 1), (1, 0), (1, 1)]);
}

#[test]
fn shape_s_matches_canonical_layout() {
    check_shape(TetrominoType::S, 5, 3, &[(1, 0), (1, 1), (2, 1), (2, 2)]);
}

#[test]
fn shape_z_matches_canonical_layout() {
    check_shape(TetrominoType::Z, 6, 3, &[(1, 1), (1, 2), (2, 0), (2, 1)]);
}

#[test]
fn shape_i_matches_canonical_layout() {
    check_shape(TetrominoType::I, 7, 4, &[(1, 0), (1, 1), (1, 2), (1, 3)]);
}

#[test]
fn all_lists_the_seven_types_in_catalog_order() {
    let all = TetrominoType::all();
    assert_eq!(all.len(), 7);
    assert_eq!(all[0], TetrominoType::T);
    assert_eq!(all[1], TetrominoType::L);
    assert_eq!(all[2], TetrominoType::J);
    assert_eq!(all[3], TetrominoType::O);
    assert_eq!(all[4], TetrominoType::S);
    assert_eq!(all[5], TetrominoType::Z);
    assert_eq!(all[6], TetrominoType::I);
}

#[test]
fn four_clockwise_rotations_restore_the_pattern() {
    for typ in TetrominoType::all() {
        let original = typ.get_tetromono();
        let mut t = original;
        for _ in 0..4 {
            t.rotate_right();
        }
        assert_eq!(t.figure, original.figure, "{:?}", typ);
    }
}

#[test]
fn rotation_immune_shape_is_unchanged_by_rotation() {
    let original = TetrominoType::O.get_tetromono();
    let mut t = original;
    t.rotate_right();
    assert_eq!(t.figure, original.figure);
    assert_eq!(t.rotation, 0);
    t.rotate_left();
    assert_eq!(t.figure, original.figure);
    assert_eq!(t.rotation, 0);
}

#[test]
fn counter_rotation_applies_the_clockwise_transform() {
    // Quirk of the engine: the counter-clockwise entry point performs
    // the same cell transform as the clockwise one and differs only in
    // the accumulator.
    let mut right = TetrominoType::T.get_tetromono();
    let mut left = TetrominoType::T.get_tetromono();
    right.rotate_right();
    left.rotate_left();
    assert_eq!(right.figure, left.figure);
    assert_eq!(right.rotation, 90);
    assert_eq!(left.rotation, -90);
}

#[test]
fn one_clockwise_rotation_of_t() {
    let mut t = TetrominoType::T.get_tetromono();
    t.rotate_right();
    // new[y][x] == old[x][2 - y] on the 3x3 sub-square
    let expected = [
        [0, 1, 0, 0],
        [0, 1, 1, 0],
        [0, 1, 0, 0],
        [0, 0, 0, 0],
    ];
    assert_eq!(t.figure, expected);
}
