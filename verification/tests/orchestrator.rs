use tetris_core::config::AppState;
use tetris_core::engine::{handle_input, initialize_game, margin_open, tick_board, InputCommand};
use tetris_core::tetris::MoveDirection;

#[test]
fn initialize_spawns_the_first_piece() {
    let (board, queue, stock, counter) = initialize_game();
    assert!(board.tetrimono.is_some());
    assert_eq!(board.cursor, (20, 5));
    assert!(queue.queue.len() >= 6);
    assert!(stock.mono.is_none());
    assert_eq!(counter.elapsed, 0);
    assert_eq!(counter.target, 48);
    assert!(margin_open(&board));
}

#[test]
fn tick_before_the_target_changes_nothing() {
    let (mut board, mut queue, _stock, mut counter) = initialize_game();
    let cursor = board.cursor;
    let r = tick_board(&mut counter, &mut queue, &mut board);
    assert!(!r.changed);
    assert!(!r.game_over);
    assert_eq!(r.cleared, 0);
    assert_eq!(counter.elapsed, 1);
    assert_eq!(board.cursor, cursor);
}

#[test]
fn fired_tick_moves_the_piece_down_and_resets() {
    let (mut board, mut queue, _stock, mut counter) = initialize_game();
    counter.set_target(1);
    let r = tick_board(&mut counter, &mut queue, &mut board);
    assert!(r.changed);
    assert!(!r.game_over);
    assert_eq!(board.cursor, (19, 5));
    assert_eq!(counter.elapsed, 0);
}

#[test]
fn tick_locks_a_grounded_piece_and_spawns_the_next() {
    let (mut board, mut queue, _stock, mut counter) = initialize_game();
    // send the piece to the floor, then let one fired tick lock it
    let (changed, _) = handle_input(InputCommand::HardDrop, &mut board, &mut counter);
    assert!(changed);
    assert!(counter.is_finished());
    let grounded = board.cursor;
    assert!(!board.simulate_move(MoveDirection::Down));
    let r = tick_board(&mut counter, &mut queue, &mut board);
    assert!(r.changed);
    assert!(!r.game_over);
    assert_eq!(r.cleared, 0);
    // a fresh piece sits at the spawn coordinate, the old one is locked
    assert_eq!(board.cursor, (20, 5));
    assert!(board.tetrimono.is_some());
    assert!(queue.queue.len() >= 7);
    assert_eq!(counter.elapsed, 0);
    // some cell of the locked piece is on the grid near where it rested
    let mut any = false;
    for y in 0..4 {
        for x in 0..4 {
            if board.board[grounded.0 + y][grounded.1 + x] != 0
                && board.board[grounded.0 + y][grounded.1 + x] != 9
            {
                any = true;
            }
        }
    }
    assert!(any);
}

#[test]
fn movement_commands_move_only_when_legal() {
    let (mut board, _queue, _stock, mut counter) = initialize_game();
    let (changed, next) = handle_input(InputCommand::MoveLeft, &mut board, &mut counter);
    assert!(changed);
    assert!(next.is_none());
    assert_eq!(board.cursor.1, 4);
    let (changed, _) = handle_input(InputCommand::MoveRight, &mut board, &mut counter);
    assert!(changed);
    assert_eq!(board.cursor.1, 5);
    let (changed, _) = handle_input(InputCommand::MoveDown, &mut board, &mut counter);
    assert!(changed);
    assert_eq!(board.cursor.0, 19);
    // walk to the wall; the last attempt reports no change
    let mut guard = 0;
    loop {
        let (changed, _) = handle_input(InputCommand::MoveLeft, &mut board, &mut counter);
        if !changed {
            break;
        }
        guard += 1;
        assert!(guard < 20);
    }
}

#[test]
fn rotation_command_reports_change_only_on_failure() {
    let (mut board, _queue, _stock, mut counter) = initialize_game();
    let before = board.tetrimono.unwrap();
    let (changed, _) = handle_input(InputCommand::RotateClockwise, &mut board, &mut counter);
    if changed {
        // the rotation failed and nothing moved
        assert_eq!(board.tetrimono.unwrap().rotation, before.rotation);
        assert_eq!(board.tetrimono.unwrap().figure, before.figure);
    } else if before.matrix_size >= 1 {
        // the rotation succeeded quietly: success reports no change
        assert_eq!(board.tetrimono.unwrap().rotation, before.rotation + 90);
    } else {
        // a rotation-immune piece commits unchanged
        assert_eq!(board.tetrimono.unwrap().figure, before.figure);
        assert_eq!(board.tetrimono.unwrap().rotation, before.rotation);
    }
}

#[test]
fn hard_drop_grounds_the_piece_and_forces_the_timer() {
    let (mut board, _queue, _stock, mut counter) = initialize_game();
    let col = board.cursor.1;
    let (changed, _) = handle_input(InputCommand::HardDrop, &mut board, &mut counter);
    assert!(changed);
    assert_eq!(board.cursor.1, col);
    assert!(!board.simulate_move(MoveDirection::Down));
    assert!(counter.is_finished());
}

#[test]
fn restart_requests_the_running_state() {
    let (mut board, _queue, _stock, mut counter) = initialize_game();
    let cursor = board.cursor;
    let (changed, next) = handle_input(InputCommand::Restart, &mut board, &mut counter);
    assert!(changed);
    assert_eq!(next, Some(AppState::InGame));
    assert_eq!(board.cursor, cursor);
}

#[test]
fn a_full_session_of_ticks_stays_sane() {
    let (mut board, mut queue, _stock, mut counter) = initialize_game();
    counter.set_target(2);
    let mut spawns = 0;
    for step in 0..2000 {
        if !margin_open(&board) {
            panic!("margin row filled up");
        }
        if step % 5 == 0 {
            let _ = handle_input(InputCommand::MoveLeft, &mut board, &mut counter);
        }
        let r = tick_board(&mut counter, &mut queue, &mut board);
        if r.changed && board.cursor == (20, 5) {
            spawns += 1;
        }
        assert!(queue.queue.len() >= 1);
    }
    assert!(spawns > 10);
}
