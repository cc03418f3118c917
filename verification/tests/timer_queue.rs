use tetris_core::counter::FrameCounter;
use tetris_core::queue::TetrimonoQueue;
use tetris_core::tetrimono::TetrominoType;

#[test]
fn timer_starts_unfinished_at_initial_cadence() {
    let mut c = FrameCounter::default();
    assert_eq!(c.target, 48);
    assert_eq!(c.elapsed, 0);
    assert!(!c.is_finished());
}

#[test]
fn timer_fires_once_elapsed_reaches_target() {
    let mut c = FrameCounter::default();
    c.set_target(3);
    for _ in 0..2 {
        c.tick();
        assert!(!c.is_finished());
    }
    c.tick();
    assert!(c.is_finished());
    c.tick();
    assert!(c.is_finished());
}

#[test]
fn timer_reset_clears_elapsed() {
    let mut c = FrameCounter::default();
    c.set_target(2);
    c.tick();
    c.tick();
    assert!(c.is_finished());
    c.reset();
    assert!(!c.is_finished());
    assert_eq!(c.elapsed, 0);
}

#[test]
fn negative_target_never_fires() {
    let mut c = FrameCounter::default();
    c.set_target(-1);
    for _ in 0..100 {
        c.tick();
    }
    assert!(!c.is_finished());
}

#[test]
fn force_finish_fires_without_a_tick() {
    let mut c = FrameCounter::default();
    c.set_target(48);
    assert!(!c.is_finished());
    c.force_finish();
    assert!(c.is_finished());
}

fn type_index(t: TetrominoType) -> usize {
    match t {
        TetrominoType::T => 0,
        TetrominoType::L => 1,
        TetrominoType::J => 2,
        TetrominoType::O => 3,
        TetrominoType::S => 4,
        TetrominoType::Z => 5,
        TetrominoType::I => 6,
    }
}

#[test]
fn queue_starts_empty_and_fills_by_sets_of_seven() {
    let mut q = TetrimonoQueue::default();
    assert!(!q.is_enough_mono());
    q.add_set(false);
    assert!(q.is_enough_mono());
    assert_eq!(q.queue.len(), 7);
}

#[test]
fn unshuffled_set_keeps_catalog_order() {
    let mut q = TetrimonoQueue::default();
    q.add_set(false);
    assert_eq!(q.queue, TetrominoType::all());
}

#[test]
fn appended_set_has_one_of_each_type() {
    let mut q = TetrimonoQueue::default();
    q.add_set(true);
    assert_eq!(q.queue.len(), 7);
    let mut counts = [0usize; 7];
    for t in &q.queue {
        counts[type_index(*t)] += 1;
    }
    assert_eq!(counts, [1, 1, 1, 1, 1, 1, 1]);
}

#[test]
fn dequeue_is_first_in_first_out() {
    let mut q = TetrimonoQueue::default();
    q.add_set(false);
    let first = q.dequeue();
    // the oldest entry is the catalog's first type
    assert_eq!(first.figure[1][0], 1);
    assert_eq!(first.matrix_size, 3);
    assert_eq!(q.queue.len(), 6);
}

#[test]
fn dequeuing_a_whole_appended_set_yields_each_type_once() {
    let mut q = TetrimonoQueue::default();
    q.add_set(true);
    let mut counts = [0usize; 7];
    for _ in 0..7 {
        let shape = q.dequeue();
        // read the piece's colour code off its occupied cells
        let mut color = 0u8;
        for y in 0..4 {
            for x in 0..4 {
                if shape.figure[y][x] != 0 {
                    color = shape.figure[y][x];
                }
            }
        }
        assert!((1..=7).contains(&color));
        counts[(color - 1) as usize] += 1;
    }
    assert_eq!(counts, [1, 1, 1, 1, 1, 1, 1]);
    assert_eq!(q.queue.len(), 0);
}
