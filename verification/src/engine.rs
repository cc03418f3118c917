//! Tick orchestrator: sequences the gravity timer, the piece queue and
//! the playfield into one per-tick and per-input protocol.  The embedding
//! application performs input reading and drawing; it calls in here once
//! per simulation tick and once per discrete input command.
use vstd::prelude::*;
use crate::config::{
    AppState, HEIGHT_PADDING, INITIAL_DROP_FRAMES, INITIAL_MONO_COL, INITIAL_MONO_ROW, MAX_HEIGHT,
    MAX_WIDTH, MIN_QUEUE_MONO_COUNT,
};
use crate::counter::FrameCounter;
use crate::lines::{cnt_full, col_hi, col_lo, lines_cleared, play_hi, play_lo, row_full};
use crate::queue::{bags_appended, TetrimonoQueue};
use crate::tetrimono::{is_shape_for, occ, occ_low, TetrominoType};
use crate::tetris::{
    composite_cell, dir_dx, dir_dy, fits, grid_h, grid_w, grid_wf, hits, lemma_placeable_cursor,
    off_walls, rotate_failure, rotate_success, wall_pos, GameBoard, Grid, MoveDirection,
    StockTetrimono,
};

verus! {

/// Discrete commands delivered by the input collaborator, one at a time
/// between ticks.
#[derive(Clone, Copy, Debug, PartialEq, Eq, Structural)]
pub enum InputCommand {
    MoveLeft,
    MoveRight,
    MoveDown,
    RotateClockwise,
    HardDrop,
    Restart,
}

/// What one simulation tick reports back to the embedding application.
pub struct TickResult {
    /// The visible state changed: a redraw is in order.
    pub changed: bool,
    /// The freshly spawned piece already overlaps: there was no room.
    pub game_over: bool,
    /// Number of lines cleared by this tick.
    pub cleared: u8,
}

/// Session invariant of the playfield between orchestrator calls: the
/// structural invariant holds, an active piece sits clear of the walls,
/// and any piece that takes rotation correction keeps a cursor away from
/// the grid origin, which the correction arithmetic needs.
pub open spec fn state_inv(g: GameBoard) -> bool {
    &&& g.wf()
    &&& g.tetrimono is Some ==> off_walls(
        g.tetrimono.unwrap().figure,
        g.cursor.0 as int,
        g.cursor.1 as int,
    ) && (g.tetrimono.unwrap().matrix_size != 4 ==> g.cursor.0 >= 1 && g.cursor.1 >= 1)
}

/// Locking the active piece right now would leave the margin row just
/// above the playable area completely occupied — the one state in which
/// the cascading line clear would not terminate, so a tick must not run
/// from it.
pub open spec fn locked_margin_full(g: GameBoard) -> bool {
    forall|x: int|
        #![trigger composite_cell(g.board, g.tetrimono, g.cursor, play_hi(), x)]
        col_lo() <= x < col_hi() ==> composite_cell(g.board, g.tetrimono, g.cursor, play_hi(), x)
            != 0 && composite_cell(g.board, g.tetrimono, g.cursor, play_hi(), x) != 9
}

/// The timer will report finished once this tick's advance is counted.
pub open spec fn tick_fires(c: FrameCounter) -> bool {
    c.target >= 0 && c.target <= c.elapsed + 1
}

/// The active piece can take one legal step down.
pub open spec fn can_descend(g: GameBoard) -> bool {
    g.tetrimono is Some && !hits(
        g.board,
        g.tetrimono.unwrap().figure,
        g.cursor.0 - 1,
        g.cursor.1 as int,
    )
}

/// Guard for the tick entry point: true when locking the active piece
/// now would keep the margin row above the playable area open.
#[verifier::loop_isolation(false)]
pub fn margin_open(board: &GameBoard) -> (r: bool)
    requires
        board.wf(),
    ensures
        r == !locked_margin_full(*board),
{
    let snap = board.get_written_clone();
    let row = HEIGHT_PADDING / 2 + MAX_HEIGHT;
    let start = HEIGHT_PADDING / 2;
    let mut x: usize = start;
    while x < start + MAX_WIDTH
        invariant
            col_lo() <= x <= col_hi(),
            forall|v: int|
                #![trigger snap[play_hi()][v]]
                col_lo() <= v < x ==> snap[play_hi()][v] != 0 && snap[play_hi()][v] != 9,
            forall|v: int|
                #![trigger snap[play_hi()][v]]
                col_lo() <= v < col_hi() ==> snap[play_hi()][v] == composite_cell(
                    board.board,
                    board.tetrimono,
                    board.cursor,
                    play_hi(),
                    v,
                ),
        decreases col_hi() - x,
    {
        if snap[row][x] == 0 || snap[row][x] == 9 {
            proof {
                assert(snap[play_hi()][x as int] == composite_cell(
                    board.board,
                    board.tetrimono,
                    board.cursor,
                    play_hi(),
                    x as int,
                ));
            }
            return true;
        }
        x = x + 1;
    }
    proof {
        assert forall|v: int|
            col_lo() <= v < col_hi() implies composite_cell(
            board.board,
            board.tetrimono,
            board.cursor,
            play_hi(),
            v,
        ) != 0 && composite_cell(board.board, board.tetrimono, board.cursor, play_hi(), v)
            != 9 by {
            assert(snap[play_hi()][v] != 0 && snap[play_hi()][v] != 9);
        }
    }
    false
}

/// Build a fresh game: a queue filled with whole shuffled piece sets, an
/// empty walled playfield with the first piece spawned, an empty stock,
/// and the gravity timer at its initial cadence.
#[verifier::loop_isolation(false)]
pub fn initialize_game() -> (r: (GameBoard, TetrimonoQueue, StockTetrimono, FrameCounter))
    ensures
        state_inv(r.0),
        r.0.tetrimono is Some,
        r.0.cursor.0 == INITIAL_MONO_ROW && r.0.cursor.1 == INITIAL_MONO_COL,
        forall|y: int, x: int|
            #![trigger r.0.board[y][x]]
            0 <= y < grid_h() && 0 <= x < grid_w() ==> r.0.board[y][x] == if wall_pos(y, x) {
                9u8
            } else {
                0u8
            },
        r.1.queue@.len() + 1 >= MIN_QUEUE_MONO_COUNT,
        r.1.queue@.len() + 1 < MIN_QUEUE_MONO_COUNT + 7,
        exists|q: Seq<TetrominoType>|
            #![trigger bags_appended(Seq::empty(), q)]
            {
                &&& bags_appended(Seq::empty(), q)
                &&& q.len() >= 1
                &&& r.1.queue@ == q.subrange(1, q.len() as int)
                &&& is_shape_for(q[0], r.0.tetrimono.unwrap())
            },
        r.2.mono is None,
        r.3.elapsed == 0 && r.3.target == INITIAL_DROP_FRAMES,
{
    let mut queue = TetrimonoQueue::default();
    let ghost mut nb: int = 0;
    proof {
        assert(queue.queue@ =~= Seq::<TetrominoType>::empty());
        assert(queue.queue@.subrange(0, 0) =~= Seq::<TetrominoType>::empty());
    }
    while queue.queue.len() < MIN_QUEUE_MONO_COUNT
        invariant
            nb >= 0,
            queue.queue@.len() == 7 * nb,
            queue.queue@.len() < MIN_QUEUE_MONO_COUNT + 7,
            bags_appended(Seq::empty(), queue.queue@),
        decreases MIN_QUEUE_MONO_COUNT - queue.queue@.len(),
    {
        let ghost pre = queue.queue@;
        queue.add_set(true);
        proof {
            nb = nb + 1;
            lemma_bags_grow(pre, queue.queue@, Seq::empty());
        }
    }
    let ghost q_full = queue.queue@;
    let mut game_board = GameBoard::default();
    game_board.init_tetrimono(queue.dequeue());
    proof {
        assert(off_walls(
            game_board.tetrimono.unwrap().figure,
            game_board.cursor.0 as int,
            game_board.cursor.1 as int,
        )) by {
            assert forall|y: int, x: int|
                occ(game_board.tetrimono.unwrap().figure, y, x) implies !wall_pos(
                INITIAL_MONO_ROW + y,
                INITIAL_MONO_COL + x,
            ) by {}
        }
    }
    (game_board, queue, StockTetrimono { mono: None }, FrameCounter::default())
}

/// One simulation tick.  The timer advances; once it fires, the active
/// piece either takes one step down or locks into the grid, and in the
/// locking case the next piece spawns from the queue, an over-spawn is
/// detected, full lines are cleared, the queue is replenished with whole
/// shuffled sets, and the timer starts over.
#[verifier::loop_isolation(false)]
#[verifier::rlimit(100)]
pub fn tick_board(
    counter: &mut FrameCounter,
    mono_queue: &mut TetrimonoQueue,
    game_board: &mut GameBoard,
) -> (r: TickResult)
    requires
        state_inv(*old(game_board)),
        old(counter).elapsed < i64::MAX,
        old(mono_queue).queue@.len() >= 1,
        !locked_margin_full(*old(game_board)),
    ensures
        state_inv(*final(game_board)),
        final(counter).target == old(counter).target,
        !tick_fires(*old(counter)) ==> {
            &&& final(counter).elapsed == old(counter).elapsed + 1
            &&& *final(game_board) == *old(game_board)
            &&& *final(mono_queue) == *old(mono_queue)
            &&& !r.changed
            &&& !r.game_over
            &&& r.cleared == 0
        },
        tick_fires(*old(counter)) && can_descend(*old(game_board)) ==> {
            &&& final(counter).elapsed == 0
            &&& *final(mono_queue) == *old(mono_queue)
            &&& final(game_board).board == old(game_board).board
            &&& final(game_board).tetrimono == old(game_board).tetrimono
            &&& final(game_board).cursor.0 as int == old(game_board).cursor.0 - 1
            &&& final(game_board).cursor.1 == old(game_board).cursor.1
            &&& r.changed
            &&& !r.game_over
            &&& r.cleared == 0
        },
        tick_fires(*old(counter)) && !can_descend(*old(game_board)) ==> {
            &&& final(counter).elapsed == 0
            &&& final(game_board).tetrimono is Some
            &&& is_shape_for(
                old(mono_queue).queue@[0],
                final(game_board).tetrimono.unwrap(),
            )
            &&& final(game_board).cursor.0 == INITIAL_MONO_ROW
            &&& final(game_board).cursor.1 == INITIAL_MONO_COL
            &&& exists|w: Grid|
                #![trigger lines_cleared(w, final(game_board).board)]
                {
                    &&& forall|y: int, x: int|
                        #![trigger w[y][x]]
                        0 <= y < grid_h() && 0 <= x < grid_w() ==> w[y][x] == composite_cell(
                            old(game_board).board,
                            old(game_board).tetrimono,
                            old(game_board).cursor,
                            y,
                            x,
                        )
                    &&& lines_cleared(w, final(game_board).board)
                    &&& r.cleared as int == cnt_full(w, play_lo(), play_hi())
                    &&& r.game_over == hits(
                        w,
                        final(game_board).tetrimono.unwrap().figure,
                        INITIAL_MONO_ROW as int,
                        INITIAL_MONO_COL as int,
                    )
                }
            &&& bags_appended(
                old(mono_queue).queue@.subrange(1, old(mono_queue).queue@.len() as int),
                final(mono_queue).queue@,
            )
            &&& final(mono_queue).queue@.len() >= MIN_QUEUE_MONO_COUNT
            &&& (old(mono_queue).queue@.len() - 1 >= MIN_QUEUE_MONO_COUNT
                ==> final(mono_queue).queue@ == old(mono_queue).queue@.subrange(
                1,
                old(mono_queue).queue@.len() as int,
            ))
            &&& (old(mono_queue).queue@.len() - 1 < MIN_QUEUE_MONO_COUNT
                ==> final(mono_queue).queue@.len() < MIN_QUEUE_MONO_COUNT + 7)
            &&& r.changed
        },
{
    counter.tick();
    if !counter.is_finished() {
        return TickResult { changed: false, game_over: false, cleared: 0 };
    }
    if game_board.simulate_move(MoveDirection::Down) {
        proof {
            let t = game_board.tetrimono.unwrap();
            lemma_placeable_cursor(
                game_board.board,
                t,
                game_board.cursor.0 - 1,
                game_board.cursor.1 as int,
            );
            assert forall|y: int, x: int|
                occ(t.figure, y, x) implies !wall_pos(
                game_board.cursor.0 - 1 + y,
                game_board.cursor.1 + x,
            ) && game_board.cursor.0 - 1 + y < grid_h() && game_board.cursor.1 + x
                < grid_w() by {
                assert(game_board.board[game_board.cursor.0 - 1 + y][game_board.cursor.1 + x]
                    == 0);
            }
        }
        game_board.apply_move(MoveDirection::Down);
        counter.reset();
        return TickResult { changed: true, game_over: false, cleared: 0 };
    }
    proof {
        // Locking keeps the margin row open: the written grid agrees with
        // the composite, which the tick guard checked.
        assert(!locked_margin_full(*game_board));
    }
    game_board.write_tetrimono();
    let ghost w = game_board.board;
    proof {
        assert(!row_full(w, play_hi())) by {
            let v = choose|v: int|
                col_lo() <= v < col_hi() && !(composite_cell(
                    old(game_board).board,
                    old(game_board).tetrimono,
                    old(game_board).cursor,
                    play_hi(),
                    v,
                ) != 0 && composite_cell(
                    old(game_board).board,
                    old(game_board).tetrimono,
                    old(game_board).cursor,
                    play_hi(),
                    v,
                ) != 9);
            assert(w[play_hi()][v] == 0 || w[play_hi()][v] == 9);
        }
    }
    game_board.init_tetrimono(mono_queue.dequeue());
    let game_over = game_board.is_game_over();
    let cleared = game_board.clear_lines();
    let ghost qd = mono_queue.queue@;
    let ghost mut nb: int = 0;
    proof {
        assert(mono_queue.queue@.subrange(0, qd.len() as int) =~= qd);
    }
    while mono_queue.queue.len() < MIN_QUEUE_MONO_COUNT
        invariant
            nb >= 0,
            mono_queue.queue@.len() == qd.len() + 7 * nb,
            nb == 0 ==> mono_queue.queue@ == qd,
            nb >= 1 ==> mono_queue.queue@.len() < MIN_QUEUE_MONO_COUNT + 7,
            bags_appended(qd, mono_queue.queue@),
        decreases (if mono_queue.queue@.len() >= MIN_QUEUE_MONO_COUNT {
            0int
        } else {
            MIN_QUEUE_MONO_COUNT - mono_queue.queue@.len()
        }),
    {
        let ghost pre = mono_queue.queue@;
        mono_queue.add_set(true);
        proof {
            nb = nb + 1;
            lemma_bags_grow(pre, mono_queue.queue@, qd);
        }
    }
    counter.reset();
    proof {
        let t = game_board.tetrimono.unwrap();
        assert(off_walls(t.figure, INITIAL_MONO_ROW as int, INITIAL_MONO_COL as int)) by {
            assert forall|y: int, x: int|
                occ(t.figure, y, x) implies !wall_pos(
                INITIAL_MONO_ROW + y,
                INITIAL_MONO_COL + x,
            ) by {}
        }
    }
    TickResult { changed: true, game_over, cleared }
}

/// The movement direction that an input command asks for.
pub open spec fn move_dir(cmd: InputCommand) -> MoveDirection {
    match cmd {
        InputCommand::MoveLeft => MoveDirection::Left,
        InputCommand::MoveRight => MoveDirection::Right,
        _ => MoveDirection::Down,
    }
}

/// A placement that overlaps nothing is clear of the walls, inside the
/// grid, and keeps the cursor facts of the session invariant.
proof fn lemma_legal_target(g: GameBoard, nr: int, nc: int)
    requires
        g.wf(),
        g.tetrimono is Some,
        !hits(g.board, g.tetrimono.unwrap().figure, nr, nc),
    ensures
        off_walls(g.tetrimono.unwrap().figure, nr, nc),
        fits(g.tetrimono.unwrap().figure, nr, nc),
        nr >= 2 - occ_low(g.tetrimono.unwrap().matrix_size as int),
        nc >= 2 - occ_low(g.tetrimono.unwrap().matrix_size as int),
{
    let t = g.tetrimono.unwrap();
    lemma_placeable_cursor(g.board, t, nr, nc);
    assert forall|y: int, x: int|
        occ(t.figure, y, x) implies !wall_pos(nr + y, nc + x) && nr + y < grid_h() && nc + x
        < grid_w() by {
        assert(g.board[nr + y][nc + x] == 0);
    }
}

/// One discrete input command, handled between ticks.  A movement command
/// attempts a single legal step and reports a change only on success.  A
/// rotation command reports a change only on failure — a quirk of this
/// engine's input protocol, pinned by the contract below and by the
/// tests.  A hard drop sends the piece to the
/// floor and forces the timer, so that locking, spawning and clearing
/// happen through the normal tick path.  Restart asks the application to
/// re-enter the running phase.
#[verifier::loop_isolation(false)]
#[verifier::rlimit(100)]
pub fn handle_input(
    cmd: InputCommand,
    game_board: &mut GameBoard,
    counter: &mut FrameCounter,
) -> (r: (bool, Option<AppState>))
    requires
        state_inv(*old(game_board)),
        cmd is RotateClockwise && old(game_board).tetrimono is Some ==> i64::MIN + 90 <= old(
            game_board,
        ).tetrimono.unwrap().rotation <= i64::MAX - 90,
    ensures
        state_inv(*final(game_board)),
        final(counter).target == old(counter).target,
        r.1 == if cmd is Restart {
            Some(AppState::InGame)
        } else {
            None::<AppState>
        },
        cmd is Restart ==> *final(game_board) == *old(game_board) && *final(counter) == *old(
            counter,
        ) && r.0,
        cmd is MoveLeft || cmd is MoveRight || cmd is MoveDown ==> {
            let d = move_dir(cmd);
            let legal = old(game_board).tetrimono is Some && !hits(
                old(game_board).board,
                old(game_board).tetrimono.unwrap().figure,
                old(game_board).cursor.0 + dir_dy(d),
                old(game_board).cursor.1 + dir_dx(d),
            );
            &&& *final(counter) == *old(counter)
            &&& r.0 == legal
            &&& (legal ==> {
                &&& final(game_board).board == old(game_board).board
                &&& final(game_board).tetrimono == old(game_board).tetrimono
                &&& final(game_board).cursor.0 as int == old(game_board).cursor.0 + dir_dy(d)
                &&& final(game_board).cursor.1 as int == old(game_board).cursor.1 + dir_dx(d)
            })
            &&& (!legal ==> *final(game_board) == *old(game_board))
        },
        cmd is RotateClockwise ==> {
            &&& *final(counter) == *old(counter)
            &&& (!r.0 ==> rotate_success(*old(game_board), *final(game_board), true))
            &&& (r.0 ==> *final(game_board) == *old(game_board))
            &&& (r.0 ==> old(game_board).tetrimono is None || rotate_failure(
                *old(game_board),
                true,
            ))
        },
        cmd is HardDrop ==> {
            &&& final(counter).elapsed == old(counter).target
            &&& final(game_board).board == old(game_board).board
            &&& final(game_board).tetrimono == old(game_board).tetrimono
            &&& final(game_board).cursor.1 == old(game_board).cursor.1
            &&& final(game_board).cursor.0 <= old(game_board).cursor.0
            &&& r.0
            &&& (old(game_board).tetrimono is Some ==> hits(
                old(game_board).board,
                old(game_board).tetrimono.unwrap().figure,
                final(game_board).cursor.0 - 1,
                old(game_board).cursor.1 as int,
            ) && forall|t: int|
                #![trigger hits(old(game_board).board, old(game_board).tetrimono.unwrap().figure, t, old(game_board).cursor.1 as int)]
                final(game_board).cursor.0 <= t < old(game_board).cursor.0 ==> !hits(
                    old(game_board).board,
                    old(game_board).tetrimono.unwrap().figure,
                    t,
                    old(game_board).cursor.1 as int,
                ))
            &&& (old(game_board).tetrimono is None ==> final(game_board).cursor == old(
                game_board,
            ).cursor)
        },
{
    match cmd {
        InputCommand::MoveLeft => {
            if !game_board.simulate_move(MoveDirection::Left) {
                return (false, None);
            }
            proof {
                lemma_legal_target(
                    *game_board,
                    game_board.cursor.0 as int,
                    game_board.cursor.1 - 1,
                );
            }
            game_board.apply_move(MoveDirection::Left);
            (true, None)
        },
        InputCommand::MoveRight => {
            if !game_board.simulate_move(MoveDirection::Right) {
                return (false, None);
            }
            proof {
                lemma_legal_target(
                    *game_board,
                    game_board.cursor.0 as int,
                    game_board.cursor.1 + 1,
                );
            }
            game_board.apply_move(MoveDirection::Right);
            (true, None)
        },
        InputCommand::MoveDown => {
            if !game_board.simulate_move(MoveDirection::Down) {
                return (false, None);
            }
            proof {
                lemma_legal_target(
                    *game_board,
                    game_board.cursor.0 - 1,
                    game_board.cursor.1 as int,
                );
            }
            game_board.apply_move(MoveDirection::Down);
            (true, None)
        },
        InputCommand::RotateClockwise => {
            if game_board.try_rotate(true) {
                return (false, None);
            }
            (true, None)
        },
        InputCommand::HardDrop => {
            let mut can = game_board.simulate_move(MoveDirection::Down);
            while can
                invariant
                    state_inv(*game_board),
                    game_board.board == old(game_board).board,
                    game_board.tetrimono == old(game_board).tetrimono,
                    game_board.cursor.1 == old(game_board).cursor.1,
                    game_board.cursor.0 <= old(game_board).cursor.0,
                    old(game_board).tetrimono is Some ==> forall|t: int|
                        #![trigger hits(old(game_board).board, old(game_board).tetrimono.unwrap().figure, t, old(game_board).cursor.1 as int)]
                        game_board.cursor.0 <= t < old(game_board).cursor.0 ==> !hits(
                            old(game_board).board,
                            old(game_board).tetrimono.unwrap().figure,
                            t,
                            old(game_board).cursor.1 as int,
                        ),
                    can == (game_board.tetrimono is Some && !hits(
                        game_board.board,
                        game_board.tetrimono.unwrap().figure,
                        game_board.cursor.0 - 1,
                        game_board.cursor.1 as int,
                    )),
                    game_board.tetrimono is None ==> game_board.cursor == old(game_board).cursor,
                decreases game_board.cursor.0,
            {
                proof {
                    lemma_legal_target(
                        *game_board,
                        game_board.cursor.0 - 1,
                        game_board.cursor.1 as int,
                    );
                }
                game_board.apply_move(MoveDirection::Down);
                can = game_board.simulate_move(MoveDirection::Down);
            }
            counter.force_finish();
            (true, None)
        },
        InputCommand::Restart => (true, Some(AppState::InGame)),
    }
}

/// One whole-set append keeps the queue a bag extension of any prefix it
/// already extended.
proof fn lemma_bags_grow(mid: Seq<TetrominoType>, post: Seq<TetrominoType>, pre: Seq<TetrominoType>)
    requires
        bags_appended(pre, mid),
        post.len() == mid.len() + 7,
        post.subrange(0, mid.len() as int) == mid,
        post.subrange(mid.len() as int, mid.len() + 7int).to_multiset()
            == crate::queue::full_set_multiset(),
    ensures
        bags_appended(pre, post),
{
    assert(post.subrange(0, pre.len() as int) =~= pre) by {
        assert forall|i: int| #![trigger pre[i]] 0 <= i < pre.len() implies post.subrange(
            0,
            pre.len() as int,
        )[i] == pre[i] by {
            assert(post.subrange(0, mid.len() as int)[i] == post[i]);
            assert(mid.subrange(0, pre.len() as int)[i] == mid[i]);
        }
    }
    let d = mid.len() - pre.len();
    assert(d % 7 == 0 && d >= 0);
    assert((d + 7) % 7 == 0) by (nonlinear_arith)
        requires
            d % 7 == 0,
            d >= 0,
    ;
    assert((post.len() - pre.len()) % 7 == 0);
    assert forall|k: int|
        0 <= k && pre.len() + 7 * k + 7 <= post.len() implies #[trigger] post.subrange(
        pre.len() + 7 * k,
        pre.len() + 7 * k + 7,
    ).to_multiset() == crate::queue::full_set_multiset() by {
        let lo = pre.len() + 7 * k;
        if lo + 7 <= mid.len() {
            assert(post.subrange(lo, lo + 7) =~= mid.subrange(lo, lo + 7)) by {
                assert forall|i: int| #![trigger post.subrange(lo, lo + 7)[i]]
                    0 <= i < 7 implies post.subrange(lo, lo + 7)[i] == mid.subrange(
                    lo,
                    lo + 7,
                )[i] by {
                    assert(post.subrange(0, mid.len() as int)[lo + i] == post[lo + i]);
                }
            }
            assert(mid.subrange(lo, lo + 7).to_multiset() == crate::queue::full_set_multiset());
        } else {
            // The new block: its start must be exactly the old length.
            let q = d / 7;
            assert(d == 7 * q) by (nonlinear_arith)
                requires
                    d % 7 == 0,
                    d >= 0,
                    q == d / 7,
            ;
            assert(7 * k <= d && 7 * k > d - 7);
            assert(k == q) by (nonlinear_arith)
                requires
                    7 * k <= d,
                    7 * k > d - 7,
                    d == 7 * q,
            ;
            assert(lo == mid.len());
        }
    }
}

} // verus!
