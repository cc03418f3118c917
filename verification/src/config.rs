//! Tunable constants of the simulation core: grid geometry, queue reserve,
//! gravity cadence and the spawn coordinate.
use vstd::prelude::*;

verus! {

/// Side length of the square that holds a piece's occupancy pattern.
pub const TETRIMONO_MATRIX_SIZE: usize = 4;

/// Height of the playable area, in rows.
pub const MAX_HEIGHT: usize = 22;

/// Width of the playable area, in columns.
pub const MAX_WIDTH: usize = 10;

/// The piece queue is refilled whenever it holds fewer entries than this.
pub const MIN_QUEUE_MONO_COUNT: usize = 7;

/// Default number of ticks between automatic fall steps.
pub const INITIAL_DROP_FRAMES: i64 = 48;

/// Row of the cursor right after a piece spawns.
pub const INITIAL_MONO_ROW: usize = 20;

/// Column of the cursor right after a piece spawns.
pub const INITIAL_MONO_COL: usize = 5;

/// Rows of padding around the playable area: two wall rows at the bottom
/// and a matching free margin at the top.
pub const HEIGHT_PADDING: usize = 4;

/// Columns of padding around the playable area: two wall columns on each side.
pub const WIDTH_PADDING: usize = 4;

/// Total number of grid rows, padding included.
pub const HEIGHT_WITH_PADDING: usize = MAX_HEIGHT + HEIGHT_PADDING;

/// Total number of grid columns, padding included.
pub const WIDTH_WITH_PADDING: usize = MAX_WIDTH + WIDTH_PADDING;

/// Phase of the enclosing application; the core only reports which phase
/// should come next, it never switches phases itself.
#[derive(Debug, Clone, Copy, Eq, PartialEq, Hash, Default)]
pub enum AppState {
    #[default]
    Menu,
    InGame,
}

} // verus!
