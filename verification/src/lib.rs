//! Simulation core of a falling-block puzzle game.
//!
//! The crate owns the playfield grid, the active piece, the piece-supply
//! queue and the gravity timer, and decides every state transition:
//! movement legality, rotation with positional correction, locking, line
//! clearing and game-over detection.  Rendering, input translation and
//! scheduling are left to the embedding application.

pub mod config;
pub mod counter;
pub mod tetrimono;
pub mod tetris;
pub mod lines;
pub mod queue;
pub mod engine;
