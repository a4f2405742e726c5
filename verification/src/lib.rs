//! Core engine of a terminal falling-block puzzle game: the piece and its
//! rotation group, the shape table and coordinate transform, the board with
//! collision, locking, line-clear and scoring rules, and the game state
//! machine.  Rendering, keyboard input and timing live outside this crate.

pub mod frame;
pub mod game;
pub mod interface;
pub mod tetris;
