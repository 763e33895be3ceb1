//! Rules engine for a two-player wall-and-pawn racing game on a 9x9 board.
//!
//! Each player races a pawn to the opposite edge while both may spend a
//! limited stock of walls to block the other, subject to the rule that no
//! wall may ever cut a player off from their goal edge entirely.  The crate
//! holds the board model, the move and wall validators, the reachability
//! checker that enforces the no-trap rule, the turn state machine, and the
//! single-level snapshot used for rollback and undo.  Rendering, input
//! polling and audio are left to the caller, which drives the engine with
//! plain per-tick values.

pub mod align;
pub mod board;
pub mod color;
pub mod dfs;
pub mod error;
pub mod game;
pub mod global;
pub mod player;
pub mod sound;
