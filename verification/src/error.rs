//! Why an action was rejected, and the holder for a fatal error message.

use vstd::prelude::*;

verus! {

/// Why the engine rejected a requested action.  Every variant is
/// recoverable: the game state is left exactly as it was (for
/// `TrapViolation`, restored from the snapshot taken for the attempt).
#[derive(Clone, Copy, PartialEq, Eq, Structural, Debug)]
pub enum ActionError {
    /// The destination cell is not among the mover's legal moves.
    InvalidMove,
    /// The acting player has no walls left to place.
    NoWallsRemaining,
    /// The wall would overlap another wall or cross one at its midpoint.
    IllegalWallPlacement,
    /// The wall would cut some player off from their goal edge.
    TrapViolation,
    /// The game has ended; only a restart may follow.
    GameAlreadyOver,
}

/// Carrier for the message of an unrecoverable internal failure, handed to
/// the presentation layer to display before the session ends.
pub struct ErrorHandler {
    pub message: String,
}

impl ErrorHandler {
    pub fn new(message: String) -> (h: ErrorHandler)
        ensures
            h.message@ == message@,
    {
        ErrorHandler { message }
    }
}

} // verus!
