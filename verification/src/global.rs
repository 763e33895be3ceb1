//! Messages the engine returns to its driver instead of touching any
//! process-wide state: quit requests, fatal errors, and asset or cursor
//! requests for the windowing layer.

use vstd::prelude::*;

verus! {

/// One request for the driving loop, returned as a plain value.
#[derive(Clone, PartialEq, Eq, Debug)]
pub enum EnvMessage {
    /// End the session.
    Quit,
    /// An unrecoverable internal failure with its message.
    Error(String),
    /// Load the image at the path into the texture slot with this index.
    LoadImage(String, usize),
    /// Load the sound at the path into the sound slot with this index.
    LoadSound(String, usize),
    ShowCursor(bool),
    GrabCursor(bool),
}

} // verus!
