//! Sound commands the engine may hand to an audio collaborator.  Playback
//! itself is outside the rules core; these are plain instructions.

use vstd::prelude::*;

verus! {

/// One instruction for the audio layer, naming a sound by its load index.
#[derive(Clone, Copy, PartialEq, Eq, Structural, Debug)]
pub enum SoundAction {
    /// Play once; a previous playback of the same sound stops.
    PlayOnce(usize),
    /// Start looping playback unless the sound is already looping.
    PlayLoop(usize),
    /// Stop a looping sound.
    Stop(usize),
    MuteAll,
    UnmuteAll,
    StopAll,
}

} // verus!
