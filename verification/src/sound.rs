//! Playback status of a sound source.

use vstd::prelude::*;

verus! {

/// The playback states a sound source can be in.
#[derive(Debug, Clone, Copy, PartialEq, Eq, Structural)]
pub enum SoundStatus {
    Stopped,
    Paused,
    Playing,
}

} // verus!
