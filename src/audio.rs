//! Categories of sounds, so that their collaborators can find and treat each
//! kind alike.

use vstd::prelude::*;

verus! {

/// Marks a sound in the music category (background music, soundtrack).
#[derive(Clone, Copy, Debug, Default, PartialEq, Eq, Structural)]
pub struct Music;

/// Marks a sound in the sound-effect category (footsteps, a throw, a hit).
#[derive(Clone, Copy, Debug, Default, PartialEq, Eq, Structural)]
pub struct SoundEffect;

} // verus!
