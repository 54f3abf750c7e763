use vstd::prelude::*;

verus! {

/// A sound effect, named by its position in the game's list of sound files.
#[derive(Clone, Copy, Debug, PartialEq, Eq, Structural)]
pub struct Sound {
    pub id: u32,
}

/// A music track, named by its position in the game's list of music files.
#[derive(Clone, Copy, Debug, PartialEq, Eq, Structural)]
pub struct Music {
    pub id: u32,
}

/// A call to make on the host's audio player.
#[derive(Clone, Copy, Debug, PartialEq, Eq, Structural)]
pub enum AudioRequest {
    /// `audio.play_sound(id)`
    PlaySound(u32),
    /// `audio.play_music(id)`
    PlayMusic(u32),
}

impl Sound {
    /// The request that plays this sound effect once.
    pub fn play(&self) -> (r: AudioRequest)
        ensures
            r == AudioRequest::PlaySound(self.id),
    {
        AudioRequest::PlaySound(self.id)
    }
}

impl Music {
    /// The request that plays this music track.
    pub fn play(&self) -> (r: AudioRequest)
        ensures
            r == AudioRequest::PlayMusic(self.id),
    {
        AudioRequest::PlayMusic(self.id)
    }
}

} // verus!
