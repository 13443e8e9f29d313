//! The pausable, length-bounded playback clock.
//!
//! The clock never reads wall time: while playing, its "now" is the audio
//! position the host feeds it each frame, and pausing pins the last value.
//! Every operation's effect on the three fields is stated exactly.

use vstd::prelude::*;

verus! {

/// A millisecond clock loosely coupled to the audio backend.
#[derive(Clone, Copy, PartialEq, Eq, Structural, Debug)]
pub struct SyncClock {
    /// The current time in milliseconds: the audio position at the last
    /// synchronization, or wherever the clock was pinned or seeked.
    pub time: u32,
    pub paused: bool,
    /// Track length in milliseconds.
    pub length: u32,
}

impl SyncClock {
    /// A fresh clock: paused at zero with no track.
    pub fn new() -> (r: SyncClock)
        ensures
            r.time == 0,
            r.paused == true,
            r.length == 0,
    {
        SyncClock { time: 0, paused: true, length: 0 }
    }

    pub fn set_time(&mut self, ms: u32)
        ensures
            final(self).time == ms,
            final(self).paused == old(self).paused,
            final(self).length == old(self).length,
    {
        self.time = ms;
    }

    pub fn get_time(&self) -> (r: u32)
        ensures
            r == self.time,
    {
        self.time
    }

    /// Pins the clock to the given audio position and sets the paused state.
    pub fn set_paused(&mut self, paused: bool, now_ms: u32)
        ensures
            final(self).time == now_ms,
            final(self).paused == paused,
            final(self).length == old(self).length,
    {
        self.time = now_ms;
        self.paused = paused;
    }

    /// Pins the clock to the given audio position and flips the paused state.
    pub fn toggle_paused(&mut self, now_ms: u32)
        ensures
            final(self).time == now_ms,
            final(self).paused == !old(self).paused,
            final(self).length == old(self).length,
    {
        self.time = now_ms;
        self.paused = !self.paused;
    }

    pub fn is_paused(&self) -> (r: bool)
        ensures
            r == self.paused,
    {
        self.paused
    }

    pub fn set_length(&mut self, ms: u32)
        ensures
            final(self).time == old(self).time,
            final(self).paused == old(self).paused,
            final(self).length == ms,
    {
        self.length = ms;
    }

    pub fn get_length(&self) -> (r: u32)
        ensures
            r == self.length,
    {
        self.length
    }

    /// Per-frame synchronization: while playing, the audio position is the
    /// truth; while paused, the pinned time stands.
    pub fn advance_to(&mut self, audio_now_ms: u32)
        ensures
            old(self).paused ==> *final(self) == *old(self),
            !old(self).paused ==> final(self).time == audio_now_ms && final(self).paused
                == old(self).paused && final(self).length == old(self).length,
    {
        if !self.paused {
            self.time = audio_now_ms;
        }
    }
}

} // verus!
