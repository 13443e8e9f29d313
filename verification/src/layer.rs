//! The taiko layer driver: owns the clock, the loaded beatmap and the
//! conveyor, and routes the host's events to them.
//!
//! The audio device itself lives with the host. Every operation the layer
//! needs done to the audio stream is returned as an `AudioAction` the host
//! carries out; the audio position the clock needs comes in as an argument.

use vstd::prelude::*;

use crate::beatmap::Beatmap;
use crate::clock::SyncClock;
use crate::conveyor::build_spec;
use crate::conveyor::instance_passed;
use crate::conveyor::time_offset_spec;
use crate::conveyor::Conveyor;
use crate::conveyor::FramePlan;
use crate::frac::Frac;
use crate::state::state_frac_ok;
use crate::state::TaikoState;
use crate::time::Time;

verus! {

/// Commands for the audio backend, performed by the host after a layer call.
#[derive(Clone, Copy, PartialEq, Eq, Structural, Debug)]
pub struct AudioAction {
    /// Mirror this paused state onto the audio stream.
    pub set_paused: Option<bool>,
    /// Seek the audio stream to this position, in milliseconds.
    pub seek_ms: Option<u32>,
    /// Stop and unload the audio stream.
    pub stop: bool,
}

/// The composition of clock, beatmap and conveyor.
pub struct TaikoLayer {
    pub clock: SyncClock,
    pub beatmap: Option<Beatmap>,
    pub conveyor: Conveyor,
}

impl TaikoLayer {
    /// While a beatmap is loaded the conveyor either still awaits its first
    /// rebuild or mirrors the beatmap's objects, and the cursor stays in
    /// range of both.
    pub open spec fn wf(self) -> bool {
        &&& self.conveyor.wf()
        &&& match self.beatmap {
            Option::Some(b) => b.wf() && (self.conveyor.circle_instances@.len() == 0
                || self.conveyor.circle_instances@.len() == b.objects@.len())
                && self.conveyor.cull_back <= b.objects@.len(),
            Option::None => true,
        }
    }

    pub fn new() -> (r: TaikoLayer)
        ensures
            r.clock == (SyncClock { time: 0, paused: true, length: 0 }),
            r.beatmap is None,
            r.conveyor.circle_instances@.len() == 0,
            r.conveyor.cull_back == 0,
            r.wf(),
    {
        TaikoLayer { clock: SyncClock::new(), beatmap: None, conveyor: Conveyor::new() }
    }

    /// Installs a parsed beatmap: the clock is pinned paused at zero with the
    /// track's length, the conveyor is emptied and its cursor reset, and a
    /// rebuild is requested.
    pub fn load_beatmap(&mut self, state: &mut TaikoState, beatmap: Beatmap, length_ms: u32)
        requires
            beatmap.wf(),
        ensures
            final(self).beatmap == Some(beatmap),
            final(self).clock == (SyncClock { time: 0, paused: true, length: length_ms }),
            final(self).conveyor.circle_instances@.len() == 0,
            final(self).conveyor.cull_back == 0,
            *final(state) == (TaikoState { rebuild_pending: true, ..*old(state) }),
            final(self).wf(),
    {
        self.clock.set_time(0);
        self.clock.set_paused(true, 0);
        self.clock.set_length(length_ms);
        self.conveyor.circle_instances.clear();
        self.conveyor.cull_back = 0;
        self.beatmap = Some(beatmap);
        state.rebuild_pending = true;
    }

    /// Unloads the beatmap and resets the clock; the host stops the audio
    /// stream and seeks it back to zero.
    pub fn close_beatmap(&mut self) -> (a: AudioAction)
        ensures
            final(self).clock == (SyncClock { time: 0, paused: true, length: 0 }),
            final(self).beatmap is None,
            final(self).conveyor.cull_back == 0,
            final(self).conveyor.circle_instances == old(self).conveyor.circle_instances,
            a == (AudioAction { set_paused: None, seek_ms: Some(0u32), stop: true }),
            final(self).wf(),
    {
        self.clock.set_time(0);
        self.clock.set_paused(true, 0);
        self.clock.set_length(0);
        self.conveyor.cull_back = 0;
        self.beatmap = None;
        AudioAction { set_paused: None, seek_ms: Some(0), stop: true }
    }

    /// Flips playback at the given audio position; past the end of the track
    /// the clock rewinds to zero and the host seeks the audio back as well.
    pub fn toggle_paused(&mut self, audio_now_ms: u32) -> (a: AudioAction)
        requires
            old(self).wf(),
        ensures
            final(self).clock.paused == !old(self).clock.paused,
            final(self).clock.length == old(self).clock.length,
            final(self).beatmap == old(self).beatmap,
            final(self).conveyor.circle_instances == old(self).conveyor.circle_instances,
            audio_now_ms >= old(self).clock.length ==> final(self).clock.time == 0 && final(self).conveyor.cull_back == 0 && a.seek_ms == Some(0u32),
            audio_now_ms < old(self).clock.length ==> final(self).clock.time == audio_now_ms
                && final(self).conveyor.cull_back == old(self).conveyor.cull_back && a.seek_ms
                is None,
            a.set_paused == Some(!old(self).clock.paused),
            a.stop == false,
            final(self).wf(),
    {
        self.clock.toggle_paused(audio_now_ms);
        let at_end = audio_now_ms >= self.clock.get_length();
        if at_end {
            self.clock.set_time(0);
            self.conveyor.cull_back = 0;
        }
        AudioAction {
            set_paused: Some(self.clock.is_paused()),
            seek_ms: if at_end {
                Some(0)
            } else {
                None
            },
            stop: false,
        }
    }

    /// Pins the clock to the given audio position with the given paused
    /// state; the host mirrors the state onto the audio stream.
    pub fn set_paused(&mut self, value: bool, audio_now_ms: u32) -> (a: AudioAction)
        requires
            old(self).wf(),
        ensures
            final(self).clock == (SyncClock {
                time: audio_now_ms,
                paused: value,
                length: old(self).clock.length,
            }),
            final(self).beatmap == old(self).beatmap,
            final(self).conveyor == old(self).conveyor,
            a == (AudioAction { set_paused: Some(value), seek_ms: None, stop: false }),
            final(self).wf(),
    {
        self.clock.set_paused(value, audio_now_ms);
        AudioAction { set_paused: Some(value), seek_ms: None, stop: false }
    }

    pub fn is_paused(&self) -> (r: bool)
        ensures
            r == self.clock.paused,
    {
        self.clock.is_paused()
    }

    /// Seeks the clock and resets the cull cursor; the host seeks the audio
    /// stream to the same position.
    pub fn set_time(&mut self, time_ms: u32) -> (a: AudioAction)
        requires
            old(self).wf(),
        ensures
            final(self).clock == (SyncClock {
                time: time_ms,
                paused: old(self).clock.paused,
                length: old(self).clock.length,
            }),
            final(self).beatmap == old(self).beatmap,
            final(self).conveyor.cull_back == 0,
            final(self).conveyor.circle_instances == old(self).conveyor.circle_instances,
            a == (AudioAction { set_paused: None, seek_ms: Some(time_ms), stop: false }),
            final(self).wf(),
    {
        self.clock.set_time(time_ms);
        self.conveyor.cull_back = 0;
        AudioAction { set_paused: None, seek_ms: Some(time_ms), stop: false }
    }

    pub fn get_time(&mut self) -> (r: Time)
        ensures
            *final(self) == *old(self),
            r@ == old(self).clock.time * 1000,
            r.wf(),
    {
        Time::from_ms(self.clock.get_time() as i64)
    }

    pub fn get_length(&self) -> (r: u32)
        ensures
            r == self.clock.length,
    {
        self.clock.get_length()
    }

    /// One frame: consume the rebuild flag, synchronize the clock to the
    /// audio position, and hand the conveyor's frame plan to the host.
    /// Without a loaded beatmap nothing is drawn (the flag is still
    /// consumed).
    pub fn draw(&mut self, state: &mut TaikoState, audio_now_ms: u32, device_scale: Frac) -> (r:
        Option<FramePlan>)
        requires
            old(state).wf(),
            state_frac_ok(device_scale),
            old(self).wf(),
        ensures
            *final(state) == (TaikoState { rebuild_pending: false, ..*old(state) }),
            final(self).wf(),
            final(self).beatmap == old(self).beatmap,
            old(self).conveyor.cull_back <= final(self).conveyor.cull_back,
            old(self).beatmap is None ==> r is None && *final(self) == *old(self),
            old(self).beatmap matches Some(b) ==> ({
                let rebuild = old(state).rebuild_pending || old(state).force_rebuild;
                let now = if old(self).clock.paused {
                    old(self).clock.time
                } else {
                    audio_now_ms
                };
                &&& final(self).clock == (SyncClock {
                    time: now,
                    paused: old(self).clock.paused,
                    length: old(self).clock.length,
                })
                &&& (rebuild ==> final(self).conveyor.circle_instances@ == build_spec(
                    *final(state),
                    b,
                ))
                &&& (!rebuild ==> final(self).conveyor.circle_instances == old(self).conveyor.circle_instances)
                &&& (!old(state).hit_circles ==> final(self).conveyor.cull_back == old(self).conveyor.cull_back)
                &&& (old(state).hit_circles ==> old(self).conveyor.cull_back <= final(self).conveyor.cull_back <= final(self).conveyor.circle_instances@.len() && (forall|
                    j: int,
                |
                    old(self).conveyor.cull_back <= j < final(self).conveyor.cull_back
                        ==> instance_passed(b, *final(state), now as int, j)) && (final(self).conveyor.cull_back < final(self).conveyor.circle_instances@.len()
                    ==> !instance_passed(
                    b,
                    *final(state),
                    now as int,
                    final(self).conveyor.cull_back as int,
                )))
                &&& r matches Some(plan) && plan.rebuilt == rebuild && plan.cull_back == final(self).conveyor.cull_back && plan.draw_count == final(self).conveyor.circle_instances@.len() - final(self).conveyor.cull_back
                    && plan.camera_scale == Frac::spec_mul(device_scale, old(state).scale)
                    && plan.camera_x == old(state).hit_position.x && plan.camera_y == old(state).hit_position.y && plan.time_offset == time_offset_spec(
                    *final(state),
                    b.velocity_multiplier,
                    now as int,
                )
            }),
    {
        let rebuild = state.rebuild_pending || state.force_rebuild;
        if state.rebuild_pending {
            state.rebuild_pending = false;
        }
        match &self.beatmap {
            None => None,
            Some(b) => {
                self.clock.advance_to(audio_now_ms);
                let time_ms = self.clock.get_time();
                let plan = self.conveyor.draw(rebuild, state, b, time_ms, device_scale);
                Some(plan)
            },
        }
    }
}

} // verus!
