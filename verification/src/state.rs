//! Presentation parameters the user mutates.
//!
//! Only `zoom` and the two tint colors require rebuilding the instance
//! stream; their setters raise `rebuild_pending` so the GUI host cannot
//! forget it. Everything else takes effect through per-frame uniforms.

use vstd::prelude::*;

use crate::color::Color;
use crate::frac::Frac;
use crate::model::Vec2;

verus! {

/// Bound on the numerator magnitude and denominator of user-set factors
/// (`scale`, `zoom`), so per-frame products stay exact.
pub const STATE_FRAC_BOUND: i128 = 1_000_000_000;

/// Bound on the audio offset magnitude, in milliseconds.
pub const AUDIO_OFFSET_BOUND: i64 = 1_000_000_000_000;

/// A user-set factor is well-formed and moderately sized.
pub open spec fn state_frac_ok(f: Frac) -> bool {
    &&& f.wf()
    &&& -STATE_FRAC_BOUND <= f.num <= STATE_FRAC_BOUND
    &&& f.den <= STATE_FRAC_BOUND
}

/// Presentation parameters of the taiko conveyor.
pub struct TaikoState {
    // Settings
    pub scale: Frac,
    /// Milliseconds the conveyor leads the audio.
    pub audio_offset: i64,
    pub hit_position: Vec2,
    pub zoom: Frac,
    pub don_color: Color,
    pub kat_color: Color,
    // Debug
    pub force_rebuild: bool,
    // Temporary
    pub hit_circles: bool,
    // Internal
    pub rebuild_pending: bool,
}

impl TaikoState {
    pub open spec fn wf(self) -> bool {
        &&& state_frac_ok(self.scale)
        &&& state_frac_ok(self.zoom)
        &&& -AUDIO_OFFSET_BOUND <= self.audio_offset <= AUDIO_OFFSET_BOUND
        &&& self.hit_position.x.wf()
        &&& self.hit_position.y.wf()
        &&& self.don_color.wf()
        &&& self.kat_color.wf()
    }

    pub fn new() -> (r: TaikoState)
        ensures
            r.scale == (Frac { num: 8, den: 10 }),
            r.audio_offset == 45,
            r.hit_position == (Vec2 { x: Frac { num: 256, den: 1 }, y: Frac { num: 256, den: 1 } }),
            r.zoom == (Frac { num: 1, den: 1 }),
            r.don_color == (Color {
                r: Frac { num: 973, den: 1000 },
                g: Frac { num: 596, den: 1000 },
                b: Frac { num: 651, den: 1000 },
                a: Frac { num: 1, den: 1 },
            }),
            r.kat_color == (Color {
                r: Frac { num: 741, den: 1000 },
                g: Frac { num: 698, den: 1000 },
                b: Frac { num: 827, den: 1000 },
                a: Frac { num: 1, den: 1 },
            }),
            r.force_rebuild == false,
            r.hit_circles == true,
            r.rebuild_pending == false,
            r.wf(),
    {
        TaikoState {
            scale: Frac::new(8, 10),
            audio_offset: 45,
            hit_position: Vec2 { x: Frac::from_int(256), y: Frac::from_int(256) },
            zoom: Frac::one(),
            don_color: Color::new(
                Frac::new(973, 1000),
                Frac::new(596, 1000),
                Frac::new(651, 1000),
                Frac::one(),
            ),
            kat_color: Color::new(
                Frac::new(741, 1000),
                Frac::new(698, 1000),
                Frac::new(827, 1000),
                Frac::one(),
            ),
            force_rebuild: false,
            hit_circles: true,
            rebuild_pending: false,
        }
    }

    /// Changes the zoom factor; the instance stream must be rebuilt.
    pub fn set_zoom(&mut self, zoom: Frac)
        requires
            state_frac_ok(zoom),
        ensures
            *final(self) == (TaikoState { zoom, rebuild_pending: true, ..*old(self) }),
    {
        self.zoom = zoom;
        self.rebuild_pending = true;
    }

    /// Changes the DON tint; the instance stream must be rebuilt.
    pub fn set_don_color(&mut self, color: Color)
        requires
            color.wf(),
        ensures
            *final(self) == (TaikoState { don_color: color, rebuild_pending: true, ..*old(self) }),
    {
        self.don_color = color;
        self.rebuild_pending = true;
    }

    /// Changes the KAT tint; the instance stream must be rebuilt.
    pub fn set_kat_color(&mut self, color: Color)
        requires
            color.wf(),
        ensures
            *final(self) == (TaikoState { kat_color: color, rebuild_pending: true, ..*old(self) }),
    {
        self.kat_color = color;
        self.rebuild_pending = true;
    }
}

} // verus!
