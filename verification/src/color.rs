//! RGBA colors with exact normalized channels.
//!
//! A channel is a rational in `[0, 1]`: integer byte channels become
//! `value / 255`, packed hex channels likewise. The host converts channels to
//! floating point when it uploads instance data.

use vstd::prelude::*;

use crate::frac::Frac;

verus! {

/// An RGBA color; each channel is an exact rational.
#[derive(Clone, Copy, Debug, PartialEq, Eq, Structural)]
pub struct Color {
    pub r: Frac,
    pub g: Frac,
    pub b: Frac,
    pub a: Frac,
}

impl Color {
    /// Well-formedness: every channel is a well-formed rational.
    pub open spec fn wf(self) -> bool {
        self.r.wf() && self.g.wf() && self.b.wf() && self.a.wf()
    }

    pub fn new(r: Frac, g: Frac, b: Frac, a: Frac) -> (c: Color)
        ensures
            c == (Color { r, g, b, a }),
    {
        Color { r, g, b, a }
    }

    pub fn from_rgba(r: u8, g: u8, b: u8, a: u8) -> (c: Color)
        ensures
            c.r == (Frac { num: r as i128, den: 255 }),
            c.g == (Frac { num: g as i128, den: 255 }),
            c.b == (Frac { num: b as i128, den: 255 }),
            c.a == (Frac { num: a as i128, den: 255 }),
            c.wf(),
    {
        Color {
            r: Frac::new(r as i128, 255),
            g: Frac::new(g as i128, 255),
            b: Frac::new(b as i128, 255),
            a: Frac::new(a as i128, 255),
        }
    }

    pub fn from_rgb(r: u8, g: u8, b: u8) -> (c: Color)
        ensures
            c.r == (Frac { num: r as i128, den: 255 }),
            c.g == (Frac { num: g as i128, den: 255 }),
            c.b == (Frac { num: b as i128, den: 255 }),
            c.a == (Frac { num: 1, den: 1 }),
            c.wf(),
    {
        Color {
            r: Frac::new(r as i128, 255),
            g: Frac::new(g as i128, 255),
            b: Frac::new(b as i128, 255),
            a: Frac::one(),
        }
    }

    /// Format: 0xRRGGBB
    pub fn from_hex(value: u32) -> (c: Color)
        ensures
            c.r == (Frac { num: ((value >> 16) & 255) as i128, den: 255 }),
            c.g == (Frac { num: ((value >> 8) & 255) as i128, den: 255 }),
            c.b == (Frac { num: (value & 255) as i128, den: 255 }),
            c.a == (Frac { num: 1, den: 1 }),
            c.wf(),
    {
        Color {
            r: Frac::new(((value >> 16) & 255) as i128, 255),
            g: Frac::new(((value >> 8) & 255) as i128, 255),
            b: Frac::new((value & 255) as i128, 255),
            a: Frac::one(),
        }
    }

    /// Format: 0xRRGGBBAA
    pub fn from_hex_alpha(value: u32) -> (c: Color)
        ensures
            c.r == (Frac { num: ((value >> 24) & 255) as i128, den: 255 }),
            c.g == (Frac { num: ((value >> 16) & 255) as i128, den: 255 }),
            c.b == (Frac { num: ((value >> 8) & 255) as i128, den: 255 }),
            c.a == (Frac { num: (value & 255) as i128, den: 255 }),
            c.wf(),
    {
        Color {
            r: Frac::new(((value >> 24) & 255) as i128, 255),
            g: Frac::new(((value >> 16) & 255) as i128, 255),
            b: Frac::new(((value >> 8) & 255) as i128, 255),
            a: Frac::new((value & 255) as i128, 255),
        }
    }
}

} // verus!
