//! Per-circle instance records for the conveyor renderer.

use vstd::prelude::*;

use crate::color::Color;
use crate::frac::Frac;

verus! {

/// A two-component vector of exact rationals, in pixels.
#[derive(Clone, Copy, PartialEq, Eq, Structural, Debug)]
pub struct Vec2 {
    pub x: Frac,
    pub y: Frac,
}

/// One instance of the circle quad, as handed to the GPU host. `time` is the
/// circle's horizontal offset in pixels; `size` its quad size; `velocity` the
/// governing segment multiplier, passed through to the shader.
#[derive(Clone, Copy, PartialEq, Eq, Structural, Debug)]
pub struct TaikoHitObjectModel {
    pub time: Frac,
    pub size: Vec2,
    pub color: Color,
    pub finisher: bool,
    pub velocity: Frac,
}

} // verus!
