//! Taiko hit circles.

use vstd::prelude::*;

use crate::time::Time;

verus! {

/// The two drum colors: `DON` is a center hit, `KAT` a rim hit.
#[derive(Clone, Copy, PartialEq, Eq, Structural, Debug)]
pub enum TaikoColor {
    KAT,
    DON,
}

impl TaikoColor {
    /// Flips between the two colors.
    pub fn toggle(&mut self)
        ensures
            *old(self) == TaikoColor::KAT ==> *final(self) == TaikoColor::DON,
            *old(self) == TaikoColor::DON ==> *final(self) == TaikoColor::KAT,
    {
        match self {
            TaikoColor::KAT => { *self = TaikoColor::DON; },
            TaikoColor::DON => { *self = TaikoColor::KAT; },
        }
    }
}

impl Default for TaikoColor {
    fn default() -> (r: TaikoColor)
        ensures
            r == TaikoColor::KAT,
    {
        TaikoColor::KAT
    }
}

/// A single note: its time, whether it is a finisher ("big"), and its color.
#[derive(Clone, Copy, PartialEq, Eq, Structural, Debug)]
pub struct TaikoCircle {
    pub time: Time,
    pub big: bool,
    pub color: TaikoColor,
}

impl TaikoCircle {
    pub open spec fn wf(self) -> bool {
        self.time.wf()
    }
}

impl Default for TaikoCircle {
    fn default() -> (r: TaikoCircle)
        ensures
            r.time@ == 0,
            r.big == false,
            r.color == TaikoColor::KAT,
    {
        TaikoCircle { time: Time::zero(), big: false, color: TaikoColor::KAT }
    }
}

} // verus!
