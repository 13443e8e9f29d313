//! The parsed beatmap model: hit objects, tempo markers, velocity markers,
//! the audio asset name and the global velocity multiplier.

use vstd::prelude::*;

use crate::circle::TaikoCircle;
use crate::frac::Frac;
use crate::time::Time;

verus! {

/// Bound on the magnitude of a velocity or tempo numerator.
pub const RATE_NUM_BOUND: i128 = 10_000_000_000_000_000_000_000_000;

/// Bound on a velocity or tempo denominator.
pub const RATE_DEN_BOUND: i128 = 1_000_000_000_000_000_000_000_000_000_000;

/// An uninherited tempo marker: beats per minute from this time on.
#[derive(Clone, Copy, PartialEq, Eq, Structural, Debug)]
pub struct TimingPoint {
    pub time: Time,
    pub bpm: Frac,
}

impl TimingPoint {
    pub open spec fn wf(self) -> bool {
        &&& self.time.wf()
        &&& self.bpm.wf()
        &&& -RATE_NUM_BOUND <= self.bpm.num <= RATE_NUM_BOUND
        &&& self.bpm.den <= RATE_DEN_BOUND
    }
}

/// An inherited marker: the spacing multiplier for objects from this time on.
#[derive(Clone, Copy, PartialEq, Eq, Structural, Debug)]
pub struct VelocityPoint {
    pub time: Time,
    pub velocity: Frac,
}

impl VelocityPoint {
    pub open spec fn wf(self) -> bool {
        &&& self.time.wf()
        &&& self.velocity.wf()
        &&& self.velocity.num != 0
        &&& -RATE_NUM_BOUND <= self.velocity.num <= RATE_NUM_BOUND
        &&& self.velocity.den <= RATE_DEN_BOUND
    }
}

/// A sequence of objects is sorted when times never decrease.
pub open spec fn objects_sorted(s: Seq<TaikoCircle>) -> bool {
    forall|i: int, j: int| 0 <= i <= j < s.len() ==> s[i].time@ <= s[j].time@
}

pub open spec fn timing_sorted(s: Seq<TimingPoint>) -> bool {
    forall|i: int, j: int| 0 <= i <= j < s.len() ==> s[i].time@ <= s[j].time@
}

pub open spec fn velocity_sorted(s: Seq<VelocityPoint>) -> bool {
    forall|i: int, j: int| 0 <= i <= j < s.len() ==> s[i].time@ <= s[j].time@
}

pub open spec fn objects_wf(s: Seq<TaikoCircle>) -> bool {
    forall|i: int| 0 <= i < s.len() ==> (#[trigger] s[i]).wf()
}

pub open spec fn timing_wf(s: Seq<TimingPoint>) -> bool {
    forall|i: int| 0 <= i < s.len() ==> (#[trigger] s[i]).wf()
}

pub open spec fn velocity_wf(s: Seq<VelocityPoint>) -> bool {
    forall|i: int| 0 <= i < s.len() ==> (#[trigger] s[i]).wf()
}

/// Appending an object no earlier than the last keeps the order.
pub proof fn lemma_objects_sorted_push(s: Seq<TaikoCircle>, c: TaikoCircle)
    requires
        objects_sorted(s),
        s.len() == 0 || s.last().time@ <= c.time@,
    ensures
        objects_sorted(s.push(c)),
{
    assert forall|i: int, j: int| 0 <= i <= j < s.push(c).len() implies s.push(c)[i].time@ <= s.push(
        c,
    )[j].time@ by {
        if j == s.len() {
            if i < s.len() {
                assert(s[i].time@ <= s[s.len() - 1].time@);
            }
        }
    }
}

/// Appending a tempo marker no earlier than the last keeps the order.
pub proof fn lemma_timing_sorted_push(s: Seq<TimingPoint>, c: TimingPoint)
    requires
        timing_sorted(s),
        s.len() == 0 || s.last().time@ <= c.time@,
    ensures
        timing_sorted(s.push(c)),
{
    assert forall|i: int, j: int| 0 <= i <= j < s.push(c).len() implies s.push(c)[i].time@ <= s.push(
        c,
    )[j].time@ by {
        if j == s.len() {
            if i < s.len() {
                assert(s[i].time@ <= s[s.len() - 1].time@);
            }
        }
    }
}

/// Appending a velocity marker no earlier than the last keeps the order.
pub proof fn lemma_velocity_sorted_push(s: Seq<VelocityPoint>, c: VelocityPoint)
    requires
        velocity_sorted(s),
        s.len() == 0 || s.last().time@ <= c.time@,
    ensures
        velocity_sorted(s.push(c)),
{
    assert forall|i: int, j: int| 0 <= i <= j < s.push(c).len() implies s.push(c)[i].time@ <= s.push(
        c,
    )[j].time@ by {
        if j == s.len() {
            if i < s.len() {
                assert(s[i].time@ <= s[s.len() - 1].time@);
            }
        }
    }
}

/// A parsed beatmap.
pub struct Beatmap {
    /// Hit circles, ordered by non-decreasing time.
    pub objects: Vec<TaikoCircle>,
    /// Tempo markers, ordered by non-decreasing time.
    pub timing: Vec<TimingPoint>,
    /// Velocity markers, ordered by non-decreasing time; never empty.
    pub velocity: Vec<VelocityPoint>,
    /// Global spacing multiplier; currently always one.
    pub velocity_multiplier: Frac,
    /// Name of the audio asset inside the archive, as raw bytes.
    pub audio: Vec<u8>,
}

impl Beatmap {
    /// The invariants every parsed beatmap satisfies.
    pub open spec fn wf(self) -> bool {
        &&& objects_sorted(self.objects@)
        &&& timing_sorted(self.timing@)
        &&& velocity_sorted(self.velocity@)
        &&& self.velocity@.len() >= 1
        &&& objects_wf(self.objects@)
        &&& timing_wf(self.timing@)
        &&& velocity_wf(self.velocity@)
        &&& self.velocity_multiplier.wf()
        &&& -1_000_000_000 <= self.velocity_multiplier.num <= 1_000_000_000
        &&& self.velocity_multiplier.den <= 1_000_000_000
    }
}

} // verus!
