//! The conveyor's instance stream and cull cursor.
//!
//! The renderer host owns pipelines and buffers; this module owns what they
//! display: the baked per-circle instances, rebuilt in bulk from the beatmap
//! and the presentation state, and the monotone cursor that trims circles
//! whose time has passed. `draw` returns the exact frame plan — uniforms and
//! draw count — that the host uploads and submits.

use vstd::prelude::*;

use crate::beatmap::velocity_sorted;
use crate::beatmap::Beatmap;
use crate::beatmap::VelocityPoint;
use crate::circle::TaikoCircle;
use crate::circle::TaikoColor;
use crate::frac::lemma_mul_bound;
use crate::frac::Frac;
use crate::model::TaikoHitObjectModel;
use crate::model::Vec2;
use crate::state::state_frac_ok;
use crate::state::TaikoState;
use crate::time::round_half_even;

verus! {

/// Index of the velocity segment governing time `t`: the largest `k` with
/// `vel[k].time <= t`, or 0 when every marker is later.
pub open spec fn seg_index(vel: Seq<VelocityPoint>, t: int) -> int
    decreases vel.len(),
{
    if vel.len() <= 1 {
        0
    } else if vel.last().time@ <= t {
        vel.len() - 1
    } else {
        seg_index(vel.drop_last(), t)
    }
}

/// `seg_index` lands in range, below every later marker, and above every
/// marker at or before `t`.
pub proof fn lemma_seg_index_props(vel: Seq<VelocityPoint>, t: int)
    requires
        vel.len() >= 1,
        velocity_sorted(vel),
    ensures
        0 <= seg_index(vel, t) < vel.len(),
        vel[seg_index(vel, t)].time@ <= t || seg_index(vel, t) == 0,
        forall|j: int| seg_index(vel, t) < j < vel.len() ==> vel[j].time@ > t,
        forall|j: int| 0 <= j < vel.len() && vel[j].time@ <= t ==> j <= seg_index(vel, t),
    decreases vel.len(),
{
    if vel.len() > 1 && !(vel.last().time@ <= t) {
        assert(velocity_sorted(vel.drop_last())) by {
            assert(forall|i: int|
                0 <= i < vel.drop_last().len() ==> vel.drop_last()[i] == vel[i]);
        }
        lemma_seg_index_props(vel.drop_last(), t);
        assert(forall|i: int| 0 <= i < vel.drop_last().len() ==> vel.drop_last()[i] == vel[i]);
    }
}

/// A later time never selects an earlier segment.
pub proof fn lemma_seg_index_monotone(vel: Seq<VelocityPoint>, t1: int, t2: int)
    requires
        vel.len() >= 1,
        velocity_sorted(vel),
        t1 <= t2,
    ensures
        seg_index(vel, t1) <= seg_index(vel, t2),
{
    let k1 = seg_index(vel, t1);
    let k2 = seg_index(vel, t2);
    lemma_seg_index_props(vel, t1);
    lemma_seg_index_props(vel, t2);
    if k1 > k2 {
        assert(vel[k1].time@ <= t1);
        assert(vel[k1].time@ > t2);
        assert(false);
    }
}

/// The base quad size in pixels: 128, times 1.55 for a finisher.
pub open spec fn base_size(big: bool) -> Frac {
    if big {
        Frac { num: 1984, den: 10 }
    } else {
        Frac { num: 128, den: 1 }
    }
}

/// The instance record derived from one circle governed by velocity `v`:
/// the temporal offset is the circle's milliseconds scaled by zoom and the
/// global multiplier; the width is the base size divided by `v`; the tint is
/// the DON color exactly for DON circles.
pub open spec fn instance_of(obj: TaikoCircle, v: Frac, state: TaikoState, vm: Frac)
    -> TaikoHitObjectModel {
    TaikoHitObjectModel {
        time: Frac::spec_mul(
            Frac::spec_mul(
                Frac { num: round_half_even(obj.time@, 1000) as i128, den: 1 },
                state.zoom,
            ),
            vm,
        ),
        size: Vec2 { x: Frac::spec_div(base_size(obj.big), v), y: base_size(obj.big) },
        color: if obj.color == TaikoColor::DON {
            state.don_color
        } else {
            state.kat_color
        },
        finisher: obj.big,
        velocity: v,
    }
}

/// The velocity governing object `j` of the beatmap.
pub open spec fn seg_velocity(bm: Beatmap, j: int) -> Frac {
    bm.velocity@[seg_index(bm.velocity@, bm.objects@[j].time@)].velocity
}

/// The full instance stream: one record per circle, latest circles first.
pub open spec fn build_spec(state: TaikoState, bm: Beatmap) -> Seq<TaikoHitObjectModel> {
    Seq::new(
        bm.objects@.len(),
        |i: int|
            instance_of(
                bm.objects@[bm.objects@.len() - 1 - i],
                seg_velocity(bm, bm.objects@.len() - 1 - i),
                state,
                bm.velocity_multiplier,
            ),
    )
}

/// The object at `j` has scrolled past the hit position at `now_ms`.
pub open spec fn object_passed(bm: Beatmap, state: TaikoState, now_ms: int, j: int) -> bool {
    round_half_even(bm.objects@[j].time@, 1000) + state.audio_offset <= now_ms
}

/// The circle behind instance `j` has passed. Instances run latest first, so
/// instance `j` is object `len - 1 - j`: the cursor trims from the high-time
/// end, and nothing culls until the latest circle has passed.
pub open spec fn instance_passed(bm: Beatmap, state: TaikoState, now_ms: int, j: int) -> bool {
    object_passed(bm, state, now_ms, bm.objects@.len() - 1 - j)
}

/// One frame's cull advance: the cursor moves forward exactly over objects
/// that have passed and stops at the first that has not.
pub open spec fn cull_advanced(
    bm: Beatmap,
    state: TaikoState,
    now_ms: int,
    before: Conveyor,
    after: Conveyor,
) -> bool {
    &&& after.circle_instances == before.circle_instances
    &&& before.cull_back <= after.cull_back <= after.circle_instances@.len()
    &&& forall|j: int|
        before.cull_back <= j < after.cull_back ==> instance_passed(bm, state, now_ms, j)
    &&& after.cull_back < after.circle_instances@.len() ==> !instance_passed(
        bm,
        state,
        now_ms,
        after.cull_back as int,
    )
}

/// Cull monotonicity: across successive frames with non-decreasing time the
/// cursor never moves back. A seek resets it to zero (`set_time`), so the
/// frame after a rewind starts from the front again.
pub proof fn lemma_cull_monotone(
    bm: Beatmap,
    state: TaikoState,
    now1: int,
    now2: int,
    c0: Conveyor,
    c1: Conveyor,
    c2: Conveyor,
)
    requires
        cull_advanced(bm, state, now1, c0, c1),
        cull_advanced(bm, state, now2, c1, c2),
        now1 <= now2,
    ensures
        c0.cull_back <= c1.cull_back <= c2.cull_back,
{
}

/// Velocity lookup: every instance carries the velocity of the latest marker
/// at or before its circle's time. When such a marker exists it is the
/// unique largest one; when every marker is later, marker 0 applies.
pub proof fn lemma_velocity_lookup(state: TaikoState, bm: Beatmap, i: int)
    requires
        bm.wf(),
        0 <= i < bm.objects@.len(),
    ensures
        ({
            let obj = bm.objects@[bm.objects@.len() - 1 - i];
            let k = seg_index(bm.velocity@, obj.time@);
            &&& 0 <= k < bm.velocity@.len()
            &&& build_spec(state, bm)[i].velocity == bm.velocity@[k].velocity
            &&& bm.velocity@[0].time@ <= obj.time@ ==> bm.velocity@[k].time@ <= obj.time@
            &&& forall|j: int|
                0 <= j < bm.velocity@.len() && bm.velocity@[j].time@ <= obj.time@ ==> j <= k
            &&& obj.time@ < bm.velocity@[0].time@ ==> k == 0
        }),
{
    let obj = bm.objects@[bm.objects@.len() - 1 - i];
    lemma_seg_index_props(bm.velocity@, obj.time@);
    let k = seg_index(bm.velocity@, obj.time@);
    if obj.time@ < bm.velocity@[0].time@ {
        if k != 0 {
            assert(bm.velocity@[0].time@ <= bm.velocity@[k].time@);
        }
    }
}

/// Rebuild idempotence: the instance stream is a function of the beatmap and
/// the presentation state alone, so two rebuilds from identical inputs yield
/// identical streams.
pub proof fn lemma_rebuild_idempotent(c1: Conveyor, c2: Conveyor, state: TaikoState, bm: Beatmap)
    requires
        c1.circle_instances@ == build_spec(state, bm),
        c2.circle_instances@ == build_spec(state, bm),
    ensures
        c1.circle_instances@ == c2.circle_instances@,
{
}

/// Color mapping: an instance is tinted with the DON color exactly when its
/// source circle is DON, otherwise with the KAT color; when the two tints
/// differ, carrying the DON color characterizes DON circles.
pub proof fn lemma_color_mapping(state: TaikoState, bm: Beatmap, i: int)
    requires
        bm.wf(),
        0 <= i < bm.objects@.len(),
    ensures
        ({
            let obj = bm.objects@[bm.objects@.len() - 1 - i];
            build_spec(state, bm)[i].color == (if obj.color == TaikoColor::DON {
                state.don_color
            } else {
                state.kat_color
            })
        }),
        state.don_color != state.kat_color ==> ({
            let obj = bm.objects@[bm.objects@.len() - 1 - i];
            build_spec(state, bm)[i].color == state.don_color <==> obj.color == TaikoColor::DON
        }),
{
}

/// Size mapping: an instance's height is the base size (128, or 128 times
/// 1.55 for a finisher) and its width is exactly that base divided by the
/// segment velocity: width times velocity equals the base, as rationals.
pub proof fn lemma_size_mapping(state: TaikoState, bm: Beatmap, i: int)
    requires
        bm.wf(),
        0 <= i < bm.objects@.len(),
    ensures
        ({
            let obj = bm.objects@[bm.objects@.len() - 1 - i];
            let v = seg_velocity(bm, bm.objects@.len() - 1 - i);
            let inst = build_spec(state, bm)[i];
            &&& inst.size.y == base_size(obj.big)
            &&& inst.size.x == Frac::spec_div(base_size(obj.big), v)
            &&& inst.size.x.num * v.num * base_size(obj.big).den == base_size(obj.big).num
                * inst.size.x.den * v.den
        }),
{
    let obj = bm.objects@[bm.objects@.len() - 1 - i];
    let v = seg_velocity(bm, bm.objects@.len() - 1 - i);
    let inst = build_spec(state, bm)[i];
    lemma_seg_index_props(bm.velocity@, obj.time@);
    assert(v.wf() && v.num != 0);
    let b = base_size(obj.big);
    let x = Frac::spec_div(b, v);
    assert(1 <= b.num <= 1984 && 1 <= b.den <= 10);
    assert(-crate::beatmap::RATE_NUM_BOUND <= v.num <= crate::beatmap::RATE_NUM_BOUND && 0
        < v.den <= crate::beatmap::RATE_DEN_BOUND);
    crate::frac::lemma_mul_bound(b.num as int, v.den as int, 1984, crate::beatmap::RATE_DEN_BOUND as int);
    crate::frac::lemma_mul_bound(b.den as int, v.num as int, 10, crate::beatmap::RATE_NUM_BOUND as int);
    if v.num >= 0 {
        assert(x.num == b.num * v.den && x.den == b.den * v.num);
        assert((b.num * v.den) * v.num * b.den == b.num * (b.den * v.num) * v.den)
            by (nonlinear_arith);
    } else {
        assert(x.num == -(b.num * v.den) && x.den == -(b.den * v.num));
        assert((-(b.num * v.den)) * v.num * b.den == b.num * (-(b.den * v.num)) * v.den)
            by (nonlinear_arith);
    }
}

/// The per-frame outputs the GPU host consumes: camera and time uniforms,
/// and how many trailing instances to draw.
#[derive(Clone, Copy, PartialEq, Eq, Structural, Debug)]
pub struct FramePlan {
    pub rebuilt: bool,
    pub cull_back: usize,
    pub draw_count: usize,
    pub camera_scale: Frac,
    pub camera_x: Frac,
    pub camera_y: Frac,
    pub time_offset: Frac,
}

/// The time uniform: `(-now + audio_offset) * zoom * velocity_multiplier`.
pub open spec fn time_offset_spec(state: TaikoState, vm: Frac, now_ms: int) -> Frac {
    Frac::spec_mul(
        Frac::spec_mul(Frac { num: (-now_ms + state.audio_offset) as i128, den: 1 }, state.zoom),
        vm,
    )
}

/// The conveyor's mutable drawing state.
pub struct Conveyor {
    /// Baked instances, latest circles first.
    pub circle_instances: Vec<TaikoHitObjectModel>,
    /// How many leading entries of the object list have already passed.
    pub cull_back: usize,
}

impl Conveyor {
    /// The cursor never leaves the instance stream.
    pub open spec fn wf(self) -> bool {
        self.cull_back <= self.circle_instances@.len()
    }

    pub fn new() -> (r: Conveyor)
        ensures
            r.circle_instances@.len() == 0,
            r.cull_back == 0,
            r.wf(),
    {
        Conveyor { circle_instances: Vec::new(), cull_back: 0 }
    }

    /// Clears and repopulates the instance stream, walking the objects in
    /// reverse while a cursor drops through the velocity markers.
    #[verifier::rlimit(60)]
    #[verifier::loop_isolation(false)]
    pub fn rebuild_instances_beatmap(&mut self, state: &TaikoState, beatmap: &Beatmap)
        requires
            state.wf(),
            beatmap.wf(),
        ensures
            final(self).circle_instances@ == build_spec(*state, *beatmap),
            final(self).circle_instances@.len() == beatmap.objects@.len(),
            final(self).cull_back == old(self).cull_back,
    {
        self.circle_instances.clear();
        let n = beatmap.objects.len();
        let ghost vel = beatmap.velocity@;
        let mut idx: usize = beatmap.velocity.len() - 1;
        let mut j: usize = n;
        while j > 0
        invariant
            j <= n,
            idx < vel.len(),
            j == n ==> idx == vel.len() - 1,
            j < n ==> idx == seg_index(vel, beatmap.objects@[j as int].time@),
            self.circle_instances@ =~= build_spec(*state, *beatmap).take(n - j),
            self.cull_back == old(self).cull_back,
        decreases j,
        {
            j = j - 1;
            let obj = beatmap.objects[j];
            proof {
                lemma_seg_index_props(vel, obj.time@);
                if j + 1 < n {
                    lemma_seg_index_monotone(vel, obj.time@, beatmap.objects@[j + 1].time@);
                }
            }
            while idx != 0 && beatmap.velocity[idx].time.as_us() > obj.time.as_us()
                invariant
                    seg_index(vel, obj.time@) <= idx < vel.len(),
                decreases idx,
            {
                proof {
                    if idx == seg_index(vel, obj.time@) {
                        assert(vel[idx as int].time@ <= obj.time@ || idx == 0);
                    }
                }
                idx = idx - 1;
            }
            proof {
                if idx != 0 {
                    assert(vel[idx as int].time@ <= obj.time@);
                    assert(idx <= seg_index(vel, obj.time@));
                }
                assert(idx == seg_index(vel, obj.time@));
            }
            let v = beatmap.velocity[idx].velocity;
            let ms = obj.time.to_ms();
            proof {
                lemma_mul_bound(ms as int, state.zoom.num as int, 1_000_000_000_002, 1_000_000_000);
                lemma_mul_bound(
                    ms as int * state.zoom.num as int,
                    beatmap.velocity_multiplier.num as int,
                    1_000_000_000_002_000_000_000,
                    1_000_000_000,
                );
                lemma_mul_bound(
                    state.zoom.den as int,
                    beatmap.velocity_multiplier.den as int,
                    1_000_000_000,
                    1_000_000_000,
                );
                lemma_mul_bound(
                    base_size(obj.big).num as int,
                    v.den as int,
                    1984,
                    crate::beatmap::RATE_DEN_BOUND as int,
                );
                lemma_mul_bound(
                    base_size(obj.big).den as int,
                    v.num as int,
                    10,
                    crate::beatmap::RATE_NUM_BOUND as int,
                );
            }
            let t0 = Frac::from_int(ms as i128);
            let t1 = t0.times(state.zoom);
            let time = t1.times(beatmap.velocity_multiplier);
            let base = if obj.big {
                Frac::new(1984, 10)
            } else {
                Frac::new(128, 1)
            };
            let size_x = base.div_by(v);
            let inst = TaikoHitObjectModel {
                time,
                size: Vec2 { x: size_x, y: base },
                color: if obj.color == TaikoColor::KAT {
                    state.kat_color
                } else {
                    state.don_color
                },
                finisher: obj.big,
                velocity: v,
            };
            self.circle_instances.push(inst);
            proof {
                let bs = build_spec(*state, *beatmap);
                assert(inst == bs[n - j - 1]);
                assert(bs.take(n - j) =~= bs.take(n - j - 1).push(bs[n - j - 1]));
            }
        }
        proof {
            assert(build_spec(*state, *beatmap).take(n as int) =~= build_spec(*state, *beatmap));
        }
    }

    /// Advances the cull cursor over every object that has already passed.
    #[verifier::loop_isolation(false)]
    pub fn advance_cull(&mut self, state: &TaikoState, beatmap: &Beatmap, time_ms: u32)
        requires
            state.wf(),
            beatmap.wf(),
            old(self).wf(),
            old(self).circle_instances@.len() <= beatmap.objects@.len(),
        ensures
            final(self).circle_instances == old(self).circle_instances,
            old(self).cull_back <= final(self).cull_back <= final(self).circle_instances@.len(),
            forall|j: int|
                old(self).cull_back <= j < final(self).cull_back ==> instance_passed(
                    *beatmap,
                    *state,
                    time_ms as int,
                    j,
                ),
            final(self).cull_back < final(self).circle_instances@.len() ==> !instance_passed(
                *beatmap,
                *state,
                time_ms as int,
                final(self).cull_back as int,
            ),
            cull_advanced(*beatmap, *state, time_ms as int, *old(self), *final(self)),
            final(self).wf(),
    {
        let n = self.circle_instances.len();
        let mut blocked = false;
        while !blocked && self.cull_back < n
            invariant
                old(self).cull_back <= self.cull_back <= n,
                self.circle_instances == old(self).circle_instances,
                forall|j: int|
                    old(self).cull_back <= j < self.cull_back ==> instance_passed(
                        *beatmap,
                        *state,
                        time_ms as int,
                        j,
                    ),
                blocked ==> self.cull_back < n && !instance_passed(
                    *beatmap,
                    *state,
                    time_ms as int,
                    self.cull_back as int,
                ),
            decreases n - self.cull_back + (if blocked { 0int } else { 1int }),
        {
            let obj = beatmap.objects[beatmap.objects.len() - 1 - self.cull_back];
            let ms = obj.time.to_ms();
            if ms + state.audio_offset <= time_ms as i64 {
                self.cull_back = self.cull_back + 1;
            } else {
                blocked = true;
            }
        }
    }

    /// One frame: optionally rebuild, advance the cull cursor while hit
    /// circles are shown, and report the uniforms and draw count.
    pub fn draw(
        &mut self,
        rebuild: bool,
        state: &TaikoState,
        beatmap: &Beatmap,
        time_ms: u32,
        device_scale: Frac,
    ) -> (plan: FramePlan)
        requires
            state.wf(),
            beatmap.wf(),
            old(self).wf(),
            state_frac_ok(device_scale),
            rebuild || old(self).circle_instances@.len() <= beatmap.objects@.len(),
            old(self).cull_back <= beatmap.objects@.len(),
        ensures
            rebuild ==> final(self).circle_instances@ == build_spec(*state, *beatmap),
            !rebuild ==> final(self).circle_instances == old(self).circle_instances,
            old(self).cull_back <= final(self).cull_back,
            !state.hit_circles ==> final(self).cull_back == old(self).cull_back,
            state.hit_circles ==> old(self).cull_back <= final(self).cull_back
                <= final(self).circle_instances@.len(),
            state.hit_circles ==> forall|j: int|
                old(self).cull_back <= j < final(self).cull_back ==> instance_passed(
                    *beatmap,
                    *state,
                    time_ms as int,
                    j,
                ),
            state.hit_circles && final(self).cull_back < final(self).circle_instances@.len()
                ==> !instance_passed(*beatmap, *state, time_ms as int, final(self).cull_back as int),
            final(self).wf(),
            plan.rebuilt == rebuild,
            plan.cull_back == final(self).cull_back,
            plan.draw_count == final(self).circle_instances@.len() - final(self).cull_back,
            plan.camera_scale == Frac::spec_mul(device_scale, state.scale),
            plan.camera_x == state.hit_position.x,
            plan.camera_y == state.hit_position.y,
            plan.time_offset == time_offset_spec(*state, beatmap.velocity_multiplier, time_ms as int),
    {
        if rebuild {
            self.rebuild_instances_beatmap(state, beatmap);
        }
        if state.hit_circles {
            self.advance_cull(state, beatmap, time_ms);
        }
        proof {
            lemma_mul_bound(
                device_scale.num as int,
                state.scale.num as int,
                1_000_000_000,
                1_000_000_000,
            );
            lemma_mul_bound(
                device_scale.den as int,
                state.scale.den as int,
                1_000_000_000,
                1_000_000_000,
            );
        }
        let scale = device_scale.times(state.scale);
        let t: i64 = -(time_ms as i64) + state.audio_offset;
        proof {
            lemma_mul_bound(t as int, state.zoom.num as int, 1_100_000_000_000, 1_000_000_000);
            lemma_mul_bound(
                t as int * state.zoom.num as int,
                beatmap.velocity_multiplier.num as int,
                1_100_000_000_000_000_000_000,
                1_000_000_000,
            );
            lemma_mul_bound(
                state.zoom.den as int,
                beatmap.velocity_multiplier.den as int,
                1_000_000_000,
                1_000_000_000,
            );
        }
        let time_offset = Frac::from_int(t as i128).times(state.zoom).times(
            beatmap.velocity_multiplier,
        );
        let draw_count = self.circle_instances.len() - self.cull_back;
        FramePlan {
            rebuilt: rebuild,
            cull_back: self.cull_back,
            draw_count,
            camera_scale: scale,
            camera_x: state.hit_position.x,
            camera_y: state.hit_position.y,
            time_offset,
        }
    }
}

} // verus!
