use apex::beatmap::Beatmap;
use apex::beatmap::VelocityPoint;
use apex::circle::TaikoCircle;
use apex::circle::TaikoColor;
use apex::conveyor::Conveyor;
use apex::frac::Frac;
use apex::state::TaikoState;
use apex::time::Time;

fn segment_beatmap() -> Beatmap {
    // velocity [{0, 1.0}, {500, 2.0}], objects at 100 (DON, small) and
    // 600 (KAT, big)
    Beatmap {
        objects: vec![
            TaikoCircle { time: Time::from_ms(100), big: false, color: TaikoColor::DON },
            TaikoCircle { time: Time::from_ms(600), big: true, color: TaikoColor::KAT },
        ],
        timing: vec![],
        velocity: vec![
            VelocityPoint { time: Time::from_ms(0), velocity: Frac::from_int(1) },
            VelocityPoint { time: Time::from_ms(500), velocity: Frac::from_int(2) },
        ],
        velocity_multiplier: Frac::one(),
        audio: b"a.mp3".to_vec(),
    }
}

#[test]
fn instance_build_with_velocity_segments() {
    let bm = segment_beatmap();
    let mut state = TaikoState::new();
    let mut conveyor = Conveyor::new();
    conveyor.rebuild_instances_beatmap(&state, &bm);
    let inst = &conveyor.circle_instances;
    assert_eq!(inst.len(), 2);

    // reverse order: the 600 ms KAT finisher comes first
    assert_eq!(inst[0].time, Frac { num: 600, den: 1 });
    // size (128 * 1.55 / 2, 128 * 1.55) = (99.2, 198.4)
    assert_eq!(inst[0].size.x, Frac { num: 1984, den: 20 });
    assert_eq!(inst[0].size.y, Frac { num: 1984, den: 10 });
    assert_eq!(inst[0].color, state.kat_color);
    assert!(inst[0].finisher);
    assert_eq!(inst[0].velocity, Frac { num: 2, den: 1 });

    assert_eq!(inst[1].time, Frac { num: 100, den: 1 });
    // size (128 / 1, 128)
    assert_eq!(inst[1].size.x, Frac { num: 128, den: 1 });
    assert_eq!(inst[1].size.y, Frac { num: 128, den: 1 });
    assert_eq!(inst[1].color, state.don_color);
    assert!(!inst[1].finisher);
    assert_eq!(inst[1].velocity, Frac { num: 1, den: 1 });

    // rebuild idempotence: identical inputs, identical stream
    let mut conveyor2 = Conveyor::new();
    conveyor2.rebuild_instances_beatmap(&state, &bm);
    assert_eq!(conveyor.circle_instances, conveyor2.circle_instances);
    conveyor2.rebuild_instances_beatmap(&state, &bm);
    assert_eq!(conveyor.circle_instances, conveyor2.circle_instances);

    // a different zoom scales the temporal offsets
    state.set_zoom(Frac { num: 2, den: 1 });
    conveyor.rebuild_instances_beatmap(&state, &bm);
    assert_eq!(conveyor.circle_instances[0].time, Frac { num: 1200, den: 1 });
    assert_eq!(conveyor.circle_instances[1].time, Frac { num: 200, den: 1 });
}

#[test]
fn object_before_first_marker_takes_segment_zero() {
    let mut bm = segment_beatmap();
    bm.velocity = vec![
        VelocityPoint { time: Time::from_ms(400), velocity: Frac::from_int(3) },
        VelocityPoint { time: Time::from_ms(500), velocity: Frac::from_int(2) },
    ];
    let state = TaikoState::new();
    let mut conveyor = Conveyor::new();
    conveyor.rebuild_instances_beatmap(&state, &bm);
    // the 100 ms object lies before every marker: segment 0 applies
    assert_eq!(conveyor.circle_instances[1].velocity, Frac { num: 3, den: 1 });
    // the 600 ms object takes the 500 ms marker
    assert_eq!(conveyor.circle_instances[0].velocity, Frac { num: 2, den: 1 });
}

#[test]
fn cull_advance() {
    let bm = segment_beatmap();
    let mut state = TaikoState::new();
    state.audio_offset = 0;
    let mut conveyor = Conveyor::new();
    conveyor.rebuild_instances_beatmap(&state, &bm);

    conveyor.advance_cull(&state, &bm, 150);
    assert_eq!(conveyor.cull_back, 0);

    conveyor.advance_cull(&state, &bm, 700);
    assert_eq!(conveyor.cull_back, 2);
}

#[test]
fn cull_is_monotone_over_frames() {
    let bm = segment_beatmap();
    let mut state = TaikoState::new();
    state.audio_offset = 0;
    let mut conveyor = Conveyor::new();
    conveyor.rebuild_instances_beatmap(&state, &bm);
    let mut last = 0;
    for now in [0u32, 100, 300, 599, 600, 601, 700, 700] {
        conveyor.advance_cull(&state, &bm, now);
        assert!(conveyor.cull_back >= last);
        last = conveyor.cull_back;
    }
    assert_eq!(last, 2);
}

#[test]
fn audio_offset_shifts_culling() {
    let bm = segment_beatmap();
    let mut state = TaikoState::new();
    state.audio_offset = -200;
    let mut conveyor = Conveyor::new();
    conveyor.rebuild_instances_beatmap(&state, &bm);
    // latest circle at 600 passes only once 600 - 200 <= now
    conveyor.advance_cull(&state, &bm, 399);
    assert_eq!(conveyor.cull_back, 0);
    conveyor.advance_cull(&state, &bm, 400);
    assert_eq!(conveyor.cull_back, 2);
}

#[test]
fn draw_reports_plan() {
    let bm = segment_beatmap();
    let mut state = TaikoState::new();
    state.audio_offset = 0;
    let mut conveyor = Conveyor::new();
    let plan = conveyor.draw(true, &state, &bm, 650, Frac::one());
    assert!(plan.rebuilt);
    // once the latest circle (600 ms) has passed, every earlier one has too
    assert_eq!(plan.cull_back, 2);
    assert_eq!(plan.draw_count, 0);
    // camera scale = device scale * state scale = 1 * 0.8
    assert_eq!(plan.camera_scale, Frac { num: 8, den: 10 });
    assert_eq!(plan.camera_x, Frac { num: 256, den: 1 });
    assert_eq!(plan.camera_y, Frac { num: 256, den: 1 });
    // time offset = (-650 + 0) * 1 * 1
    assert_eq!(plan.time_offset, Frac { num: -650, den: 1 });
}
