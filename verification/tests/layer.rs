use apex::beatmap::Beatmap;
use apex::beatmap::VelocityPoint;
use apex::circle::TaikoCircle;
use apex::circle::TaikoColor;
use apex::frac::Frac;
use apex::layer::TaikoLayer;
use apex::state::TaikoState;
use apex::time::Time;

fn small_beatmap() -> Beatmap {
    Beatmap {
        objects: vec![
            TaikoCircle { time: Time::from_ms(100), big: false, color: TaikoColor::DON },
            TaikoCircle { time: Time::from_ms(600), big: true, color: TaikoColor::KAT },
        ],
        timing: vec![],
        velocity: vec![VelocityPoint { time: Time::from_ms(0), velocity: Frac::from_int(1) }],
        velocity_multiplier: Frac::one(),
        audio: b"a.mp3".to_vec(),
    }
}

#[test]
fn pause_resume_at_end_of_track() {
    let mut layer = TaikoLayer::new();
    let mut state = TaikoState::new();
    layer.load_beatmap(&mut state, small_beatmap(), 5000);
    // playback running
    let a = layer.set_paused(false, 0);
    assert_eq!(a.set_paused, Some(false));
    assert!(!layer.is_paused());
    // the audio reports the end of the track
    let a = layer.toggle_paused(5000);
    assert!(layer.is_paused());
    assert_eq!(layer.get_time().to_ms(), 0);
    assert_eq!(a.seek_ms, Some(0));
    assert_eq!(a.set_paused, Some(true));
}

#[test]
fn toggle_before_end_keeps_position() {
    let mut layer = TaikoLayer::new();
    let mut state = TaikoState::new();
    layer.load_beatmap(&mut state, small_beatmap(), 5000);
    let a = layer.toggle_paused(1234);
    assert!(!layer.is_paused());
    assert_eq!(layer.get_time().to_ms(), 1234);
    assert_eq!(a.seek_ms, None);
    assert_eq!(a.set_paused, Some(false));
}

#[test]
fn rewind_resets_cull() {
    let mut layer = TaikoLayer::new();
    let mut state = TaikoState::new();
    state.audio_offset = 0;
    layer.load_beatmap(&mut state, small_beatmap(), 5000);
    layer.set_paused(false, 0);
    let plan = layer.draw(&mut state, 5000, Frac::one()).expect("beatmap is loaded");
    assert!(plan.rebuilt);
    assert_eq!(plan.cull_back, 2);
    // rewind
    let a = layer.set_time(0);
    assert_eq!(a.seek_ms, Some(0));
    let plan = layer.draw(&mut state, 0, Frac::one()).expect("beatmap is loaded");
    assert_eq!(plan.cull_back, 0);
    assert_eq!(plan.draw_count, 2);
}

#[test]
fn rebuild_trigger_consumes_flag_and_rescales() {
    let mut layer = TaikoLayer::new();
    let mut state = TaikoState::new();
    layer.load_beatmap(&mut state, small_beatmap(), 5000);
    assert!(state.rebuild_pending);
    let plan = layer.draw(&mut state, 0, Frac::one()).expect("beatmap is loaded");
    assert!(plan.rebuilt);
    assert!(!state.rebuild_pending);
    assert_eq!(layer.conveyor.circle_instances[0].time, Frac { num: 600, den: 1 });

    // mutating zoom requests a rebuild; the next draw consumes it and the
    // instance stream reflects time * new zoom
    state.set_zoom(Frac { num: 2, den: 1 });
    assert!(state.rebuild_pending);
    let plan = layer.draw(&mut state, 0, Frac::one()).expect("beatmap is loaded");
    assert!(plan.rebuilt);
    assert!(!state.rebuild_pending);
    assert_eq!(layer.conveyor.circle_instances[0].time, Frac { num: 1200, den: 1 });
    assert_eq!(layer.conveyor.circle_instances[1].time, Frac { num: 200, den: 1 });

    // without a pending rebuild the next draw leaves the stream alone
    let plan = layer.draw(&mut state, 0, Frac::one()).expect("beatmap is loaded");
    assert!(!plan.rebuilt);
}

#[test]
fn close_beatmap_resets_everything() {
    let mut layer = TaikoLayer::new();
    let mut state = TaikoState::new();
    layer.load_beatmap(&mut state, small_beatmap(), 5000);
    layer.draw(&mut state, 0, Frac::one());
    let a = layer.close_beatmap();
    assert!(a.stop);
    assert_eq!(a.seek_ms, Some(0));
    assert!(layer.beatmap.is_none());
    assert!(layer.is_paused());
    assert_eq!(layer.get_length(), 0);
    assert_eq!(layer.conveyor.cull_back, 0);
    // without a beatmap nothing is drawn
    assert!(layer.draw(&mut state, 0, Frac::one()).is_none());
}

#[test]
fn paused_clock_ignores_audio_position() {
    let mut layer = TaikoLayer::new();
    let mut state = TaikoState::new();
    layer.load_beatmap(&mut state, small_beatmap(), 5000);
    assert!(layer.is_paused());
    layer.set_time(777);
    layer.draw(&mut state, 4000, Frac::one());
    assert_eq!(layer.get_time().to_ms(), 777);
    // unpaused, the audio position is the truth
    layer.set_paused(false, 777);
    layer.draw(&mut state, 4000, Frac::one());
    assert_eq!(layer.get_time().to_ms(), 4000);
}

#[test]
fn force_rebuild_rebuilds_every_frame() {
    let mut layer = TaikoLayer::new();
    let mut state = TaikoState::new();
    layer.load_beatmap(&mut state, small_beatmap(), 5000);
    layer.draw(&mut state, 0, Frac::one());
    state.force_rebuild = true;
    let plan = layer.draw(&mut state, 0, Frac::one()).expect("beatmap is loaded");
    assert!(plan.rebuilt);
    let plan = layer.draw(&mut state, 0, Frac::one()).expect("beatmap is loaded");
    assert!(plan.rebuilt);
}
