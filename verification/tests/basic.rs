use apex::circle::TaikoCircle;
use apex::circle::TaikoColor;
use apex::clock::SyncClock;
use apex::color::Color;
use apex::config::Backend;
use apex::config::PowerPreference;
use apex::frac::Frac;
use apex::time::Time;
use apex::view::MenuView;
use apex::view::PanelSide;
use apex::view::SidebarState;
use apex::view::SidebarView;
use apex::view::TimelineWindow;

#[test]
fn time_ms_round_trip() {
    for x in [0i64, 1, 45, 200, 999, 1000, 123_456_789] {
        assert_eq!(Time::from_ms(x).to_ms(), x);
    }
    assert_eq!(Time::from_ms(-250).to_ms(), -250);
}

#[test]
fn time_projection_rounds_half_to_even() {
    assert_eq!(Time::from_us(2500).to_ms(), 2);
    assert_eq!(Time::from_us(3500).to_ms(), 4);
    assert_eq!(Time::from_us(2499).to_ms(), 2);
    assert_eq!(Time::from_us(2501).to_ms(), 3);
    assert_eq!(Time::from_us(-2500).to_ms(), -2);
    assert_eq!(Time::from_us(-3500).to_ms(), -4);
    assert_eq!(Time::from_seconds(2).to_ms(), 2000);
    assert_eq!(Time::from_us(1_500_000).to_seconds(), 2);
    assert_eq!(Time::from_us(2_500_000).to_seconds(), 2);
}

#[test]
fn time_arithmetic_is_exact() {
    let a = Time::from_ms(1500);
    let b = Time::from_ms(300);
    assert_eq!(a.add(b).to_ms(), 1800);
    assert_eq!(a.sub(b).to_ms(), 1200);
    assert_eq!(Time::zero().to_ms(), 0);
    assert_eq!(Time::default(), Time::zero());
}

#[test]
fn time_scaling_rounds_to_microseconds() {
    // products and quotients of second values
    assert_eq!(Time::from_seconds(2).mul(Time::from_seconds(3)), Time::from_seconds(6));
    assert_eq!(Time::from_ms(1500).mul(Time::from_ms(2000)), Time::from_seconds(3));
    assert_eq!(Time::from_seconds(6).div(Time::from_seconds(2)), Time::from_seconds(3));
    // 1/3 s rounds to the nearest microsecond
    assert_eq!(Time::from_ms(1000).div(Time::from_ms(3000)).as_us(), 333_333);
    assert_eq!(Time::from_ms(-1000).div(Time::from_ms(3000)).as_us(), -333_333);
}

#[test]
fn taiko_color_toggles() {
    let mut c = TaikoColor::default();
    assert_eq!(c, TaikoColor::KAT);
    c.toggle();
    assert_eq!(c, TaikoColor::DON);
    c.toggle();
    assert_eq!(c, TaikoColor::KAT);
    let circle = TaikoCircle::default();
    assert_eq!(circle.time, Time::zero());
    assert!(!circle.big);
    assert_eq!(circle.color, TaikoColor::KAT);
}

#[test]
fn color_constructors() {
    let c = Color::from_rgb(248, 152, 166);
    assert_eq!(c.r, Frac { num: 248, den: 255 });
    assert_eq!(c.g, Frac { num: 152, den: 255 });
    assert_eq!(c.b, Frac { num: 166, den: 255 });
    assert_eq!(c.a, Frac { num: 1, den: 1 });

    let c = Color::from_rgba(10, 20, 30, 40);
    assert_eq!(c.a, Frac { num: 40, den: 255 });

    let c = Color::from_hex(0x112233);
    assert_eq!(c.r, Frac { num: 0x11, den: 255 });
    assert_eq!(c.g, Frac { num: 0x22, den: 255 });
    assert_eq!(c.b, Frac { num: 0x33, den: 255 });
    assert_eq!(c.a, Frac { num: 1, den: 1 });

    let c = Color::from_hex_alpha(0x11223344);
    assert_eq!(c.r, Frac { num: 0x11, den: 255 });
    assert_eq!(c.g, Frac { num: 0x22, den: 255 });
    assert_eq!(c.b, Frac { num: 0x33, den: 255 });
    assert_eq!(c.a, Frac { num: 0x44, den: 255 });
}

#[test]
fn frac_arithmetic_is_exact() {
    let a = Frac::new(1984, 10);
    let b = Frac::from_int(2);
    assert_eq!(a.div_by(b), Frac { num: 1984, den: 20 });
    assert_eq!(a.times(b), Frac { num: 3968, den: 10 });
    let neg = Frac::new(-100, 1);
    let d = Frac::new(-50, 1);
    // -100 / -50 = 2, with the sign normalized into the numerator
    assert_eq!(neg.div_by(d), Frac { num: 100, den: 50 });
    assert_eq!(neg.negate(), Frac { num: 100, den: 1 });
    assert!(Frac::new(100, 50).eq_rational(Frac::from_int(2)));
}

#[test]
fn sync_clock_state_machine() {
    let mut c = SyncClock::new();
    assert!(c.is_paused());
    assert_eq!(c.get_time(), 0);
    assert_eq!(c.get_length(), 0);
    c.set_length(5000);
    c.set_time(100);
    assert_eq!(c.get_time(), 100);
    // paused: the audio position is ignored
    c.advance_to(2000);
    assert_eq!(c.get_time(), 100);
    c.toggle_paused(150);
    assert!(!c.is_paused());
    assert_eq!(c.get_time(), 150);
    // playing: the audio position is the truth
    c.advance_to(2000);
    assert_eq!(c.get_time(), 2000);
    c.set_paused(true, 2500);
    assert!(c.is_paused());
    assert_eq!(c.get_time(), 2500);
    assert_eq!(c.get_length(), 5000);
}

#[test]
fn view_state_defaults() {
    let s = SidebarState::new();
    assert!(!s.shown);
    assert_eq!(s.side, PanelSide::Right);
    let t = TimelineWindow::new();
    assert!(!t.was_playing);
    let _ = MenuView::new();
    let _ = SidebarView::new();
}

#[test]
fn archive_entry_naming() {
    assert!(apex::archive::is_beatmap_name(b"song.osu"));
    assert!(apex::archive::is_beatmap_name(b"a/b c.osu"));
    assert!(!apex::archive::is_beatmap_name(b"song.osu2"));
    assert!(!apex::archive::is_beatmap_name(b"song.OSU"));
    assert!(!apex::archive::is_beatmap_name(b"osu"));
    assert_eq!(apex::archive::audio_base_name(b"audio/track.mp3"), b"track.mp3");
    assert_eq!(apex::archive::audio_base_name(b"a\\b\\track.mp3"), b"track.mp3");
    assert_eq!(apex::archive::audio_base_name(b"track.mp3"), b"track.mp3");
    assert_eq!(apex::archive::audio_base_name(b"dir/"), b"");
    assert_eq!(apex::archive::audio_base_name(b""), b"");
}

#[test]
fn config_enums_compare() {
    assert_ne!(Backend::Auto, Backend::Vulkan);
    assert_eq!(Backend::Gl, Backend::Gl);
    assert_ne!(PowerPreference::Low, PowerPreference::High);
}
