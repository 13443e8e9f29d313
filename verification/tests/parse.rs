use apex::beatmap::Beatmap;
use apex::circle::TaikoColor;
use apex::parser::try_parse;

fn parse_ok(data: &[u8]) -> Beatmap {
    try_parse(data).expect("beatmap should parse")
}

#[test]
fn parse_minimal_taiko_beatmap() {
    let data = b"osu file format v14\n\
[General]\n\
Mode:1\n\
AudioFilename: a.mp3\n\
[TimingPoints]\n\
0,500,4,2,0,100,1,0\n\
1000,-50,4,2,0,100,0,0\n\
[HitObjects]\n\
256,192,200,0,0\n\
256,192,800,0,4\n";
    let b = parse_ok(data);

    assert_eq!(b.objects.len(), 2);
    assert_eq!(b.objects[0].time.us, 200_000);
    assert!(!b.objects[0].big);
    assert_eq!(b.objects[0].color, TaikoColor::DON);
    assert_eq!(b.objects[1].time.us, 800_000);
    assert!(b.objects[1].big);
    assert_eq!(b.objects[1].color, TaikoColor::DON);

    assert_eq!(b.timing.len(), 1);
    assert_eq!(b.timing[0].time.us, 0);
    // bpm = 60 / (500 / 1000) = 120, held as 60000 / 500
    assert_eq!(b.timing[0].bpm.num, 60000);
    assert_eq!(b.timing[0].bpm.den, 500);
    assert_eq!(b.timing[0].bpm.num, 120 * b.timing[0].bpm.den);

    assert_eq!(b.velocity.len(), 1);
    assert_eq!(b.velocity[0].time.us, 1_000_000);
    // velocity = -100 / -50 = 2, held as 100 / 50
    assert_eq!(b.velocity[0].velocity.num, 100);
    assert_eq!(b.velocity[0].velocity.den, 50);
    assert_eq!(b.velocity[0].velocity.num, 2 * b.velocity[0].velocity.den);

    assert_eq!(b.velocity_multiplier.num, 1);
    assert_eq!(b.velocity_multiplier.den, 1);
    assert_eq!(b.audio, b"a.mp3".to_vec());
}

#[test]
fn hit_record_reads_field_four() {
    // x, y, time, type, hitSound: the decoder takes fields 2 and 4, so the
    // hitSound column drives color and finisher.
    let data = b"[General]\n\
Mode:1\n\
AudioFilename:x\n\
[HitObjects]\n\
256,192,100,1,0\n\
256,192,200,1,2\n\
256,192,300,1,4\n\
256,192,400,1,6\n\
256,192,500,1,8\n";
    let b = parse_ok(data);
    assert_eq!(b.objects.len(), 5);
    assert_eq!(b.objects[0].color, TaikoColor::DON);
    assert!(!b.objects[0].big);
    assert_eq!(b.objects[1].color, TaikoColor::KAT);
    assert!(!b.objects[1].big);
    assert_eq!(b.objects[2].color, TaikoColor::DON);
    assert!(b.objects[2].big);
    assert_eq!(b.objects[3].color, TaikoColor::KAT);
    assert!(b.objects[3].big);
    assert_eq!(b.objects[4].color, TaikoColor::KAT);
    assert!(!b.objects[4].big);
}

#[test]
fn unsupported_mode_is_refused() {
    let data = b"[General]\nMode:3\nAudioFilename:x\n";
    assert!(try_parse(data).is_err());
    let data2 = b"[General]\nMode:0\nAudioFilename:x\n";
    assert!(try_parse(data2).is_err());
}

#[test]
fn missing_mode_is_refused() {
    let data = b"[General]\nAudioFilename:x\n";
    assert!(try_parse(data).is_err());
}

#[test]
fn missing_audio_filename_is_refused() {
    let data = b"[General]\nMode:1\n";
    assert!(try_parse(data).is_err());
}

#[test]
fn hit_record_before_mode_is_refused() {
    let data = b"[HitObjects]\n256,192,100,1,0\n[General]\nMode:1\nAudioFilename:x\n";
    assert!(try_parse(data).is_err());
}

#[test]
fn default_velocity_is_injected() {
    let data = b"[General]\nMode:1\nAudioFilename:x\n[HitObjects]\n256,192,100,0,0\n";
    let b = parse_ok(data);
    assert_eq!(b.velocity.len(), 1);
    assert_eq!(b.velocity[0].time.us, 0);
    assert_eq!(b.velocity[0].velocity.num, 1);
    assert_eq!(b.velocity[0].velocity.den, 1);
}

#[test]
fn malformed_rows_are_skipped() {
    let data = b"[General]\nMode:1\nAudioFilename:x\n\
[TimingPoints]\n\
\n\
oops\n\
x,500,4,2,0,100,1,0\n\
0,zzz,4,2,0,100,1,0\n\
0,500,4,2\n\
0,0,4,2,0,100,1,0\n\
100,500,4,2,0,100,1,0\n\
[HitObjects]\n\
256,192\n\
256,192,a,0,0\n\
256,192,100,0,256\n\
256,192,100,0,-1\n\
256,192,150,0,0\n";
    let b = parse_ok(data);
    assert_eq!(b.timing.len(), 1);
    assert_eq!(b.timing[0].time.us, 100_000);
    assert_eq!(b.objects.len(), 1);
    assert_eq!(b.objects[0].time.us, 150_000);
}

#[test]
fn records_stepping_backwards_are_skipped() {
    let data = b"[General]\nMode:1\nAudioFilename:x\n\
[TimingPoints]\n\
1000,500,4,2,0,100,1,0\n\
500,600,4,2,0,100,1,0\n\
2000,700,4,2,0,100,1,0\n\
[HitObjects]\n\
256,192,900,0,0\n\
256,192,300,0,0\n\
256,192,900,0,0\n";
    let b = parse_ok(data);
    assert_eq!(b.timing.len(), 2);
    assert_eq!(b.timing[0].time.us, 1_000_000);
    assert_eq!(b.timing[1].time.us, 2_000_000);
    assert_eq!(b.objects.len(), 2);
    assert_eq!(b.objects[0].time.us, 900_000);
    assert_eq!(b.objects[1].time.us, 900_000);
}

#[test]
fn parsed_sequences_are_sorted() {
    let data = b"[General]\nMode:1\nAudioFilename:x\n\
[TimingPoints]\n\
0,500,4,2,0,100,1,0\n\
100,-50,4,2,0,100,0,0\n\
200,400,4,2,0,100,1,0\n\
300,-25,4,2,0,100,0,0\n\
[HitObjects]\n\
256,192,100,0,0\n\
256,192,200,0,0\n\
256,192,300,0,0\n";
    let b = parse_ok(data);
    for w in b.objects.windows(2) {
        assert!(w[0].time.us <= w[1].time.us);
    }
    for w in b.timing.windows(2) {
        assert!(w[0].time.us <= w[1].time.us);
    }
    for w in b.velocity.windows(2) {
        assert!(w[0].time.us <= w[1].time.us);
    }
}

#[test]
fn keys_and_values_are_trimmed() {
    let data = b"[General]\n  Mode  :  1  \nAudioFilename:   song name.mp3  \n";
    let b = parse_ok(data);
    assert_eq!(b.audio, b"song name.mp3".to_vec());
}

#[test]
fn section_header_must_match_exactly() {
    // A trailing space makes a different section, so Mode is never seen.
    let data = b"[General] \nMode:1\nAudioFilename:x\n";
    assert!(try_parse(data).is_err());
}

#[test]
fn crlf_lines_parse_like_lf() {
    let data = b"[General]\r\nMode:1\r\nAudioFilename: a.mp3\r\n[HitObjects]\r\n256,192,100,0,0\r\n";
    let b = parse_ok(data);
    assert_eq!(b.objects.len(), 1);
    assert_eq!(b.audio, b"a.mp3".to_vec());
}

#[test]
fn later_mode_entry_wins() {
    let data = b"[General]\nMode:3\nMode:1\nAudioFilename:x\n";
    let b = parse_ok(data);
    assert_eq!(b.objects.len(), 0);
}

#[test]
fn long_decimal_beat_length_is_exact() {
    let data = b"[General]\nMode:1\nAudioFilename:x\n\
[TimingPoints]\n\
0,461.538461538462,4,2,0,100,1,0\n";
    let b = parse_ok(data);
    assert_eq!(b.timing.len(), 1);
    // bpm = 60000 * 10^12 / 461538461538462
    assert_eq!(b.timing[0].bpm.num, 60_000_000_000_000_000);
    assert_eq!(b.timing[0].bpm.den, 461_538_461_538_462);
}

#[test]
fn fractional_hit_time_rounds_half_to_even() {
    let data = b"[General]\nMode:1\nAudioFilename:x\n\
[HitObjects]\n\
256,192,200.5,0,0\n\
256,192,300.25,0,0\n";
    let b = parse_ok(data);
    assert_eq!(b.objects[0].time.us, 200_500);
    assert_eq!(b.objects[0].time.to_ms(), 200);
    assert_eq!(b.objects[1].time.us, 300_250);
    assert_eq!(b.objects[1].time.to_ms(), 300);
}

#[test]
fn missing_trailing_newline_still_parses_last_record() {
    let data = b"[General]\nMode:1\nAudioFilename:x\n[HitObjects]\n256,192,100,0,0";
    let b = parse_ok(data);
    assert_eq!(b.objects.len(), 1);
    assert_eq!(b.objects[0].time.us, 100_000);
}

#[test]
fn new_section_ends_a_record_list() {
    let data = b"[General]\nMode:1\nAudioFilename:x\n\
[HitObjects]\n\
256,192,100,0,0\n\
[TimingPoints]\n\
200,500,4,2,0,100,1,0\n";
    let b = parse_ok(data);
    assert_eq!(b.objects.len(), 1);
    assert_eq!(b.timing.len(), 1);
}

#[test]
fn value_stops_at_second_colon() {
    let data = b"[General]\nMode:1:junk\nAudioFilename: a:b\n";
    let b = parse_ok(data);
    // "Mode:1:junk" reads as key "Mode", value "1"; "a:b" keeps only "a"
    assert_eq!(b.audio, b"a".to_vec());
}

#[test]
fn negative_beat_length_tempo_is_negative() {
    let data = b"[General]\nMode:1\nAudioFilename:x\n\
[TimingPoints]\n\
0,-500,4,2,0,100,1,0\n";
    let b = parse_ok(data);
    // bpm = 60 / (-0.5) = -120, held as -60000 / 500
    assert_eq!(b.timing[0].bpm.num, -60000);
    assert_eq!(b.timing[0].bpm.den, 500);
}

#[test]
fn positive_beat_length_velocity_is_negative() {
    let data = b"[General]\nMode:1\nAudioFilename:x\n\
[TimingPoints]\n\
0,50,4,2,0,100,0,0\n";
    let b = parse_ok(data);
    // velocity = -100 / 50 = -2
    assert_eq!(b.velocity[0].velocity.num, -100);
    assert_eq!(b.velocity[0].velocity.den, 50);
}
