//! The beatmap text decoder.
//!
//! The format is line-oriented: `[Section]` headers, `key:value` pairs in
//! ordinary sections, comma-separated records under `[TimingPoints]` and
//! `[HitObjects]`. The whole decoder is specified as a small state machine
//! over the file's lines; `try_parse` is proved to compute exactly what that
//! machine describes.
//!
//! Malformed records are skipped silently, as are records whose time would
//! step backwards (the parsed beatmap keeps its sequences sorted) and records
//! whose numbers are too long for exact arithmetic. A record under
//! `[HitObjects]` before any `Mode` entry refuses the whole file.

use vstd::prelude::*;

use crate::beatmap::Beatmap;
use crate::beatmap::TimingPoint;
use crate::beatmap::VelocityPoint;
use crate::circle::TaikoCircle;
use crate::circle::TaikoColor;
use crate::frac::Frac;
use crate::lex::all_digits;
use crate::lex::dec_of;
use crate::lex::find_byte;
use crate::lex::int_of;
use crate::lex::parse_dec;
use crate::lex::parse_int;
use crate::lex::pow10;
use crate::lex::scan;
use crate::lex::trim;
use crate::lex::trim_bounds;
use crate::time::Time;

verus! {

/// Parse failure: the file is not a supported beatmap.
pub type ParseError = ();

// ---------------------------------------------------------------------------
// The byte strings the decoder recognizes.
// ---------------------------------------------------------------------------

/// The bytes of `[TimingPoints]`.
pub open spec fn timing_header() -> Seq<u8> {
    seq![91u8, 84, 105, 109, 105, 110, 103, 80, 111, 105, 110, 116, 115, 93]
}

/// The bytes of `[HitObjects]`.
pub open spec fn hit_header() -> Seq<u8> {
    seq![91u8, 72, 105, 116, 79, 98, 106, 101, 99, 116, 115, 93]
}

/// The bytes of `[General]`.
pub open spec fn general_header() -> Seq<u8> {
    seq![91u8, 71, 101, 110, 101, 114, 97, 108, 93]
}

/// The bytes of `Mode`.
pub open spec fn mode_key() -> Seq<u8> {
    seq![77u8, 111, 100, 101]
}

/// The bytes of `AudioFilename`.
pub open spec fn audio_key() -> Seq<u8> {
    seq![65u8, 117, 100, 105, 111, 70, 105, 108, 101, 110, 97, 109, 101]
}

/// The bytes of `1`.
pub open spec fn one_lit() -> Seq<u8> {
    seq![49u8]
}

// ---------------------------------------------------------------------------
// Fields of a comma- or colon-separated record.
// ---------------------------------------------------------------------------

/// Start of the `j`-th field when scanning from `i`, if that field exists.
pub open spec fn nth_start_from(s: Seq<u8>, sep: u8, j: nat, i: int) -> Option<int>
    decreases j,
{
    if j == 0 {
        Some(i)
    } else {
        let e = scan(s, i, sep);
        if e >= s.len() {
            None
        } else {
            nth_start_from(s, sep, (j - 1) as nat, e + 1)
        }
    }
}

/// The `j`-th separated field of the record, if it exists.
pub open spec fn field(s: Seq<u8>, sep: u8, j: nat) -> Option<Seq<u8>> {
    match nth_start_from(s, sep, j, 0) {
        None => None,
        Some(a) => Some(s.subrange(a, scan(s, a, sep))),
    }
}

// ---------------------------------------------------------------------------
// Row interpretations.
// ---------------------------------------------------------------------------

/// A decoded `[TimingPoints]` record.
pub enum TimingRow {
    /// An uninherited record: a tempo anchor.
    Tempo(TimingPoint),
    /// An inherited record: a velocity multiplier.
    Rate(VelocityPoint),
}

/// Decimal mantissa bound for a beat length: at most 27 significant digits.
pub open spec fn beat_length_ok(m: int, k: nat) -> bool {
    &&& m != 0
    &&& -pow10(27) < m < pow10(27)
    &&& k <= 20
}

/// Decimal mantissa bound for an object time: at most 12 significant digits
/// and at most 3 fractional digits, so times embed exactly in microseconds.
pub open spec fn hit_time_ok(m: int, k: nat) -> bool {
    &&& -pow10(12) < m < pow10(12)
    &&& k <= 3
}

/// The tempo of an uninherited record: `60 / (beat_length / 1000)` beats per
/// minute, held exactly as `60000 * 10^k / m` with a positive denominator.
pub open spec fn bpm_of(m: int, k: nat) -> Frac {
    if m > 0 {
        Frac { num: (60000 * pow10(k)) as i128, den: m as i128 }
    } else {
        Frac { num: (-60000 * pow10(k)) as i128, den: (-m) as i128 }
    }
}

/// The multiplier of an inherited record: `-100 / beat_length`, held exactly
/// as `-100 * 10^k / m` with a positive denominator.
pub open spec fn velocity_of(m: int, k: nat) -> Frac {
    if m > 0 {
        Frac { num: (-100 * pow10(k)) as i128, den: m as i128 }
    } else {
        Frac { num: (100 * pow10(k)) as i128, den: (-m) as i128 }
    }
}

/// The tempo and velocity formulas, exactly: for a beat length denoting
/// `m / 10^k` milliseconds, the decoded tempo is `60 / (beat_length / 1000)`
/// beats per minute — as rationals, `bpm * m == 60000 * 10^k` — and the
/// decoded velocity is `-100 / beat_length` — `velocity * m == -100 * 10^k`.
pub proof fn lemma_timing_rates(m: int, k: nat)
    requires
        m != 0,
        -pow10(27) < m < pow10(27),
        k <= 20,
    ensures
        bpm_of(m, k).num * m == (60000 * pow10(k)) * bpm_of(m, k).den,
        velocity_of(m, k).num * m == (-100 * pow10(k)) * velocity_of(m, k).den,
        bpm_of(m, k).wf(),
        velocity_of(m, k).wf(),
{
    lemma_pow10_concrete();
    crate::lex::lemma_pow10_increases(k, 20);
    crate::lex::lemma_pow10_pos(k);
    let p = pow10(k);
    if m > 0 {
        assert((60000 * p) * m == (60000 * p) * m);
    } else {
        assert((-(60000 * p)) * m == (60000 * p) * (-m)) by (nonlinear_arith);
        assert((100 * p) * m == (-100 * p) * (-m)) by (nonlinear_arith);
    }
}

/// What a line under `[TimingPoints]` denotes: field 0 is the time in whole
/// milliseconds, field 1 the beat length, field 6 the uninherited flag.
pub open spec fn timing_row(line: Seq<u8>) -> Option<TimingRow> {
    if trim(line).len() == 0 {
        None
    } else {
        match (field(line, 44, 0), field(line, 44, 1), field(line, 44, 6)) {
            (Some(f0), Some(f1), Some(f6)) => match int_of(f0, true) {
                Some(t) => if -2147483648 <= t <= 2147483647 {
                    match dec_of(f1) {
                        Some((m, k)) => if beat_length_ok(m, k) {
                            let time = Time { us: (t * 1000) as i64 };
                            if f6 == one_lit() {
                                Some(TimingRow::Tempo(TimingPoint { time, bpm: bpm_of(m, k) }))
                            } else {
                                Some(
                                    TimingRow::Rate(
                                        VelocityPoint { time, velocity: velocity_of(m, k) },
                                    ),
                                )
                            }
                        } else {
                            None
                        },
                        None => None,
                    }
                } else {
                    None
                },
                None => None,
            },
            _ => None,
        }
    }
}

/// What a line under `[HitObjects]` denotes in taiko mode: field 2 is the
/// time in milliseconds, field 4 the object type byte. Types 4 and 6 are
/// finishers; types 0 and 4 are DON, every other type KAT.
pub open spec fn hit_row(line: Seq<u8>) -> Option<TaikoCircle> {
    match (field(line, 44, 2), field(line, 44, 4)) {
        (Some(f2), Some(f4)) => match dec_of(f2) {
            Some((m, k)) => if hit_time_ok(m, k) {
                match int_of(f4, false) {
                    Some(ty) => if 0 <= ty <= 255 {
                        Some(
                            TaikoCircle {
                                time: Time { us: (m * pow10((3 - k) as nat)) as i64 },
                                big: ty == 4 || ty == 6,
                                color: if ty == 0 || ty == 4 {
                                    TaikoColor::DON
                                } else {
                                    TaikoColor::KAT
                                },
                            },
                        )
                    } else {
                        None
                    },
                    None => None,
                }
            } else {
                None
            },
            None => None,
        },
        _ => None,
    }
}

/// What a line of a `key:value` section denotes: the first colon splits key
/// and value, the value ends at the next colon, both are trimmed.
pub open spec fn kv_of(line: Seq<u8>) -> Option<(Seq<u8>, Seq<u8>)> {
    if trim(line).len() == 0 {
        None
    } else {
        let c = scan(line, 0, 58);
        if c >= line.len() {
            None
        } else {
            Some(
                (
                    trim(line.subrange(0, c)),
                    trim(line.subrange(c + 1, scan(line, c + 1, 58))),
                ),
            )
        }
    }
}

// ---------------------------------------------------------------------------
// The decoding state machine.
// ---------------------------------------------------------------------------

/// Decoder state after some prefix of the lines.
pub struct PState {
    /// The most recent `[Section]` header line, if any.
    pub category: Option<Seq<u8>>,
    /// Every `key:value` pair seen, grouped by section header line.
    pub table: Map<Seq<u8>, Map<Seq<u8>, Seq<u8>>>,
    pub objects: Seq<TaikoCircle>,
    pub timing: Seq<TimingPoint>,
    pub velocity: Seq<VelocityPoint>,
}

pub open spec fn init_state() -> PState {
    PState {
        category: None,
        table: Map::empty(),
        objects: Seq::empty(),
        timing: Seq::empty(),
        velocity: Seq::empty(),
    }
}

/// The `Mode` entry of `[General]`, if present.
pub open spec fn mode_of(table: Map<Seq<u8>, Map<Seq<u8>, Seq<u8>>>) -> Option<Seq<u8>> {
    if table.contains_key(general_header()) && table[general_header()].contains_key(mode_key()) {
        Some(table[general_header()][mode_key()])
    } else {
        None
    }
}

/// The `AudioFilename` entry of `[General]`, if present.
pub open spec fn audio_of(table: Map<Seq<u8>, Map<Seq<u8>, Seq<u8>>>) -> Option<Seq<u8>> {
    if table.contains_key(general_header()) && table[general_header()].contains_key(audio_key()) {
        Some(table[general_header()][audio_key()])
    } else {
        None
    }
}

/// Effect of one `[TimingPoints]` line: a decoded record is appended to the
/// matching sequence unless its time steps backwards.
pub open spec fn apply_timing(st: PState, line: Seq<u8>) -> PState {
    match timing_row(line) {
        None => st,
        Some(TimingRow::Tempo(tp)) => if st.timing.len() == 0 || st.timing.last().time@
            <= tp.time@ {
            PState { timing: st.timing.push(tp), ..st }
        } else {
            st
        },
        Some(TimingRow::Rate(vp)) => if st.velocity.len() == 0 || st.velocity.last().time@
            <= vp.time@ {
            PState { velocity: st.velocity.push(vp), ..st }
        } else {
            st
        },
    }
}

/// Effect of one `[HitObjects]` line in taiko mode.
pub open spec fn apply_hit(st: PState, line: Seq<u8>) -> PState {
    match hit_row(line) {
        None => st,
        Some(c) => if st.objects.len() == 0 || st.objects.last().time@ <= c.time@ {
            PState { objects: st.objects.push(c), ..st }
        } else {
            st
        },
    }
}

/// Effect of one `key:value` line under section `cat`.
pub open spec fn apply_kv(st: PState, cat: Seq<u8>, line: Seq<u8>) -> PState {
    match kv_of(line) {
        None => st,
        Some((k, v)) => {
            let section = if st.table.contains_key(cat) {
                st.table[cat]
            } else {
                Map::empty()
            };
            PState { table: st.table.insert(cat, section.insert(k, v)), ..st }
        },
    }
}

/// Effect of one line on the decoder state. A `[HitObjects]` record seen
/// while `[General].Mode` is still unknown refuses the file.
pub open spec fn step(st: PState, line: Seq<u8>) -> Result<PState, ParseError> {
    if line.len() > 0 && line[0] == 91 {
        Ok(PState { category: Some(line), ..st })
    } else {
        match st.category {
            None => Ok(st),
            Some(cat) => if cat == timing_header() {
                Ok(apply_timing(st, line))
            } else if cat == hit_header() {
                match mode_of(st.table) {
                    None => Err(()),
                    Some(m) => if m == one_lit() {
                        Ok(apply_hit(st, line))
                    } else {
                        Ok(st)
                    },
                }
            } else {
                Ok(apply_kv(st, cat, line))
            },
        }
    }
}

// ---------------------------------------------------------------------------
// Lines of the input.
// ---------------------------------------------------------------------------

/// Content of the line starting at `i`: up to the next line feed, without a
/// trailing carriage return.
pub open spec fn line_content(s: Seq<u8>, i: int) -> Seq<u8> {
    let e = scan(s, i, 10);
    let ce = if e > i && s[e - 1] == 13 {
        e - 1
    } else {
        e
    };
    s.subrange(i, ce)
}

/// Runs the state machine over every line from position `i` on.
pub open spec fn run(s: Seq<u8>, i: int, st: PState) -> Result<PState, ParseError>
    decreases (if i < s.len() { s.len() - i } else { 0int })
    via run_decreases
{
    if i < 0 || i >= s.len() {
        Ok(st)
    } else {
        match step(st, line_content(s, i)) {
            Err(e) => Err(e),
            Ok(st2) => run(s, scan(s, i, 10) + 1, st2),
        }
    }
}

#[via_fn]
proof fn run_decreases(s: Seq<u8>, i: int, st: PState) {
    if 0 <= i < s.len() {
        crate::lex::lemma_scan_props(s, i, 10);
    }
}

/// The default velocity marker injected when a beatmap has none.
pub open spec fn default_velocity() -> VelocityPoint {
    VelocityPoint { time: Time { us: 0 }, velocity: Frac { num: 1, den: 1 } }
}

/// What a successful parse yields.
pub struct ParsedMap {
    pub objects: Seq<TaikoCircle>,
    pub timing: Seq<TimingPoint>,
    pub velocity: Seq<VelocityPoint>,
    pub audio: Seq<u8>,
}

/// The meaning of a whole beatmap file. It parses when the state machine
/// accepts every line, `[General].Mode` is `1`, and `[General].AudioFilename`
/// is present; a beatmap with no velocity marker receives the default one.
pub open spec fn parse_spec(s: Seq<u8>) -> Result<ParsedMap, ParseError> {
    match run(s, 0, init_state()) {
        Err(e) => Err(e),
        Ok(st) => match mode_of(st.table) {
            None => Err(()),
            Some(m) => if m == one_lit() {
                match audio_of(st.table) {
                    None => Err(()),
                    Some(a) => Ok(
                        ParsedMap {
                            objects: st.objects,
                            timing: st.timing,
                            velocity: if st.velocity.len() == 0 {
                                seq![default_velocity()]
                            } else {
                                st.velocity
                            },
                            audio: a,
                        },
                    ),
                }
            } else {
                Err(())
            },
        },
    }
}

// ---------------------------------------------------------------------------
// Executable decoding.
// ---------------------------------------------------------------------------

/// Which kind of section the cursor is in.
#[derive(Clone, Copy)]
enum Section {
    /// Before any `[Section]` header.
    Preamble,
    Timing,
    Hit,
    General,
    /// Any other section: its `key:value` pairs matter only to the table.
    Other,
}

fn is_timing_header(s: &[u8]) -> (r: bool)
    ensures
        r <==> s@ == timing_header(),
{
    let r = s.len() == 14 && s[0] == 91 && s[1] == 84 && s[2] == 105 && s[3] == 109 && s[4] == 105
        && s[5] == 110 && s[6] == 103 && s[7] == 80 && s[8] == 111 && s[9] == 105 && s[10] == 110
        && s[11] == 116 && s[12] == 115 && s[13] == 93;
    proof {
        if r {
            assert(s@ =~= timing_header());
        } else {
            if s@ == timing_header() {
                assert(s@.len() == 14);
                assert(false);
            }
        }
    }
    r
}

fn is_hit_header(s: &[u8]) -> (r: bool)
    ensures
        r <==> s@ == hit_header(),
{
    let r = s.len() == 12 && s[0] == 91 && s[1] == 72 && s[2] == 105 && s[3] == 116 && s[4] == 79
        && s[5] == 98 && s[6] == 106 && s[7] == 101 && s[8] == 99 && s[9] == 116 && s[10] == 115
        && s[11] == 93;
    proof {
        if r {
            assert(s@ =~= hit_header());
        } else {
            if s@ == hit_header() {
                assert(s@.len() == 12);
                assert(false);
            }
        }
    }
    r
}

fn is_general_header(s: &[u8]) -> (r: bool)
    ensures
        r <==> s@ == general_header(),
{
    let r = s.len() == 9 && s[0] == 91 && s[1] == 71 && s[2] == 101 && s[3] == 110 && s[4] == 101
        && s[5] == 114 && s[6] == 97 && s[7] == 108 && s[8] == 93;
    proof {
        if r {
            assert(s@ =~= general_header());
        } else {
            if s@ == general_header() {
                assert(s@.len() == 9);
                assert(false);
            }
        }
    }
    r
}

fn is_mode_key(s: &[u8]) -> (r: bool)
    ensures
        r <==> s@ == mode_key(),
{
    let r = s.len() == 4 && s[0] == 77 && s[1] == 111 && s[2] == 100 && s[3] == 101;
    proof {
        if r {
            assert(s@ =~= mode_key());
        } else {
            if s@ == mode_key() {
                assert(s@.len() == 4);
                assert(false);
            }
        }
    }
    r
}

fn is_audio_key(s: &[u8]) -> (r: bool)
    ensures
        r <==> s@ == audio_key(),
{
    let r = s.len() == 13 && s[0] == 65 && s[1] == 117 && s[2] == 100 && s[3] == 105 && s[4] == 111
        && s[5] == 70 && s[6] == 105 && s[7] == 108 && s[8] == 101 && s[9] == 110 && s[10] == 97
        && s[11] == 109 && s[12] == 101;
    proof {
        if r {
            assert(s@ =~= audio_key());
        } else {
            if s@ == audio_key() {
                assert(s@.len() == 13);
                assert(false);
            }
        }
    }
    r
}

fn is_one(s: &[u8]) -> (r: bool)
    ensures
        r <==> s@ == one_lit(),
{
    let r = s.len() == 1 && s[0] == 49;
    proof {
        if r {
            assert(s@ =~= one_lit());
        } else {
            if s@ == one_lit() {
                assert(s@.len() == 1);
                assert(false);
            }
        }
    }
    r
}

/// Locates the `j`-th `sep`-separated field of the record.
#[verifier::loop_isolation(false)]
fn field_range(line: &[u8], sep: u8, j: usize) -> (r: Option<(usize, usize)>)
    ensures
        match r {
            Some((a, b)) => a <= b <= line@.len() && field(line@, sep, j as nat) == Some(
                line@.subrange(a as int, b as int),
            ),
            None => field(line@, sep, j as nat) is None,
        },
{
    let n = line.len();
    let mut start: usize = 0;
    let mut jj: usize = 0;
    while jj < j
        invariant
            0 <= start <= n,
            jj <= j,
            nth_start_from(line@, sep, j as nat, 0) == nth_start_from(
                line@,
                sep,
                (j - jj) as nat,
                start as int,
            ),
        decreases j - jj,
    {
        let c = find_byte(line, start, sep);
        if c >= n {
            return None;
        }
        start = c + 1;
        jj = jj + 1;
    }
    let e = find_byte(line, start, sep);
    Some((start, e))
}

/// The concrete values of `pow10` the decoder needs.
proof fn lemma_pow10_concrete()
    ensures
        pow10(0) == 1,
        pow10(1) == 10,
        pow10(2) == 100,
        pow10(3) == 1000,
        pow10(12) == 1_000_000_000_000int,
        pow10(20) == 100_000_000_000_000_000_000int,
        pow10(27) == 1_000_000_000_000_000_000_000_000_000int,
{
    reveal_with_fuel(pow10, 28);
}

/// Ten to the `k`, exactly.
#[verifier::loop_isolation(false)]
fn pow10_exec(k: usize) -> (r: i128)
    requires
        k <= 27,
    ensures
        r == pow10(k as nat),
        1 <= r <= pow10(27),
{
    proof {
        lemma_pow10_concrete();
    }
    let mut r: i128 = 1;
    let mut j: usize = 0;
    while j < k
        invariant
            j <= k,
            r == pow10(j as nat),
        decreases k - j,
    {
        proof {
            crate::lex::lemma_pow10_increases((j + 1) as nat, 27);
        }
        r = r * 10;
        j = j + 1;
    }
    proof {
        crate::lex::lemma_pow10_increases(k as nat, 27);
    }
    r
}

/// Decodes one `[TimingPoints]` record, exactly as `timing_row` describes.
fn parse_timing_row(line: &[u8]) -> (r: Option<TimingRow>)
    ensures
        r == timing_row(line@),
        r matches Some(TimingRow::Tempo(tp)) ==> tp.wf(),
        r matches Some(TimingRow::Rate(vp)) ==> vp.wf(),
{
    proof {
        lemma_pow10_concrete();
        crate::lex::lemma_pow10_33();
    }
    let (ta, tb) = trim_bounds(line);
    if ta == tb {
        return None;
    }
    let f0 = match field_range(line, 44, 0) {
        None => {
            return None;
        },
        Some(p) => p,
    };
    let t = match parse_int(&line[f0.0..f0.1], true, -2147483648, 2147483647) {
        None => {
            return None;
        },
        Some(v) => v,
    };
    let f1 = match field_range(line, 44, 1) {
        None => {
            return None;
        },
        Some(p) => p,
    };
    let (m, k) = match parse_dec(&line[f1.0..f1.1], 27, 20) {
        None => {
            return None;
        },
        Some(p) => p,
    };
    if m == 0 {
        return None;
    }
    let f6 = match field_range(line, 44, 6) {
        None => {
            return None;
        },
        Some(p) => p,
    };
    let uninherited = is_one(&line[f6.0..f6.1]);
    let time = Time::from_ms(t);
    let p = pow10_exec(k);
    proof {
        crate::lex::lemma_pow10_increases(k as nat, 20);
    }
    if uninherited {
        let bpm = if m > 0 {
            Frac { num: 60000 * p, den: m }
        } else {
            Frac { num: -(60000 * p), den: -m }
        };
        Some(TimingRow::Tempo(TimingPoint { time, bpm }))
    } else {
        let velocity = if m > 0 {
            Frac { num: -(100 * p), den: m }
        } else {
            Frac { num: 100 * p, den: -m }
        };
        Some(TimingRow::Rate(VelocityPoint { time, velocity }))
    }
}

/// Decodes one `[HitObjects]` record, exactly as `hit_row` describes.
fn parse_hit_row(line: &[u8]) -> (r: Option<TaikoCircle>)
    ensures
        r == hit_row(line@),
        r matches Some(c) ==> c.wf(),
{
    proof {
        lemma_pow10_concrete();
        crate::lex::lemma_pow10_33();
    }
    let f2 = match field_range(line, 44, 2) {
        None => {
            return None;
        },
        Some(p) => p,
    };
    let (m, k) = match parse_dec(&line[f2.0..f2.1], 12, 3) {
        None => {
            return None;
        },
        Some(p) => p,
    };
    let f4 = match field_range(line, 44, 4) {
        None => {
            return None;
        },
        Some(p) => p,
    };
    let ty = match parse_int(&line[f4.0..f4.1], false, 0, 255) {
        None => {
            return None;
        },
        Some(v) => v,
    };
    let p = pow10_exec(3 - k);
    let us = (m * p) as i64;
    Some(
        TaikoCircle {
            time: Time::from_us(us),
            big: ty == 4 || ty == 6,
            color: if ty == 0 || ty == 4 {
                TaikoColor::DON
            } else {
                TaikoColor::KAT
            },
        },
    )
}

/// The tracked copy of an optional table entry matches the spec's view.
spec fn tracks(o: Option<Vec<u8>>, s: Option<Seq<u8>>) -> bool {
    match (o, s) {
        (Option::None, Option::None) => true,
        (Option::Some(v), Option::Some(x)) => v@ == x,
        _ => false,
    }
}

/// The section tracker agrees with the state machine's category.
spec fn cat_matches(cat: Section, c: Option<Seq<u8>>) -> bool {
    match cat {
        Section::Preamble => c is None,
        Section::Timing => c == Some(timing_header()),
        Section::Hit => c == Some(hit_header()),
        Section::General => c == Some(general_header()),
        Section::Other => match c {
            Option::Some(x) => x != timing_header() && x != hit_header() && x
                != general_header(),
            Option::None => false,
        },
    }
}

/// Decodes a whole beatmap file, as `parse_spec` describes: the returned
/// beatmap holds exactly the records the state machine accepts, its three
/// sequences sorted by time, with a default velocity marker injected when the
/// file defines none. The file is refused exactly when `parse_spec` refuses
/// it: a `[HitObjects]` record before any `Mode` entry, a missing
/// `AudioFilename`, or a `Mode` other than `1`.
#[verifier::rlimit(100)]
#[verifier::loop_isolation(false)]
pub fn try_parse(data: &[u8]) -> (r: Result<Beatmap, ParseError>)
    ensures
        (r is Ok) == (parse_spec(data@) is Ok),
        r matches Ok(b) ==> parse_spec(data@) matches Ok(d) && b.objects@ == d.objects
            && b.timing@ == d.timing && b.velocity@ == d.velocity && b.audio@ == d.audio
            && b.velocity_multiplier == (Frac { num: 1, den: 1 }) && b.wf(),
{
    let n = data.len();
    let mut objects: Vec<TaikoCircle> = Vec::new();
    let mut timing: Vec<TimingPoint> = Vec::new();
    let mut velocity: Vec<VelocityPoint> = Vec::new();
    let mut mode: Option<Vec<u8>> = None;
    let mut audio: Option<Vec<u8>> = None;
    let mut cat = Section::Preamble;
    let ghost mut st = init_state();
    let mut i: usize = 0;
    while i < n
        invariant
            i <= n,
            run(data@, 0, init_state()) == run(data@, i as int, st),
            st.objects == objects@,
            st.timing == timing@,
            st.velocity == velocity@,
            tracks(mode, mode_of(st.table)),
            tracks(audio, audio_of(st.table)),
            cat_matches(cat, st.category),
            crate::beatmap::objects_sorted(objects@),
            crate::beatmap::timing_sorted(timing@),
            crate::beatmap::velocity_sorted(velocity@),
            crate::beatmap::objects_wf(objects@),
            crate::beatmap::timing_wf(timing@),
            crate::beatmap::velocity_wf(velocity@),
        decreases n - i,
    {
        let e = find_byte(data, i, 10);
        let ce = if e > i && data[e - 1] == 13 {
            e - 1
        } else {
            e
        };
        let line = &data[i..ce];
        proof {
            assert(line@ =~= line_content(data@, i as int));
        }
        let ghost prev = st;
        if ce > i && data[i] == 91 {
            if is_timing_header(line) {
                cat = Section::Timing;
            } else if is_hit_header(line) {
                cat = Section::Hit;
            } else if is_general_header(line) {
                cat = Section::General;
            } else {
                cat = Section::Other;
            }
            proof {
                st = PState { category: Some(line@), ..prev };
                assert(line@[0] == data@[i as int]);
                assert(step(prev, line@) == Ok::<PState, ParseError>(st));
            }
        } else {
            proof {
                assert(!(line@.len() > 0 && line@[0] == 91));
            }
            match cat {
                Section::Preamble => {
                    proof {
                        assert(step(prev, line@) == Ok::<PState, ParseError>(prev));
                    }
                },
                Section::Timing => {
                    match parse_timing_row(line) {
                        None => {},
                        Some(TimingRow::Tempo(tp)) => {
                            let can_push = timing.len() == 0 || timing[timing.len()
                                - 1].time.as_us() <= tp.time.as_us();
                            if can_push {
                                proof {
                                    crate::beatmap::lemma_timing_sorted_push(timing@, tp);
                                }
                                timing.push(tp);
                            }
                        },
                        Some(TimingRow::Rate(vp)) => {
                            let can_push = velocity.len() == 0 || velocity[velocity.len()
                                - 1].time.as_us() <= vp.time.as_us();
                            if can_push {
                                proof {
                                    crate::beatmap::lemma_velocity_sorted_push(velocity@, vp);
                                }
                                velocity.push(vp);
                            }
                        },
                    }
                    proof {
                        st = apply_timing(prev, line@);
                        assert(step(prev, line@) == Ok::<PState, ParseError>(st));
                    }
                },
                Section::Hit => {
                    let mode_is_taiko = match &mode {
                        None => {
                            proof {
                                assert(step(prev, line@) == Err::<PState, ParseError>(()));
                                assert(parse_spec(data@) is Err);
                            }
                            return Err(());
                        },
                        Some(mv) => is_one(mv.as_slice()),
                    };
                    if mode_is_taiko {
                        match parse_hit_row(line) {
                            None => {},
                            Some(c) => {
                                let can_push = objects.len() == 0 || objects[objects.len()
                                    - 1].time.as_us() <= c.time.as_us();
                                if can_push {
                                    proof {
                                        crate::beatmap::lemma_objects_sorted_push(objects@, c);
                                    }
                                    objects.push(c);
                                }
                            },
                        }
                        proof {
                            st = apply_hit(prev, line@);
                            assert(step(prev, line@) == Ok::<PState, ParseError>(st));
                        }
                    } else {
                        proof {
                            assert(step(prev, line@) == Ok::<PState, ParseError>(prev));
                        }
                    }
                },
                Section::General => {
                    let (ta, tb) = trim_bounds(line);
                    if ta < tb {
                        let c = find_byte(line, 0, 58);
                        if c < line.len() {
                            let key_part = &line[0..c];
                            let (ka, kb) = trim_bounds(key_part);
                            let key = &key_part[ka..kb];
                            let e2 = find_byte(line, c + 1, 58);
                            let value_part = &line[c + 1..e2];
                            let (va, vb) = trim_bounds(value_part);
                            let value = &value_part[va..vb];
                            proof {
                                assert(key_part@ =~= line@.subrange(0, c as int));
                                assert(value_part@ =~= line@.subrange(
                                    c + 1,
                                    scan(line@, c + 1, 58),
                                ));
                                assert(key@ == trim(line@.subrange(0, c as int)));
                                assert(value@ == trim(line@.subrange(c + 1, scan(line@, c + 1, 58))));
                            }
                            if is_mode_key(key) {
                                mode = Some(vstd::slice::slice_to_vec(value));
                            } else if is_audio_key(key) {
                                audio = Some(vstd::slice::slice_to_vec(value));
                            }
                        }
                    }
                    proof {
                        st = apply_kv(prev, general_header(), line@);
                        assert(step(prev, line@) == Ok::<PState, ParseError>(st));
                    }
                },
                Section::Other => {
                    proof {
                        let c = prev.category->0;
                        st = apply_kv(prev, c, line@);
                        assert(step(prev, line@) == Ok::<PState, ParseError>(st));
                        assert(c != general_header());
                        assert(mode_of(st.table) == mode_of(prev.table));
                        assert(audio_of(st.table) == audio_of(prev.table));
                    }
                },
            }
        }
        proof {
            crate::lex::lemma_scan_props(data@, i as int, 10);
            assert(run(data@, i as int, prev) == run(data@, e + 1, st));
        }
        i = if e >= n {
            n
        } else {
            e + 1
        };
    }
    proof {
        assert(run(data@, 0, init_state()) == Ok::<PState, ParseError>(st));
    }
    let mv = match mode {
        None => {
            return Err(());
        },
        Some(mv) => mv,
    };
    if !is_one(mv.as_slice()) {
        return Err(());
    }
    let av = match audio {
        None => {
            return Err(());
        },
        Some(av) => av,
    };
    if velocity.len() == 0 {
        velocity.push(VelocityPoint { time: Time::zero(), velocity: Frac::one() });
        proof {
            assert(velocity@ =~= seq![default_velocity()]);
        }
    }
    Ok(
        Beatmap {
            objects,
            timing,
            velocity,
            velocity_multiplier: Frac::one(),
            audio: av,
        },
    )
}

} // verus!
