//! Naming rules for beatmap archive entries: which entry holds the beatmap
//! text, and which entry name matches the audio asset a beatmap references.
//! The host extracts the archive; these decide what it looks for.

use vstd::prelude::*;

verus! {

/// The bytes of the beatmap text suffix `.osu`.
pub open spec fn osu_suffix() -> Seq<u8> {
    seq![46u8, 111, 115, 117]
}

/// Whether an archive entry name ends in `.osu`.
pub open spec fn is_beatmap_name_spec(s: Seq<u8>) -> bool {
    s.len() >= 4 && s.subrange(s.len() - 4, s.len() as int) == osu_suffix()
}

pub fn is_beatmap_name(name: &[u8]) -> (r: bool)
    ensures
        r == is_beatmap_name_spec(name@),
{
    let n = name.len();
    if n < 4 {
        return false;
    }
    let r = name[n - 4] == 46 && name[n - 3] == 111 && name[n - 2] == 115 && name[n - 1] == 117;
    proof {
        let tail = name@.subrange(n - 4, n as int);
        assert(tail[0] == name@[n - 4]);
        assert(tail[1] == name@[n - 3]);
        assert(tail[2] == name@[n - 2]);
        assert(tail[3] == name@[n - 1]);
        if r {
            assert(tail =~= osu_suffix());
        }
    }
    r
}

/// Index just past the last path separator (`/` or `\`) before `j`, or zero.
pub open spec fn after_last_sep(s: Seq<u8>, j: int) -> int
    decreases j,
{
    if j <= 0 {
        0
    } else if j > s.len() {
        after_last_sep(s, s.len() as int)
    } else if s[j - 1] == 47 || s[j - 1] == 92 {
        j
    } else {
        after_last_sep(s, j - 1)
    }
}

/// The final path component of a path: what follows the last separator.
pub open spec fn base_name_spec(s: Seq<u8>) -> Seq<u8> {
    s.subrange(after_last_sep(s, s.len() as int), s.len() as int)
}

/// The archive entry name an audio asset path refers to: the referenced
/// audio file is matched by its final path component.
#[verifier::loop_isolation(false)]
pub fn audio_base_name(path: &[u8]) -> (r: &[u8])
    ensures
        r@ == base_name_spec(path@),
{
    let n = path.len();
    let mut a = n;
    while a > 0 && path[a - 1] != 47 && path[a - 1] != 92
        invariant
            a <= n,
            after_last_sep(path@, n as int) == after_last_sep(path@, a as int),
        decreases a,
    {
        a = a - 1;
    }
    &path[a..n]
}

} // verus!
