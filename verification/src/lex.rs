//! Byte-level lexing for the beatmap text: separator scanning, whitespace
//! trimming, and exact parsing of integers and decimal numbers.
//!
//! Every helper is specified against a small recursive description of the
//! byte sequence, so the parser's contract can state precisely which lines
//! are accepted and what values they denote.

use vstd::prelude::*;

verus! {

/// ASCII decimal digit.
pub open spec fn is_digit(b: u8) -> bool {
    48 <= b <= 57
}

/// ASCII whitespace, as trimmed from keys and values.
pub open spec fn is_space(b: u8) -> bool {
    b == 32 || (9 <= b <= 13)
}

pub open spec fn all_digits(s: Seq<u8>) -> bool {
    forall|i: int| 0 <= i < s.len() ==> is_digit(#[trigger] s[i])
}

/// The number a run of digits denotes.
pub open spec fn digits_val(s: Seq<u8>) -> int
    decreases s.len(),
{
    if s.len() == 0 {
        0
    } else {
        digits_val(s.drop_last()) * 10 + (s.last() - 48)
    }
}

pub open spec fn pow10(n: nat) -> int
    decreases n,
{
    if n == 0 {
        1
    } else {
        10 * pow10((n - 1) as nat)
    }
}

/// Index of the first occurrence of `b` at or after `i`, or the length.
pub open spec fn scan(s: Seq<u8>, i: int, b: u8) -> int
    decreases s.len() - i,
{
    if i < 0 || i >= s.len() {
        s.len() as int
    } else if s[i] == b {
        i
    } else {
        scan(s, i + 1, b)
    }
}

/// Index of the first non-whitespace byte at or after `i`, or the length.
pub open spec fn skip_spaces(s: Seq<u8>, i: int) -> int
    decreases s.len() - i,
{
    if i < 0 || i >= s.len() {
        s.len() as int
    } else if is_space(s[i]) {
        skip_spaces(s, i + 1)
    } else {
        i
    }
}

/// One past the last non-whitespace byte at or before `j - 1`, or zero.
pub open spec fn rskip_spaces(s: Seq<u8>, j: int) -> int
    decreases j,
{
    if j <= 0 {
        0
    } else if j > s.len() {
        rskip_spaces(s, s.len() as int)
    } else if is_space(s[j - 1]) {
        rskip_spaces(s, j - 1)
    } else {
        j
    }
}

/// The sequence with leading and trailing whitespace removed.
pub open spec fn trim(s: Seq<u8>) -> Seq<u8> {
    let a = skip_spaces(s, 0);
    let b = rskip_spaces(s, s.len() as int);
    if a <= b {
        s.subrange(a, b)
    } else {
        Seq::empty()
    }
}

/// The integer a field denotes: an optional sign followed by one or more
/// digits, exactly the strings the standard integer parsers accept.
pub open spec fn int_of(s: Seq<u8>, allow_neg: bool) -> Option<int> {
    if s.len() == 0 {
        None
    } else {
        let neg = s[0] == 45;
        let t = if s[0] == 43 || s[0] == 45 {
            s.skip(1)
        } else {
            s
        };
        if (!neg || allow_neg) && t.len() >= 1 && all_digits(t) {
            if neg {
                Some(-digits_val(t))
            } else {
                Some(digits_val(t))
            }
        } else {
            None
        }
    }
}

/// The decimal a field denotes: an optional sign, then digits with at most
/// one point and at least one digit overall. The result is the mantissa `m`
/// and the count `k` of fractional digits, so the value is `m / 10^k`.
pub open spec fn dec_of(s: Seq<u8>) -> Option<(int, nat)> {
    if s.len() == 0 {
        None
    } else {
        let neg = s[0] == 45;
        let t = if s[0] == 43 || s[0] == 45 {
            s.skip(1)
        } else {
            s
        };
        let dot = scan(t, 0, 46);
        let ip = t.subrange(0, dot);
        let fp = if dot < t.len() {
            t.subrange(dot + 1, t.len() as int)
        } else {
            Seq::empty()
        };
        if ip.len() + fp.len() >= 1 && all_digits(ip) && all_digits(fp) {
            let m = digits_val(ip + fp);
            Some(((if neg { -m } else { m }), fp.len()))
        } else {
            None
        }
    }
}

// ---------------------------------------------------------------------------
// Lemmas about the recursive descriptions.
// ---------------------------------------------------------------------------

/// `scan` stays in range, passes no occurrence, and stops on one.
pub proof fn lemma_scan_props(s: Seq<u8>, i: int, b: u8)
    requires
        0 <= i <= s.len(),
    ensures
        i <= scan(s, i, b) <= s.len(),
        forall|j: int| i <= j < scan(s, i, b) ==> s[j] != b,
        scan(s, i, b) < s.len() ==> s[scan(s, i, b)] == b,
    decreases s.len() - i,
{
    if i < s.len() && s[i] != b {
        lemma_scan_props(s, i + 1, b);
    }
}

pub proof fn lemma_rskip_spaces_props(s: Seq<u8>, j: int)
    requires
        0 <= j <= s.len(),
    ensures
        0 <= rskip_spaces(s, j) <= j,
        forall|k: int| rskip_spaces(s, j) <= k < j ==> is_space(s[k]),
        rskip_spaces(s, j) > 0 ==> !is_space(s[rskip_spaces(s, j) - 1]),
    decreases j,
{
    if j > 0 && is_space(s[j - 1]) {
        lemma_rskip_spaces_props(s, j - 1);
    }
}

/// Digit runs denote values below `10^len`.
pub proof fn lemma_digits_val_upper(s: Seq<u8>)
    requires
        all_digits(s),
    ensures
        0 <= digits_val(s) < pow10(s.len()),
    decreases s.len(),
{
    if s.len() > 0 {
        lemma_digits_val_upper(s.drop_last());
    }
}

/// A digit run starting with a nonzero digit denotes at least `10^(len-1)`.
pub proof fn lemma_digits_val_lower(s: Seq<u8>)
    requires
        all_digits(s),
        s.len() >= 1,
        s[0] != 48,
    ensures
        digits_val(s) >= pow10((s.len() - 1) as nat),
    decreases s.len(),
{
    assert(digits_val(s) == digits_val(s.drop_last()) * 10 + (s.last() - 48));
    assert(is_digit(s.last()));
    if s.len() == 1 {
        assert(s.drop_last().len() == 0);
        assert(s.last() == s[0]);
        assert(s.last() != 48 && is_digit(s.last()));
        assert(digits_val(s) >= 1);
    } else {
        assert(s.drop_last()[0] == s[0]);
        lemma_digits_val_lower(s.drop_last());
        assert(pow10((s.len() - 1) as nat) == 10 * pow10((s.len() - 2) as nat));
        assert(digits_val(s.drop_last()) * 10 >= pow10((s.len() - 2) as nat) * 10);
    }
}

/// A single leading zero does not change the value.
proof fn lemma_digits_val_zero_head(s: Seq<u8>)
    requires
        all_digits(s),
        s.len() >= 1,
        s[0] == 48,
    ensures
        digits_val(s) == digits_val(s.skip(1)),
    decreases s.len(),
{
    if s.len() == 1 {
        assert(s.skip(1).len() == 0);
        assert(digits_val(s) == digits_val(s.drop_last()) * 10 + (s.last() - 48));
        assert(s.drop_last().len() == 0);
    } else {
        assert(s.drop_last()[0] == 48);
        lemma_digits_val_zero_head(s.drop_last());
        assert(s.skip(1).drop_last() =~= s.drop_last().skip(1));
        assert(s.skip(1).last() == s.last());
        assert(digits_val(s.skip(1)) == digits_val(s.skip(1).drop_last()) * 10 + (s.skip(
            1,
        ).last() - 48));
        assert(digits_val(s) == digits_val(s.drop_last()) * 10 + (s.last() - 48));
    }
}

/// Leading zeros do not change the value.
pub proof fn lemma_digits_val_skip_zeros(s: Seq<u8>, z: int)
    requires
        all_digits(s),
        0 <= z <= s.len(),
        forall|i: int| 0 <= i < z ==> s[i] == 48,
    ensures
        digits_val(s) == digits_val(s.skip(z)),
    decreases z,
{
    if z > 0 {
        lemma_digits_val_zero_head(s);
        assert(s.skip(1).skip(z - 1) =~= s.skip(z));
        lemma_digits_val_skip_zeros(s.skip(1), z - 1);
    } else {
        assert(s.skip(0) =~= s);
    }
}

// ---------------------------------------------------------------------------
// Executable helpers.
// ---------------------------------------------------------------------------

/// Finds the first occurrence of `b` at or after `from`.
#[verifier::loop_isolation(false)]
pub fn find_byte(s: &[u8], from: usize, b: u8) -> (r: usize)
    requires
        from <= s@.len(),
    ensures
        r == scan(s@, from as int, b),
        from <= r <= s@.len(),
{
    let n = s.len();
    let mut i = from;
    while i < n && s[i] != b
        invariant
            from <= i <= n,
            n == s@.len(),
            scan(s@, from as int, b) == scan(s@, i as int, b),
        decreases n - i,
    {
        i = i + 1;
    }
    i
}

/// Bounds of the trimmed middle of `s`: `s[a..b]` equals `trim(s)`.
#[verifier::loop_isolation(false)]
pub fn trim_bounds(s: &[u8]) -> (r: (usize, usize))
    ensures
        r.0 <= r.1 <= s@.len(),
        s@.subrange(r.0 as int, r.1 as int) =~= trim(s@),
{
    let n = s.len();
    let mut a: usize = 0;
    while a < n && is_space_byte(s[a])
        invariant
            0 <= a <= n,
            n == s@.len(),
            skip_spaces(s@, 0) == skip_spaces(s@, a as int),
        decreases n - a,
    {
        a = a + 1;
    }
    assert(skip_spaces(s@, a as int) == a);
    let mut b = n;
    while b > a && is_space_byte(s[b - 1])
        invariant
            a <= b <= n,
            rskip_spaces(s@, n as int) == rskip_spaces(s@, b as int),
            a < n ==> a < b,
        decreases b,
    {
        proof {
            if b - 1 == a && a < n {
                assert(!is_space(s@[a as int]));
            }
        }
        b = b - 1;
    }
    proof {
        if a == n {
            lemma_rskip_spaces_props(s@, b as int);
            assert(trim(s@) =~= s@.subrange(a as int, b as int));
        } else {
            assert(b > a);
            assert(rskip_spaces(s@, b as int) == b);
        }
    }
    (a, b)
}

/// Executable form of `is_space`.
pub fn is_space_byte(b: u8) -> (r: bool)
    ensures
        r == is_space(b),
{
    b == 32 || (9 <= b && b <= 13)
}

/// Executable form of `is_digit`.
pub fn is_digit_byte(b: u8) -> (r: bool)
    ensures
        r == is_digit(b),
{
    48 <= b && b <= 57
}

/// The value of a digit run, unless it has more than `max_sig` significant
/// digits.
#[verifier::loop_isolation(false)]
fn digits_value(s: &[u8], start: usize, end: usize, max_sig: usize) -> (r: Option<i128>)
    requires
        start <= end <= s@.len(),
        all_digits(s@.subrange(start as int, end as int)),
        max_sig <= 33,
    ensures
        match r {
            Some(x) => x == digits_val(s@.subrange(start as int, end as int)) && 0 <= x < pow10(
                max_sig as nat,
            ),
            None => digits_val(s@.subrange(start as int, end as int)) >= pow10(max_sig as nat),
        },
{
    let ghost run = s@.subrange(start as int, end as int);
    let mut z = start;
    while z < end && s[z] == 48
        invariant
            start <= z <= end,
            end <= s@.len(),
            forall|i: int| start <= i < z ==> s@[i] == 48,
        decreases end - z,
    {
        z = z + 1;
    }
    proof {
        lemma_digits_val_skip_zeros(run, z - start);
        assert(run.skip(z - start) =~= s@.subrange(z as int, end as int));
    }
    let ghost sig = s@.subrange(z as int, end as int);
    if end - z > max_sig {
        proof {
            lemma_digits_val_lower(sig);
            lemma_pow10_increases(max_sig as nat, (sig.len() - 1) as nat);
        }
        return None;
    }
    let mut acc: i128 = 0;
    let mut j = z;
    while j < end
        invariant
            z <= j <= end,
            end <= s@.len(),
            sig =~= s@.subrange(z as int, end as int),
            all_digits(sig),
            acc == digits_val(s@.subrange(z as int, j as int)),
            0 <= acc < pow10((j - z) as nat),
            end - z <= max_sig <= 33,
        decreases end - j,
    {
        let d = s[j];
        assert(is_digit(d)) by {
            assert(sig[j - z] == s@[j as int]);
        }
        proof {
            lemma_pow10_increases((j - z + 1) as nat, 33);
            lemma_pow10_33();
            assert(s@.subrange(z as int, j + 1).drop_last() =~= s@.subrange(z as int, j as int));
            assert(pow10((j - z + 1) as nat) == 10 * pow10((j - z) as nat));
            assert(acc * 10 + (d - 48) < pow10((j - z + 1) as nat));
        }
        acc = acc * 10 + ((d - 48) as i128);
        j = j + 1;
    }
    assert(sig =~= s@.subrange(z as int, end as int));
    proof {
        lemma_pow10_increases((end - z) as nat, max_sig as nat);
    }
    Some(acc)
}

/// `pow10` is positive.
pub proof fn lemma_pow10_pos(n: nat)
    ensures
        pow10(n) >= 1,
    decreases n,
{
    if n > 0 {
        lemma_pow10_pos((n - 1) as nat);
    }
}

/// `pow10` is non-decreasing.
pub proof fn lemma_pow10_increases(a: nat, b: nat)
    requires
        a <= b,
    ensures
        1 <= pow10(a) <= pow10(b),
    decreases b,
{
    lemma_pow10_pos(a);
    if a < b {
        lemma_pow10_increases(a, (b - 1) as nat);
    }
}

/// The concrete value of `pow10` at the largest exponent the lexer uses.
pub proof fn lemma_pow10_33()
    ensures
        pow10(33) == 1_000_000_000_000_000_000_000_000_000_000_000int,
        pow10(18) == 1_000_000_000_000_000_000int,
        pow10(19) == 10_000_000_000_000_000_000int,
{
    reveal_with_fuel(pow10, 34);
}

/// Parses an optionally signed integer field, accepting exactly the values
/// `int_of` describes that lie within `[min, max]`.
#[verifier::loop_isolation(false)]
pub fn parse_int(s: &[u8], allow_neg: bool, min: i64, max: i64) -> (r: Option<i64>)
    requires
        -pow10(18) <= min <= max <= pow10(18),
    ensures
        match int_of(s@, allow_neg) {
            Some(v) => if min <= v <= max {
                r == Some(v as i64)
            } else {
                r == None::<i64>
            },
            None => r == None::<i64>,
        },
{
    let n = s.len();
    if n == 0 {
        return None;
    }
    let neg = s[0] == 45;
    let signed = s[0] == 43 || s[0] == 45;
    let start: usize = if signed {
        1
    } else {
        0
    };
    if neg && !allow_neg {
        return None;
    }
    if start >= n {
        return None;
    }
    let ghost t = if signed {
        s@.skip(1)
    } else {
        s@
    };
    proof {
        assert(t =~= s@.subrange(start as int, n as int));
    }
    let mut i = start;
    while i < n
        invariant
            start <= i <= n,
            n == s@.len(),
            forall|j: int| start <= j < i ==> is_digit(#[trigger] s@[j]),
        decreases n - i,
    {
        if !is_digit_byte(s[i]) {
            assert(!all_digits(t)) by {
                assert(t[i - start] == s@[i as int]);
            }
            return None;
        }
        i = i + 1;
    }
    assert(all_digits(t)) by {
        assert(forall|j: int| 0 <= j < t.len() ==> t[j] == s@[j + start]);
    }
    let v = digits_value(s, start, n, 19);
    proof {
        lemma_pow10_increases(18, 19);
    }
    match v {
        None => {
            return None;
        },
        Some(x) => {
            let sv: i128 = if neg {
                -x
            } else {
                x
            };
            if sv < min as i128 || sv > max as i128 {
                return None;
            }
            Some(sv as i64)
        },
    }
}

/// Parses an optionally signed decimal field: the mantissa and the count of
/// fractional digits, accepting exactly the values `dec_of` describes whose
/// mantissa has at most `max_sig` significant digits and at most `max_k`
/// fractional digits.
#[verifier::rlimit(60)]
#[verifier::loop_isolation(false)]
pub fn parse_dec(s: &[u8], max_sig: usize, max_k: usize) -> (r: Option<(i128, usize)>)
    requires
        max_sig <= 33,
    ensures
        match dec_of(s@) {
            Some((m, k)) => if -pow10(max_sig as nat) < m < pow10(max_sig as nat) && k
                <= max_k {
                r == Some((m as i128, k as usize))
            } else {
                r == None::<(i128, usize)>
            },
            None => r == None::<(i128, usize)>,
        },
{
    let n = s.len();
    if n == 0 {
        return None;
    }
    let neg = s[0] == 45;
    let signed = s[0] == 43 || s[0] == 45;
    let start: usize = if signed {
        1
    } else {
        0
    };
    let ghost t = if signed {
        s@.skip(1)
    } else {
        s@
    };
    proof {
        assert(t =~= s@.subrange(start as int, n as int));
        assert(t =~= s@.skip(start as int));
    }
    let dot = find_byte(s, start, 46);
    proof {
        lemma_scan_shift(s@, start as int, 46);
        lemma_scan_props(t, 0, 46);
    }
    let ghost sdot = scan(t, 0, 46);
    // dot == start + sdot
    let ip_end = dot;
    let fp_start: usize = if dot < n {
        dot + 1
    } else {
        n
    };
    let ghost ip = t.subrange(0, sdot);
    let ghost fp = if sdot < t.len() {
        t.subrange(sdot + 1, t.len() as int)
    } else {
        Seq::empty()
    };
    proof {
        assert(ip =~= s@.subrange(start as int, ip_end as int));
        assert(fp =~= s@.subrange(fp_start as int, n as int));
    }
    if ip_end - start == 0 && n - fp_start == 0 {
        return None;
    }
    // every byte of both parts must be a digit
    let mut i = start;
    while i < ip_end
        invariant
            start <= i <= ip_end <= n,
            n == s@.len(),
            forall|j: int| start <= j < i ==> is_digit(#[trigger] s@[j]),
        decreases ip_end - i,
    {
        if !is_digit_byte(s[i]) {
            assert(!all_digits(ip)) by {
                assert(ip[i - start] == s@[i as int]);
            }
            return None;
        }
        i = i + 1;
    }
    assert(all_digits(ip)) by {
        assert(forall|j: int| 0 <= j < ip.len() ==> ip[j] == s@[j + start]);
    }
    let mut i2 = fp_start;
    while i2 < n
        invariant
            fp_start <= i2 <= n,
            n == s@.len(),
            forall|j: int| fp_start <= j < i2 ==> is_digit(#[trigger] s@[j]),
        decreases n - i2,
    {
        if !is_digit_byte(s[i2]) {
            assert(!all_digits(fp)) by {
                assert(fp[i2 - fp_start] == s@[i2 as int]);
            }
            return None;
        }
        i2 = i2 + 1;
    }
    assert(all_digits(fp)) by {
        assert(forall|j: int| 0 <= j < fp.len() ==> fp[j] == s@[j + fp_start]);
    }
    let k = n - fp_start;
    if k > max_k {
        return None;
    }
    // copy both digit runs into one buffer
    let mut buf: Vec<u8> = Vec::new();
    let mut p = start;
    while p < ip_end
        invariant
            start <= p <= ip_end <= n,
            n == s@.len(),
            buf@ =~= s@.subrange(start as int, p as int),
        decreases ip_end - p,
    {
        buf.push(s[p]);
        assert(buf@ =~= s@.subrange(start as int, p + 1));
        p = p + 1;
    }
    let mut q = fp_start;
    while q < n
        invariant
            fp_start <= q <= n,
            n == s@.len(),
            ip_end <= n,
            start <= ip_end,
            buf@ =~= s@.subrange(start as int, ip_end as int) + s@.subrange(
                fp_start as int,
                q as int,
            ),
        decreases n - q,
    {
        buf.push(s[q]);
        assert(buf@ =~= s@.subrange(start as int, ip_end as int) + s@.subrange(
            fp_start as int,
            q + 1,
        ));
        q = q + 1;
    }
    assert(buf@ =~= ip + fp);
    let v = digits_value(buf.as_slice(), 0, buf.len(), max_sig);
    proof {
        assert(buf@.subrange(0, buf@.len() as int) =~= buf@);
    }
    match v {
        None => None,
        Some(x) => {
            let m: i128 = if neg {
                -x
            } else {
                x
            };
            Some((m, k))
        },
    }
}

/// Scanning from inside a shifted suffix matches scanning the suffix.
proof fn lemma_scan_shift(s: Seq<u8>, off: int, b: u8)
    requires
        0 <= off <= s.len(),
    ensures
        scan(s, off, b) == off + scan(s.skip(off), 0, b),
{
    lemma_scan_shift_rec(s, off, off, b);
}

proof fn lemma_scan_shift_rec(s: Seq<u8>, off: int, i: int, b: u8)
    requires
        0 <= off <= i <= s.len(),
    ensures
        scan(s, i, b) == off + scan(s.skip(off), i - off, b),
    decreases s.len() - i,
{
    let t = s.skip(off);
    if i >= s.len() {
    } else {
        assert(t[i - off] == s[i]);
        if s[i] != b {
            lemma_scan_shift_rec(s, off, i + 1, b);
        }
    }
}

} // verus!
