//! Wall time along the conveyor.
//!
//! A `Time` is a count of microseconds. The beatmap text gives times in
//! milliseconds with at most three fractional digits, so microseconds carry
//! every parsed value exactly. The millisecond and second projections round
//! half to even.

use vstd::prelude::*;

verus! {

/// Largest magnitude, in microseconds, that a well-formed `Time` may hold.
/// Roughly thirty-one years; every parsed or clock-derived time is far below.
pub const MAX_TIME_US: i64 = 1_000_000_000_000_000;

/// A point in time, counted in microseconds.
#[derive(Clone, Copy, Debug, PartialEq, Eq, Structural)]
pub struct Time {
    pub us: i64,
}

/// Half-to-even rounding of `us / d` for positive `d`, as a function.
pub open spec fn round_half_even(us: int, d: int) -> int
    recommends
        d > 0,
{
    let q = us / d;
    let r = us % d;
    if 2 * r < d {
        q
    } else if 2 * r > d {
        q + 1
    } else if q % 2 == 0 {
        q
    } else {
        q + 1
    }
}

impl Time {
    /// Well-formed: the magnitude leaves room for every arithmetic step the
    /// engine performs.
    pub open spec fn wf(self) -> bool {
        -MAX_TIME_US <= self.us <= MAX_TIME_US
    }

    /// The number of microseconds this time stands for.
    pub open spec fn view(self) -> int {
        self.us as int
    }

    pub fn zero() -> (r: Time)
        ensures
            r@ == 0,
            r.wf(),
    {
        Time { us: 0 }
    }

    pub fn from_us(us: i64) -> (r: Time)
        requires
            -MAX_TIME_US <= us <= MAX_TIME_US,
        ensures
            r@ == us as int,
            r.wf(),
    {
        Time { us }
    }

    pub fn from_ms(ms: i64) -> (r: Time)
        requires
            -1_000_000_000_000 <= ms <= 1_000_000_000_000,
        ensures
            r@ == ms * 1000,
            r.wf(),
    {
        Time { us: ms * 1000 }
    }

    pub fn from_seconds(seconds: i64) -> (r: Time)
        requires
            -1_000_000_000 <= seconds <= 1_000_000_000,
        ensures
            r@ == seconds * 1_000_000,
            r.wf(),
    {
        Time { us: seconds * 1_000_000 }
    }

    pub fn as_us(self) -> (r: i64)
        ensures
            r as int == self@,
    {
        self.us
    }

    /// Projection to whole milliseconds, rounding half to even.
    pub fn to_ms(self) -> (r: i64)
        requires
            self.wf(),
        ensures
            r as int == round_half_even(self@, 1000),
            -1_000_000_000_000 <= r <= 1_000_000_000_001,
    {
        let r = round_div(self.us, 1000);
        proof {
            vstd::arithmetic::div_mod::lemma_div_is_ordered(
                self.us as int,
                MAX_TIME_US as int,
                1000,
            );
            vstd::arithmetic::div_mod::lemma_div_is_ordered(
                -MAX_TIME_US as int,
                self.us as int,
                1000,
            );
        }
        r
    }

    /// Projection to whole seconds, rounding half to even.
    pub fn to_seconds(self) -> (r: i64)
        requires
            self.wf(),
        ensures
            r as int == round_half_even(self@, 1_000_000),
    {
        round_div(self.us, 1_000_000)
    }

    /// Exact sum of two times.
    pub fn add(self, rhs: Time) -> (r: Time)
        requires
            -MAX_TIME_US <= self@ + rhs@ <= MAX_TIME_US,
        ensures
            r@ == self@ + rhs@,
            r.wf(),
    {
        Time { us: self.us + rhs.us }
    }

    /// Exact difference of two times.
    pub fn sub(self, rhs: Time) -> (r: Time)
        requires
            -MAX_TIME_US <= self@ - rhs@ <= MAX_TIME_US,
        ensures
            r@ == self@ - rhs@,
            r.wf(),
    {
        Time { us: self.us - rhs.us }
    }

    /// Product of the two second values, rounded half to even to the nearest
    /// microsecond: in microseconds, `a * b / 10^6`.
    pub fn mul(self, rhs: Time) -> (r: Time)
        requires
            -(MAX_TIME_US - 1) * 1_000_000 <= self@ * rhs@ <= (MAX_TIME_US - 1) * 1_000_000,
        ensures
            r@ == round_half_even(self@ * rhs@, 1_000_000),
            r.wf(),
    {
        let p: i128 = (self.us as i128) * (rhs.us as i128);
        let q = round_div_wide(p, 1_000_000);
        proof {
            vstd::arithmetic::div_mod::lemma_div_is_ordered(
                p as int,
                (MAX_TIME_US - 1) as int * 1_000_000,
                1_000_000,
            );
            vstd::arithmetic::div_mod::lemma_div_is_ordered(
                -(MAX_TIME_US - 1) as int * 1_000_000,
                p as int,
                1_000_000,
            );
            vstd::arithmetic::div_mod::lemma_div_multiples_vanish(
                (MAX_TIME_US - 1) as int,
                1_000_000,
            );
            vstd::arithmetic::div_mod::lemma_div_multiples_vanish(
                -(MAX_TIME_US - 1) as int,
                1_000_000,
            );
        }
        Time { us: q as i64 }
    }

    /// Quotient of the two second values, rounded half to even to the
    /// nearest microsecond: in microseconds, `a * 10^6 / b`.
    pub fn div(self, rhs: Time) -> (r: Time)
        requires
            self.wf(),
            rhs.wf(),
            rhs@ != 0,
            rhs@ > 0 ==> -(MAX_TIME_US - 1) * rhs@ <= self@ * 1_000_000 <= (MAX_TIME_US - 1)
                * rhs@,
            rhs@ < 0 ==> (MAX_TIME_US - 1) * rhs@ <= self@ * 1_000_000 <= -((MAX_TIME_US - 1)
                * rhs@),
        ensures
            r@ == round_ratio(self@, rhs@),
            r.wf(),
    {
        let a: i128 = (self.us as i128) * 1_000_000;
        let p: i128;
        let d: i128;
        if rhs.us > 0 {
            p = a;
            d = rhs.us as i128;
        } else {
            p = -a;
            d = -(rhs.us as i128);
        }
        let q = round_div_wide(p, d);
        proof {
            assert(p <= (MAX_TIME_US - 1) as int * d) by (nonlinear_arith)
                requires
                    d > 0,
                    (rhs@ > 0 ==> p == self@ * 1_000_000 && d == rhs@ && self@ * 1_000_000 <= (
                    MAX_TIME_US - 1) * rhs@),
                    (rhs@ < 0 ==> p == -(self@ * 1_000_000) && d == -rhs@ && (MAX_TIME_US - 1)
                        * rhs@ <= self@ * 1_000_000),
                    rhs@ != 0,
            ;
            assert(-((MAX_TIME_US - 1) as int * d) <= p) by (nonlinear_arith)
                requires
                    d > 0,
                    (rhs@ > 0 ==> p == self@ * 1_000_000 && d == rhs@ && -(MAX_TIME_US - 1)
                        * rhs@ <= self@ * 1_000_000),
                    (rhs@ < 0 ==> p == -(self@ * 1_000_000) && d == -rhs@ && self@ * 1_000_000
                        <= -((MAX_TIME_US - 1) * rhs@)),
                    rhs@ != 0,
            ;
            vstd::arithmetic::div_mod::lemma_div_is_ordered(
                p as int,
                (MAX_TIME_US - 1) as int * d as int,
                d as int,
            );
            vstd::arithmetic::div_mod::lemma_div_is_ordered(
                -(MAX_TIME_US - 1) as int * d as int,
                p as int,
                d as int,
            );
            vstd::arithmetic::div_mod::lemma_div_multiples_vanish(
                (MAX_TIME_US - 1) as int,
                d as int,
            );
            vstd::arithmetic::div_mod::lemma_div_multiples_vanish(
                -((MAX_TIME_US - 1) as int),
                d as int,
            );
            assert(d as int * ((MAX_TIME_US - 1) as int) == (MAX_TIME_US - 1) as int * d as int)
                by (nonlinear_arith);
            assert(p as int / d as int <= (MAX_TIME_US - 1) as int);
            vstd::arithmetic::div_mod::lemma_fundamental_div_mod(p as int, d as int);
            vstd::arithmetic::div_mod::lemma_mod_bound(p as int, d as int);
            assert(-((MAX_TIME_US - 1) as int) <= p as int / d as int) by (nonlinear_arith)
                requires
                    d as int > 0,
                    -((MAX_TIME_US - 1) as int * d as int) <= p as int,
                    p as int == d as int * (p as int / d as int) + (p as int % d as int),
                    0 <= p as int % d as int,
                    (p as int % d as int) < (d as int),
            ;
            assert(q as int <= MAX_TIME_US as int);
            assert(-(MAX_TIME_US as int) <= q as int);
        }
        Time { us: q as i64 }
    }
}

/// The quotient of two microsecond values as microseconds-per-second,
/// rounded half to even, with the divisor's sign normalized away.
pub open spec fn round_ratio(a: int, b: int) -> int
    recommends
        b != 0,
{
    if b > 0 {
        round_half_even(a * 1_000_000, b)
    } else {
        round_half_even(-(a * 1_000_000), -b)
    }
}

impl Default for Time {
    fn default() -> (r: Time)
        ensures
            r@ == 0,
            r.wf(),
    {
        Time { us: 0 }
    }
}

/// Round trip through milliseconds: a time built from whole milliseconds
/// projects back to exactly those milliseconds. With `from_ms` storing
/// `ms * 1000` microseconds and `to_ms` rounding by `round_half_even`, a
/// whole input rounds to itself.
pub proof fn lemma_time_ms_round_trip(ms: int)
    ensures
        round_half_even(ms * 1000, 1000) == ms,
{
    vstd::arithmetic::div_mod::lemma_fundamental_div_mod_converse(ms * 1000, 1000, ms, 0);
}

/// Rounds `p / d` half to even for positive `d`, on wide signed input.
fn round_div_wide(p: i128, d: i128) -> (r: i128)
    requires
        0 < d <= MAX_TIME_US as i128,
        -2_000_000_000_000_000_000_000 <= p <= 2_000_000_000_000_000_000_000,
    ensures
        r as int == round_half_even(p as int, d as int),
{
    if p >= 0 {
        round_div_wide_nonneg(p as u128, d as u128) as i128
    } else {
        let m = round_div_wide_nonneg((-p) as u128, d as u128) as i128;
        proof {
            lemma_round_half_even_neg(p as int, d as int);
        }
        -m
    }
}

/// Rounds `p / d` half to even on wide unsigned input.
fn round_div_wide_nonneg(p: u128, d: u128) -> (r: u128)
    requires
        0 < d <= MAX_TIME_US as u128,
        p <= 2_000_000_000_000_000_000_000,
    ensures
        r as int == round_half_even(p as int, d as int),
{
    let q = p / d;
    let rem = p % d;
    if 2 * rem < d {
        q
    } else if 2 * rem > d {
        q + 1
    } else if q % 2 == 0 {
        q
    } else {
        q + 1
    }
}

/// Rounds `us / d` half to even for positive `d`, on signed input.
fn round_div(us: i64, d: i64) -> (r: i64)
    requires
        0 < d <= 1_000_000,
        -MAX_TIME_US <= us <= MAX_TIME_US,
    ensures
        r as int == round_half_even(us as int, d as int),
{
    if us >= 0 {
        round_div_nonneg(us as u64, d as u64) as i64
    } else {
        let m = round_div_nonneg((-us) as u64, d as u64) as i64;
        proof {
            lemma_round_half_even_neg(us as int, d as int);
        }
        -m
    }
}

/// Rounds `us / d` half to even on unsigned input.
fn round_div_nonneg(us: u64, d: u64) -> (r: u64)
    requires
        0 < d <= 1_000_000,
        us <= MAX_TIME_US as u64,
    ensures
        r as int == round_half_even(us as int, d as int),
{
    let q = us / d;
    let rem = us % d;
    if 2 * rem < d {
        q
    } else if 2 * rem > d {
        q + 1
    } else if q % 2 == 0 {
        q
    } else {
        q + 1
    }
}

/// Half-to-even rounding is odd: negating the argument negates the result.
proof fn lemma_round_half_even_neg(us: int, d: int)
    requires
        d > 0,
        us < 0,
    ensures
        round_half_even(us, d) == -round_half_even(-us, d),
{
    let q = us / d;
    let r = us % d;
    vstd::arithmetic::div_mod::lemma_fundamental_div_mod(us, d);
    vstd::arithmetic::div_mod::lemma_mod_bound(us, d);
    if r == 0 {
        assert(-us == (-q) * d + 0) by (nonlinear_arith)
            requires
                us == d * q + r,
                r == 0,
        ;
        vstd::arithmetic::div_mod::lemma_fundamental_div_mod_converse(-us, d, -q, 0);
    } else {
        assert(-us == (-q - 1) * d + (d - r)) by (nonlinear_arith)
            requires
                us == d * q + r,
        ;
        vstd::arithmetic::div_mod::lemma_fundamental_div_mod_converse(-us, d, -q - 1, d - r);
    }
}

} // verus!
