//! Milliseconds of audio, in a unit that samples and microseconds both divide.

use vstd::prelude::*;

use crate::text;
use crate::text::push_decimal;

verus! {

/// Samples per second: 48 kHz mono.
pub const SAMPLE_RATE: usize = 48_000;

/// Ticks in a millisecond.
pub const TICKS_PER_MS: i64 = 6_000;

/// Ticks in a microsecond.
pub const TICKS_PER_MICRO: i64 = 6;

/// Ticks in the time of one sample.
pub const TICKS_PER_SAMPLE: i64 = 125;

/// A duration in milliseconds, kept as a number of ticks of 1/6000 ms. One
/// microsecond and the time of one sample are whole numbers of ticks.
#[derive(Debug, Clone, Copy, PartialEq, Eq, PartialOrd, Ord, Structural)]
pub struct Millis {
    pub ticks: i64,
}

/// `a / b` rounded up.
pub open spec fn ceil_div(a: int, b: int) -> int {
    (a + b - 1) / b
}

/// `a / b` rounded to the nearest whole number, halves to the even one.
pub open spec fn round_div(a: int, b: int) -> int {
    let q = a / b;
    let r = a % b;
    if 2 * r > b || (2 * r == b && q % 2 == 1) {
        q + 1
    } else {
        q
    }
}

/// `x` moved into `lo..=hi`.
pub open spec fn clamped(x: int, lo: int, hi: int) -> int {
    if x < lo {
        lo
    } else if x > hi {
        hi
    } else {
        x
    }
}

/// A duration of `n` tenths of a millisecond as text: `<ms>.<tenth>`.
pub open spec fn tenths_text(n: nat) -> Seq<char> {
    text::decimal(n / 10) + "."@ + text::decimal(n % 10)
}

impl Millis {
    /// The duration in milliseconds as text, rounded to one digit after the
    /// point.
    pub open spec fn text(self) -> Seq<char> {
        if self.ticks < 0 {
            "-"@ + tenths_text(round_div(-self.ticks, 600) as nat)
        } else {
            tenths_text(round_div(self.ticks as int, 600) as nat)
        }
    }

    /// So many whole milliseconds.
    pub fn whole(ms: u32) -> (m: Millis)
        ensures
            m.ticks == ms * TICKS_PER_MS,
    {
        Millis { ticks: ms as i64 * TICKS_PER_MS }
    }

    /// So many microseconds.
    pub fn micros(us: i32) -> (m: Millis)
        ensures
            m.ticks == us * TICKS_PER_MICRO,
    {
        Millis { ticks: us as i64 * TICKS_PER_MICRO }
    }

    /// The time of so many samples.
    pub fn of_samples(n: u32) -> (m: Millis)
        ensures
            m.ticks == n * TICKS_PER_SAMPLE,
    {
        Millis { ticks: n as i64 * TICKS_PER_SAMPLE }
    }

    /// The duration moved into `lo..=hi`.
    pub fn clamp(self, lo: Millis, hi: Millis) -> (m: Millis)
        requires
            lo.ticks <= hi.ticks,
        ensures
            m.ticks == clamped(self.ticks as int, lo.ticks as int, hi.ticks as int),
    {
        if self.ticks < lo.ticks {
            lo
        } else if self.ticks > hi.ticks {
            hi
        } else {
            self
        }
    }

    /// The number of samples that last at least so long.
    pub fn samples_to_cover(self) -> (n: u32)
        requires
            0 <= self.ticks <= u32::MAX * TICKS_PER_SAMPLE,
        ensures
            n == ceil_div(self.ticks as int, TICKS_PER_SAMPLE as int),
    {
        ((self.ticks + (TICKS_PER_SAMPLE - 1)) / TICKS_PER_SAMPLE) as u32
    }

    /// The number of whole samples that fit; none in a negative duration.
    pub fn samples_within(self) -> (n: u64)
        ensures
            n == (if self.ticks < 0 {
                0
            } else {
                self.ticks as int / TICKS_PER_SAMPLE as int
            }),
    {
        if self.ticks < 0 {
            0
        } else {
            (self.ticks / TICKS_PER_SAMPLE) as u64
        }
    }

    /// Appends the duration in milliseconds with one digit after the point.
    pub fn push_tenths(self, out: &mut String)
        ensures
            final(out)@ == old(out)@ + self.text(),
    {
        let size: u128 = if self.ticks < 0 {
            out.append("-");
            (0 - self.ticks as i128) as u128
        } else {
            self.ticks as u128
        };
        let q: u128 = size / 600;
        let r: u128 = size % 600;
        let n: u64 = if 2 * r > 600 || (2 * r == 600 && q % 2 == 1) {
            q as u64 + 1
        } else {
            q as u64
        };
        push_decimal(out, n / 10);
        out.append(".");
        push_decimal(out, n % 10);
        assert(out@ =~= old(out)@ + self.text());
    }
}

/// Samples and durations agree: the samples that cover the time of `n` samples
/// are `n`, and so are those that fit in it.
pub proof fn samples_round_trip(n: nat)
    ensures
        ceil_div((n * TICKS_PER_SAMPLE) as int, TICKS_PER_SAMPLE as int) == n,
        (n * TICKS_PER_SAMPLE) as int / TICKS_PER_SAMPLE as int == n,
{
}

/// A millisecond is 1000 microseconds and 48 samples.
pub proof fn units_agree(ms: u32, samples: u32, m: Millis, n: Millis)
    requires
        call_ensures(Millis::whole, (ms,), m),
        call_ensures(Millis::of_samples, (samples,), n),
    ensures
        samples == 48 * ms ==> m == n,
        samples < 48 * ms ==> n.ticks < m.ticks,
        m.ticks == 1000 * ms * TICKS_PER_MICRO,
        TICKS_PER_MS == 1000 * TICKS_PER_MICRO,
        TICKS_PER_MS == 48 * TICKS_PER_SAMPLE,
        SAMPLE_RATE == 48_000,
{
}

/// So many samples cover a duration, and one fewer would not; so many fit in it,
/// and one more would not.
pub proof fn samples_cover_and_fit(d: Millis, cover: u32, fit: u64)
    requires
        0 <= d.ticks <= u32::MAX * TICKS_PER_SAMPLE,
        call_ensures(Millis::samples_to_cover, (d,), cover),
        call_ensures(Millis::samples_within, (d,), fit),
    ensures
        (cover - 1) * TICKS_PER_SAMPLE < d.ticks <= cover * TICKS_PER_SAMPLE,
        fit * TICKS_PER_SAMPLE <= d.ticks < (fit + 1) * TICKS_PER_SAMPLE,
{
}

/// Rounding moves a quotient by half at most, and to an even number where both
/// neighbours are as near.
pub proof fn rounding_is_to_the_nearest(a: int, b: int)
    requires
        b > 0,
    ensures
        2 * a - b <= 2 * (b * round_div(a, b)) <= 2 * a + b,
        2 * (b * round_div(a, b)) == 2 * a - b || 2 * (b * round_div(a, b)) == 2 * a + b
            ==> round_div(a, b) % 2 == 0,
{
    vstd::arithmetic::div_mod::lemma_fundamental_div_mod(a, b);
    let q = a / b;
    assert(b * (q + 1) == b * q + b) by (nonlinear_arith);
}

/// Clamping gives the nearest value in the range.
pub proof fn clamping_is_to_the_nearest(x: int, lo: int, hi: int, y: int)
    requires
        lo <= y <= hi,
    ensures
        lo <= clamped(x, lo, hi) <= hi,
        lo <= x <= hi ==> clamped(x, lo, hi) == x,
        x < lo ==> clamped(x, lo, hi) <= y,
        x > hi ==> clamped(x, lo, hi) >= y,
        x < lo ==> clamped(x, lo, hi) == lo,
        x > hi ==> clamped(x, lo, hi) == hi,
{
}

/// A duration is told in milliseconds and tenths, off by half a tenth at most, with
/// a sign before it if it is negative.
pub proof fn durations_are_told_in_tenths(m: Millis)
    ensures
        exists|tenths: nat|
            {
                let size = if m.ticks < 0 {
                    -m.ticks
                } else {
                    m.ticks as int
                };
                &&& 2 * size - 600 <= 2 * (600 * tenths) <= 2 * size + 600
                &&& m.text() == (if m.ticks < 0 {
                    "-"@
                } else {
                    Seq::empty()
                }) + (#[trigger] text::decimal(tenths / 10) + "."@ + text::decimal(tenths % 10))
            },
{
    let size = if m.ticks < 0 {
        -m.ticks
    } else {
        m.ticks as int
    };
    rounding_is_to_the_nearest(size, 600);
    let tenths = round_div(size, 600) as nat;
    assert(Seq::<char>::empty() + tenths_text(tenths) =~= tenths_text(tenths));
    assert(tenths_text(tenths) == text::decimal(tenths / 10) + "."@ + text::decimal(tenths % 10));
}

/// A duration is moved into a range only where it lies outside; microseconds make up
/// milliseconds, and a duration is told behind what was there.
pub proof fn durations_are_moved_into_ranges(
    m: Millis,
    lo: Millis,
    hi: Millis,
    r: Millis,
    us: i32,
    u: Millis,
    out: &mut String,
)
    requires
        lo.ticks <= hi.ticks,
        call_ensures(Millis::clamp, (m, lo, hi), r),
        call_ensures(Millis::micros, (us,), u),
        call_ensures(Millis::push_tenths, (m, out), ()),
    ensures
        lo.ticks <= m.ticks <= hi.ticks ==> r == m,
        m.ticks < lo.ticks ==> r == lo,
        m.ticks > hi.ticks ==> r == hi,
        u.ticks * 1000 == us * 6000,
        final(out)@ == old(out)@ + m.text(),
{
}

} // verus!
