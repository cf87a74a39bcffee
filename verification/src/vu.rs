//! The VU meter: which segments are lit, and how the reading falls.
//!
//! Levels are in millionths of a decibel below full scale; silence has none.

use vstd::prelude::*;

use crate::millis;

verus! {

/// Segments of the meter.
pub const SEGMENTS: usize = 24;

/// Segments at the bottom, in cream.
pub const CREAM_SEGMENTS: usize = 18;

/// Segments above them, in amber.
pub const AMBER_SEGMENTS: usize = 3;

/// Segments at the top, in red.
pub const RED_SEGMENTS: usize = 3;

/// The first amber segment.
pub const AMBER_START: usize = 18;

/// The first red segment.
pub const RED_START: usize = 21;

/// How fast the reading falls, in dB per second; that is also millionths of a
/// decibel per microsecond.
pub const DECAY_DB_PER_SEC: u64 = 12;

/// How fast the peak marker falls, in dB per second.
pub const HOLD_DECAY_DB_PER_SEC: u64 = 4;

/// Readings at or below this level are silence, in dB.
pub const FLOOR_DB: i64 = -60;

/// Millionths of a decibel in a decibel.
pub const MICROS_PER_DB: i64 = 1_000_000;

/// The level in dB from which on each segment is lit, from the bottom up.
pub const SEGMENT_DB: [i64; 24] = [
    -120,
    -60,
    -57,
    -54,
    -51,
    -48,
    -45,
    -42,
    -39,
    -36,
    -33,
    -30,
    -27,
    -24,
    -21,
    -18,
    -15,
    -12,
    -9,
    -7,
    -5,
    -3,
    -2,
    -1,
];

/// A level, or silence.
pub type Level = Option<i64>;

/// The order of levels: silence lies below all.
pub open spec fn at_most(a: Level, b: Level) -> bool {
    match (a, b) {
        (None, _) => true,
        (Some(_), None) => false,
        (Some(x), Some(y)) => x <= y,
    }
}

/// Whether a level reaches a threshold in dB.
pub open spec fn reaches(level: Level, db: i64) -> bool {
    match level {
        Some(l) => l >= db * MICROS_PER_DB,
        None => false,
    }
}

/// How many of the first `n` segments a level lights.
pub open spec fn lit_among(level: Level, n: nat) -> nat
    decreases n,
{
    if n == 0 {
        0
    } else {
        lit_among(level, (n - 1) as nat) + (if reaches(level, SEGMENT_DB@[n - 1]) {
            1nat
        } else {
            0
        })
    }
}

/// How many segments a level lights.
pub open spec fn lit(level: Level) -> nat {
    lit_among(level, SEGMENTS as nat)
}

/// The threshold of a segment.
pub fn segment_db(i: usize) -> (db: i64)
    requires
        i < SEGMENTS,
    ensures
        db == SEGMENT_DB@[i as int],
{
    SEGMENT_DB[i]
}

/// The number of lit segments at a level.
pub fn vu_segments(level: Level) -> (n: usize)
    ensures
        n == lit(level),
        n <= SEGMENTS,
{
    let level: i64 = match level {
        Some(l) => l,
        None => {
            proof {
                silence_is_dark(SEGMENTS as nat);
            }
            return 0;
        },
    };
    let mut n: usize = 0;
    while n < SEGMENTS && level >= SEGMENT_DB[n] * MICROS_PER_DB
        invariant
            n <= SEGMENTS,
            lit_among(Some(level), n as nat) == n,
            SEGMENT_DB@.len() == SEGMENTS,
            forall|i: int| 0 <= i < SEGMENTS ==> -120 <= #[trigger] SEGMENT_DB@[i] <= 0,
        decreases SEGMENTS - n,
    {
        n = n + 1;
    }
    proof {
        lemma_no_more_lit(Some(level), n as nat, SEGMENTS as nat);
    }
    n
}

/// The colour of the topmost lit segment.
#[derive(Debug, Clone, Copy, PartialEq, Eq, Structural)]
pub enum Zone {
    Off,
    Cream,
    Amber,
    Red,
}

/// The zone of so many lit segments.
pub open spec fn zone_of(lit: nat) -> Zone {
    if lit == 0 {
        Zone::Off
    } else if lit <= CREAM_SEGMENTS {
        Zone::Cream
    } else if lit <= CREAM_SEGMENTS + AMBER_SEGMENTS {
        Zone::Amber
    } else {
        Zone::Red
    }
}

/// The zone of a level.
pub fn zone_for(level: Level) -> (z: Zone)
    ensures
        z == zone_of(lit(level)),
{
    let n: usize = vu_segments(level);
    if n == 0 {
        Zone::Off
    } else if n <= CREAM_SEGMENTS {
        Zone::Cream
    } else if n <= CREAM_SEGMENTS + AMBER_SEGMENTS {
        Zone::Amber
    } else {
        Zone::Red
    }
}

/// A level no louder than full scale.
pub open spec fn capped(level: Level) -> Level {
    match level {
        Some(l) => Some(
            if l > 0 {
                0
            } else {
                l
            },
        ),
        None => None,
    }
}

/// A level after it fell for `dt` microseconds at `rate` dB per second. At the
/// floor it is silence.
pub open spec fn fallen(level: Level, rate: u64, dt: u64) -> Level {
    match level {
        Some(l) => if l - rate * dt <= FLOOR_DB * MICROS_PER_DB {
            None
        } else {
            Some((l - rate * dt) as i64)
        },
        None => None,
    }
}

/// A reading after `dt` microseconds: it rises to a new peak at once, and falls
/// otherwise.
pub open spec fn moved(reading: Level, peak: Level, rate: u64, dt: u64) -> Level {
    if at_most(reading, peak) {
        peak
    } else {
        fallen(reading, rate, dt)
    }
}

/// The peak marker after `dt` microseconds: it moves like the reading, but falls
/// more slowly, and never below the reading.
pub open spec fn held(b: VuBallistics, peak: Level, dt: u64) -> Level {
    let level = moved(b.level, peak, DECAY_DB_PER_SEC, dt);
    let hold = moved(b.peak_hold, peak, HOLD_DECAY_DB_PER_SEC, dt);
    if at_most(hold, level) {
        level
    } else {
        hold
    }
}

/// The reading of the meter and its peak marker.
#[derive(Debug, Clone, Copy, PartialEq, Eq, Structural)]
pub struct VuBallistics {
    pub level: Level,
    pub peak_hold: Level,
}

impl Default for VuBallistics {
    fn default() -> (b: Self)
        ensures
            b == (VuBallistics { level: None, peak_hold: None }),
    {
        VuBallistics { level: None, peak_hold: None }
    }
}

/// Whether a reading is no higher than a new peak.
fn is_at_most(a: Level, b: Level) -> (r: bool)
    ensures
        r == at_most(a, b),
{
    match a {
        None => true,
        Some(x) => match b {
            None => false,
            Some(y) => x <= y,
        },
    }
}

/// Lets a level fall.
fn fall(level: Level, rate: u64, dt: u64) -> (r: Level)
    requires
        rate <= DECAY_DB_PER_SEC,
        at_most(level, Some(0)),
    ensures
        r == fallen(level, rate, dt),
{
    match level {
        None => None,
        Some(l) => {
            assert(rate * dt <= 12 * 0xFFFF_FFFF_FFFF_FFFF) by (nonlinear_arith)
                requires
                    rate <= 12,
                    dt <= 0xFFFF_FFFF_FFFF_FFFF,
                    0 <= rate,
                    0 <= dt,
            ;
            let drop: u128 = rate as u128 * dt as u128;
            let next: i128 = l as i128 - drop as i128;
            if next <= (FLOOR_DB * MICROS_PER_DB) as i128 {
                None
            } else {
                Some(next as i64)
            }
        },
    }
}

impl VuBallistics {
    /// No reading is louder than full scale, and the marker is never below the
    /// reading.
    pub open spec fn wf(self) -> bool {
        &&& at_most(self.level, self.peak_hold)
        &&& at_most(self.peak_hold, Some(0))
    }

    /// A meter that shows a level.
    pub fn new(level: Level) -> (b: Self)
        requires
            at_most(level, Some(0)),
        ensures
            b.wf(),
            b == (VuBallistics { level, peak_hold: level }),
    {
        VuBallistics { level, peak_hold: level }
    }

    /// The reading.
    pub fn level(&self) -> (l: Level)
        ensures
            l == self.level,
    {
        self.level
    }

    /// The peak marker.
    pub fn hold_level(&self) -> (l: Level)
        ensures
            l == self.peak_hold,
    {
        self.peak_hold
    }

    /// The segments up to the peak marker.
    pub fn hold_segments(&self) -> (n: usize)
        ensures
            n == lit(self.peak_hold),
    {
        vu_segments(self.peak_hold)
    }

    /// Takes in the peak of the last `dt` microseconds and gives the reading.
    pub fn update(&mut self, peak: Level, dt: u64) -> (l: Level)
        requires
            old(self).wf(),
        ensures
            final(self).wf(),
            *final(self) == (VuBallistics {
                level: moved(old(self).level, capped(peak), DECAY_DB_PER_SEC, dt),
                peak_hold: held(*old(self), capped(peak), dt),
            }),
            l == final(self).level,
    {
        let peak: Level = match peak {
            Some(l) => Some(
                if l > 0 {
                    0
                } else {
                    l
                },
            ),
            None => None,
        };
        self.level = if is_at_most(self.level, peak) {
            peak
        } else {
            fall(self.level, DECAY_DB_PER_SEC, dt)
        };
        let hold: Level = if is_at_most(self.peak_hold, peak) {
            peak
        } else {
            fall(self.peak_hold, HOLD_DECAY_DB_PER_SEC, dt)
        };
        self.peak_hold = if is_at_most(hold, self.level) {
            self.level
        } else {
            hold
        };
        self.level
    }
}

/// A packet rate: so many packets in so many microseconds.
#[derive(Debug, Clone, Copy, PartialEq, Eq, Structural)]
pub struct PacketRate {
    pub packets: u64,
    pub micros: u64,
}

/// No packets.
pub open spec fn no_rate() -> PacketRate {
    PacketRate { packets: 0, micros: 1_000_000 }
}

/// The rate of `received` packets in `dt` microseconds; none in no time.
pub open spec fn rate_of(received: u64, dt: i64) -> PacketRate {
    if dt <= 0 {
        no_rate()
    } else {
        PacketRate { packets: received, micros: dt as u64 }
    }
}

impl Default for PacketRate {
    fn default() -> (r: Self)
        ensures
            r == no_rate(),
    {
        PacketRate { packets: 0, micros: 1_000_000 }
    }
}

impl PacketRate {
    /// Packets per second, to the nearest whole number.
    pub open spec fn per_second(self) -> int {
        if self.micros == 0 {
            0
        } else {
            millis::round_div(self.packets * 1_000_000, self.micros as int)
        }
    }

    /// Packets per second, to the nearest whole number.
    pub fn rounded(&self) -> (n: u128)
        ensures
            n == self.per_second(),
    {
        if self.micros == 0 {
            return 0;
        }
        let n: u128 = self.packets as u128 * 1_000_000;
        let d: u128 = self.micros as u128;
        let q: u128 = n / d;
        let r: u128 = n % d;
        if 2 * r > d || (2 * r == d && q % 2 == 1) {
            q + 1
        } else {
            q
        }
    }
}

/// The packet rate of a counter that rose in `dt` microseconds; none in no time.
pub fn pps(received_delta: u64, dt: i64) -> (rate: PacketRate)
    ensures
        rate == rate_of(received_delta, dt),
{
    if dt <= 0 {
        PacketRate::default()
    } else {
        PacketRate { packets: received_delta, micros: dt as u64 }
    }
}

/// What colours the parts of the display have.
#[derive(Debug, Clone, Copy, PartialEq, Eq, Structural)]
pub enum Tone {
    /// The tone of what is off.
    Line,
    /// The tone of what is secondary.
    Dim,
    /// The tone of what is shown.
    Cream,
    /// The tone of what is active.
    Amber,
    /// The tone of the lamp and of clipping.
    Tally,
}

/// The tone of segment `i` with `lit` segments lit and the marker at `hold`
/// segments. The marker is one segment, and shows only while audio flows.
pub open spec fn tone_of_segment(i: nat, lit: nat, hold: nat, hot: bool) -> Tone {
    if i < lit {
        if i >= RED_START {
            Tone::Tally
        } else if i >= AMBER_START {
            Tone::Amber
        } else {
            Tone::Cream
        }
    } else if hot && hold > lit && i + 1 == hold {
        Tone::Cream
    } else {
        Tone::Line
    }
}

/// The tone of a segment.
pub fn segment_tone(i: usize, lit: usize, hold: usize, hot: bool) -> (t: Tone)
    ensures
        t == tone_of_segment(i as nat, lit as nat, hold as nat, hot),
{
    if i < lit {
        if i >= RED_START {
            Tone::Tally
        } else if i >= AMBER_START {
            Tone::Amber
        } else {
            Tone::Cream
        }
    } else if hot && hold > lit && i == hold - 1 {
        Tone::Cream
    } else {
        Tone::Line
    }
}

/// The thresholds rise from the bottom up, and the red zone begins at -3 dB.
pub proof fn thresholds_rise(i: int, j: int)
    requires
        0 <= i <= j < SEGMENTS,
    ensures
        SEGMENT_DB@[i] <= SEGMENT_DB@[j],
        SEGMENT_DB@[RED_START as int] == -3,
{
}

/// Silence lights no segment.
pub proof fn silence_is_dark(n: nat)
    ensures
        lit_among(None, n) == 0,
    decreases n,
{
    if n > 0 {
        silence_is_dark((n - 1) as nat);
    }
}

/// Above a segment that is not lit none is lit.
proof fn lemma_no_more_lit(level: Level, k: nat, n: nat)
    requires
        k <= n <= SEGMENTS,
        k < SEGMENTS ==> !reaches(level, SEGMENT_DB@[k as int]),
    ensures
        lit_among(level, n) == lit_among(level, k),
    decreases n,
{
    if n > k {
        lemma_no_more_lit(level, k, (n - 1) as nat);
        thresholds_rise(k as int, n - 1);
    }
}

/// A louder level lights at least as many segments.
pub proof fn louder_lights_more(a: Level, b: Level, n: nat)
    requires
        at_most(a, b),
    ensures
        lit_among(a, n) <= lit_among(b, n) <= n,
    decreases n,
{
    if n > 0 {
        louder_lights_more(a, b, (n - 1) as nat);
    }
}

/// The peak marker never stands below the reading.
pub proof fn marker_never_below_reading(b: VuBallistics)
    requires
        b.wf(),
    ensures
        lit(b.level) <= lit(b.peak_hold) <= SEGMENTS,
{
    louder_lights_more(b.level, b.peak_hold, SEGMENTS as nat);
}

/// How often a silent meter is updated makes no difference to how far it falls.
pub proof fn fall_is_steady(level: Level, rate: u64, first: u64, second: u64)
    requires
        first + second <= u64::MAX,
        rate <= DECAY_DB_PER_SEC,
        at_most(level, Some(0)),
    ensures
        fallen(fallen(level, rate, first), rate, second) == fallen(
            level,
            rate,
            (first + second) as u64,
        ),
{
    assert(rate * (first + second) == rate * first + rate * second) by (nonlinear_arith);
    assert(rate * first >= 0 && rate * second >= 0) by (nonlinear_arith)
        requires
            rate >= 0,
            first >= 0,
            second >= 0,
    ;
}

/// Whatever the new peak, no time lowers the reading by more than 12 dB per second
/// or the marker by more than 4: a peak below them lets them fall at just that
/// rate, and any other peak is taken over at once. Both stay within the peak and
/// what they were.
pub proof fn nothing_falls_faster_than_its_rate(b: VuBallistics, peak: Level, dt: u64)
    requires
        b.wf(),
        at_most(peak, Some(0)),
    ensures
        ({
            let level = moved(b.level, peak, DECAY_DB_PER_SEC, dt);
            let hold = held(b, peak, dt);
            &&& at_most(fallen(b.level, 12, dt), level)
            &&& at_most(fallen(b.peak_hold, 4, dt), hold)
            &&& at_most(b.level, peak) ==> level == peak
            &&& !at_most(b.level, peak) ==> level == fallen(b.level, 12, dt) && at_most(
                level,
                b.level,
            )
            &&& at_most(b.peak_hold, peak) ==> hold == peak
            &&& !at_most(b.peak_hold, peak) ==> at_most(hold, b.peak_hold) && (hold == fallen(
                b.peak_hold,
                4,
                dt,
            ) || hold == level)
            &&& at_most(level, hold)
        }),
{
    assert(12 * dt >= 4 * dt);
}

/// A fall of `rate` dB per second lasts until 60 dB below full scale, which is
/// silence: as long as it lasts, every microsecond takes `rate` millionths of a
/// decibel, and silence stays silence.
pub proof fn fall_ends_in_silence(level: i64, rate: u64, dt: u64)
    requires
        level <= 0,
        rate <= 12,
    ensures
        level - rate * dt > -60_000_000 ==> fallen(Some(level), rate, dt) == Some(
            (level - rate * dt) as i64,
        ),
        level - rate * dt <= -60_000_000 ==> fallen(Some(level), rate, dt) is None,
        fallen(None, rate, dt) is None,
{
}

/// The meter is lit from the bottom up: a segment is lit exactly if the level
/// reaches its threshold.
pub proof fn segments_are_lit_from_the_bottom(level: Level, i: int)
    requires
        0 <= i < SEGMENTS,
    ensures
        i < lit(level) <==> reaches(level, SEGMENT_DB@[i]),
        lit(level) <= SEGMENTS,
        level is Some && level->0 >= 0 ==> lit(level) == 24,
{
    lemma_lit_prefix(level, SEGMENTS as nat);
    let k = lit(level);
    if i < k {
        thresholds_rise(i, k - 1);
    } else {
        if k < SEGMENTS {
            thresholds_rise(k as int, i);
        }
    }
    if level is Some && level->0 >= 0 && k < SEGMENTS {
        assert(reaches(level, SEGMENT_DB@[k as int]));
    }
}

/// The lit ones among the first `n` segments are the lowest ones.
proof fn lemma_lit_prefix(level: Level, n: nat)
    requires
        n <= SEGMENTS,
    ensures
        lit_among(level, n) <= n,
        lit_among(level, n) > 0 ==> reaches(level, SEGMENT_DB@[lit_among(level, n) - 1]),
        lit_among(level, n) < n ==> !reaches(level, SEGMENT_DB@[lit_among(level, n) as int]),
    decreases n,
{
    if n > 0 {
        lemma_lit_prefix(level, (n - 1) as nat);
        let k = lit_among(level, (n - 1) as nat);
        if k < n - 1 {
            thresholds_rise(k as int, n - 1);
        }
    }
}

/// The colour of a level: red from -3 dB on, amber from -9 dB on, cream from
/// -120 dB on, and nothing below that or in silence.
pub proof fn colours_follow_the_level(level: i64)
    ensures
        zone_of(lit(Some(level))) is Red <==> level >= -3_000_000,
        zone_of(lit(Some(level))) is Amber <==> -9_000_000 <= level < -3_000_000,
        zone_of(lit(Some(level))) is Cream <==> -120_000_000 <= level < -9_000_000,
        zone_of(lit(Some(level))) is Off <==> level < -120_000_000,
        zone_of(lit(None)) is Off,
{
    segments_are_lit_from_the_bottom(Some(level), 21);
    segments_are_lit_from_the_bottom(Some(level), 18);
    segments_are_lit_from_the_bottom(Some(level), 0);
    silence_is_dark(SEGMENTS as nat);
}

/// A lit segment has the colour of its zone; of the others at most one is marked,
/// the topmost one that the marker reaches, and only while audio flows.
pub proof fn one_segment_is_marked(i: nat, lit: nat, hold: nat, hot: bool)
    ensures
        tone_of_segment(i, lit, hold, hot) is Line <==> i >= lit && !(hot && i + 1 == hold),
        i < lit && i < 18 ==> tone_of_segment(i, lit, hold, hot) is Cream,
        i < lit && 18 <= i < 21 ==> tone_of_segment(i, lit, hold, hot) is Amber,
        i < lit && 21 <= i ==> tone_of_segment(i, lit, hold, hot) is Tally,
        i >= lit && hot && i + 1 == hold ==> tone_of_segment(i, lit, hold, hot) is Cream,
{
}

/// The rate is the counted packets over the time they took, and its whole number
/// of packets per second is off by half a packet at most.
pub proof fn rate_is_packets_over_time(received: u64, dt: i64)
    ensures
        dt > 0 ==> ({
            let r = rate_of(received, dt);
            &&& r.packets == received && r.micros == dt
            &&& 2 * r.per_second() * dt <= 2 * (received * 1_000_000) + dt
            &&& 2 * r.per_second() * dt >= 2 * (received * 1_000_000) - dt
        }),
        dt <= 0 ==> rate_of(received, dt).per_second() == 0,
        rate_of(0, dt).per_second() == 0,
{
    if dt > 0 {
        let a = received * 1_000_000;
        let d = dt as int;
        vstd::arithmetic::div_mod::lemma_fundamental_div_mod(a, d);
        let q = a / d;
        let r = a % d;
        assert(2 * q * d == 2 * (d * q)) by (nonlinear_arith);
        assert(2 * (q + 1) * d == 2 * (d * q) + 2 * d) by (nonlinear_arith);
        assert(0int / d == 0 && 0int % d == 0) by (nonlinear_arith)
            requires
                d > 0,
        ;
    }
}

/// A meter gives the reading it then has. It takes a peak over that lies above it,
/// full scale at most; otherwise its reading falls by 12 dB per second and its
/// marker by 4, whatever sound there is, and the marker never lies below the
/// reading.
pub proof fn meter_rises_at_once_and_falls_slowly(
    b: &mut VuBallistics,
    peak: Level,
    dt: u64,
    reading: Level,
)
    requires
        old(b).wf(),
        call_ensures(VuBallistics::update, (b, peak, dt), reading),
    ensures
        reading == final(b).level,
        at_most(final(b).level, final(b).peak_hold),
        at_most(final(b).peak_hold, Some(0)),
        at_most(fallen(old(b).level, 12, dt), final(b).level),
        at_most(fallen(old(b).peak_hold, 4, dt), final(b).peak_hold),
        at_most(peak, Some(0)) && at_most(old(b).level, peak) ==> final(b).level == peak,
        at_most(peak, Some(0)) && at_most(old(b).peak_hold, peak) ==> final(b).peak_hold == peak,
        peak matches Some(p) && p > 0 ==> final(b).level == Some(0i64),
        !at_most(old(b).level, peak) ==> final(b).level == fallen(old(b).level, 12, dt),
        !at_most(old(b).peak_hold, peak) ==> final(b).peak_hold == fallen(
            old(b).peak_hold,
            4,
            dt,
        ) || final(b).peak_hold == final(b).level,
        peak is None && dt == 0 ==> at_most(final(b).level, old(b).level),
{
    nothing_falls_faster_than_its_rate(*old(b), capped(peak), dt);
}

/// Levels are ordered by their decibels, and silence lies below all of them.
pub proof fn levels_are_ordered(x: i64, y: i64)
    ensures
        at_most(Some(x), Some(y)) <==> x <= y,
        at_most(None, Some(y)),
        at_most(None, None),
        !at_most(Some(x), None),
        x <= 0 ==> capped(Some(x)) == Some(x),
        x > 0 ==> capped(Some(x)) == Some(0i64),
        capped(None) is None,
{
}

/// The thresholds: the lowest segment at -120 dB, then from -60 dB on every 3 dB up to
/// -9 dB, every 2 dB up to -3 dB and every decibel up to -1 dB.
pub proof fn thresholds_of_the_meter(i: usize, db: i64)
    requires
        i < 24,
        call_ensures(segment_db, (i,), db),
    ensures
        i == 0 ==> db == -120,
        1 <= i <= 18 ==> db == -63 + 3 * i,
        18 <= i <= 21 ==> db == -45 + 2 * i,
        21 <= i <= 23 ==> db == -24 + i,
        SEGMENTS == 24,
{
    assert(SEGMENT_DB@[0] == -120 && SEGMENT_DB@[1] == -60 && SEGMENT_DB@[2] == -57);
    assert(SEGMENT_DB@[3] == -54 && SEGMENT_DB@[4] == -51 && SEGMENT_DB@[5] == -48);
    assert(SEGMENT_DB@[6] == -45 && SEGMENT_DB@[7] == -42 && SEGMENT_DB@[8] == -39);
    assert(SEGMENT_DB@[9] == -36 && SEGMENT_DB@[10] == -33 && SEGMENT_DB@[11] == -30);
    assert(SEGMENT_DB@[12] == -27 && SEGMENT_DB@[13] == -24 && SEGMENT_DB@[14] == -21);
    assert(SEGMENT_DB@[15] == -18 && SEGMENT_DB@[16] == -15 && SEGMENT_DB@[17] == -12);
    assert(SEGMENT_DB@[18] == -9 && SEGMENT_DB@[19] == -7 && SEGMENT_DB@[20] == -5);
    assert(SEGMENT_DB@[21] == -3 && SEGMENT_DB@[22] == -2 && SEGMENT_DB@[23] == -1);
}

/// A level lights just the segments whose thresholds it reaches, and its colour is
/// that of the topmost of them.
pub proof fn levels_light_their_segments(level: i64, i: usize, db: i64, n: usize, z: Zone, dark: usize)
    requires
        i < 24,
        call_ensures(segment_db, (i,), db),
        call_ensures(vu_segments, (Some(level),), n),
        call_ensures(zone_for, (Some(level),), z),
        call_ensures(vu_segments, (None,), dark),
    ensures
        i < n <==> level >= db * 1_000_000,
        n <= 24,
        dark == 0,
        z is Red <==> level >= -3_000_000,
        z is Amber <==> -9_000_000 <= level < -3_000_000,
        z is Cream <==> -120_000_000 <= level < -9_000_000,
        z is Off <==> level < -120_000_000,
{
    segments_are_lit_from_the_bottom(Some(level), i as int);
    colours_follow_the_level(level);
    silence_is_dark(SEGMENTS as nat);
}

/// A meter shows its level and its marker, which a new meter has at the same place;
/// a meter that was given none shows silence.
pub proof fn meters_show_what_they_have(
    level: Level,
    b: VuBallistics,
    shown: Level,
    hold: Level,
    n: usize,
    m: usize,
)
    requires
        call_ensures(VuBallistics::new, (level,), b),
        call_ensures(VuBallistics::level, (&b,), shown),
        call_ensures(VuBallistics::hold_level, (&b,), hold),
        call_ensures(VuBallistics::hold_segments, (&b,), n),
        call_ensures(vu_segments, (level,), m),
    ensures
        shown == level,
        hold == level,
        n == m,
{
}

/// The rate of a counter that rose is its rise over the time, to the nearest whole
/// packet per second; there is none where no time passed.
pub proof fn counters_give_rates(rise: u64, dt: i64, rate: PacketRate, n: u128)
    requires
        call_ensures(pps, (rise, dt), rate),
        call_ensures(PacketRate::rounded, (&rate,), n),
    ensures
        dt > 0 ==> 2 * (rise * 1_000_000) - dt <= 2 * n * dt <= 2 * (rise * 1_000_000) + dt,
        dt <= 0 ==> n == 0,
        dt == 1_000_000 ==> n == rise,
{
    rate_is_packets_over_time(rise, dt);
    if dt == 1_000_000 {
        assert(2 * n * dt == n * 2_000_000) by (nonlinear_arith)
            requires
                dt == 1_000_000,
        ;
    }
}

/// A segment of the meter has the tone of its place while it is lit, and of the others
/// only the marker shows, while audio flows.
pub proof fn segments_have_their_tones(i: usize, lit: usize, hold: usize, hot: bool, t: Tone)
    requires
        call_ensures(segment_tone, (i, lit, hold, hot), t),
    ensures
        i < lit && i < 18 ==> t is Cream,
        i < lit && 18 <= i < 21 ==> t is Amber,
        i < lit && 21 <= i ==> t is Tally,
        i >= lit && hot && i + 1 == hold ==> t is Cream,
        i >= lit && !(hot && i + 1 == hold) ==> t is Line,
{
}

/// A meter shows silence at first, and no packets.
pub proof fn displays_start_dark(b: VuBallistics, r: PacketRate, n: u128)
    requires
        call_ensures(VuBallistics::default, (), b),
        call_ensures(PacketRate::default, (), r),
        call_ensures(PacketRate::rounded, (&r,), n),
    ensures
        b.level is None && b.peak_hold is None,
        r.packets == 0,
        n == 0,
{
    rate_is_packets_over_time(0, 1_000_000);
}

/// The zones make up the meter: 18 segments of cream, then 3 of amber, then 3 of red.
pub proof fn zones_make_up_the_meter()
    ensures
        CREAM_SEGMENTS == 18 && AMBER_SEGMENTS == 3 && RED_SEGMENTS == 3,
        CREAM_SEGMENTS + AMBER_SEGMENTS + RED_SEGMENTS == SEGMENTS,
        AMBER_START == CREAM_SEGMENTS,
        RED_START == AMBER_START + AMBER_SEGMENTS,
{
}

} // verus!
