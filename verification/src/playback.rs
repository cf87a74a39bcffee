//! The playback callback: from the jitter buffer to the audio graph.
//!
//! Playback emits silence until the prebuffer is filled and streams from then
//! on. A quantum that is filled only in part is normal. Only a read that finds
//! nothing is an underrun: it is counted, and playback goes back to filling the
//! prebuffer.

use vstd::prelude::*;

use crate::jitter;
use crate::jitter::JitterBuffer;

verus! {

/// The most samples that one callback emits.
pub const QUANTUM_SAMPLES: usize = 1024;

/// The level of full scale.
pub const PEAK_SCALE: u32 = 65_535;

/// The level of a sample, with full scale at 65535.
pub open spec fn level(sample: i16) -> u32 {
    if sample == 0 {
        0
    } else if sample < 0 {
        (-2 * sample - 1) as u32
    } else {
        (2 * sample - 1) as u32
    }
}

/// The larger of `floor` and the largest level of the samples.
pub open spec fn peak_over(samples: Seq<i16>, floor: u32) -> u32
    decreases samples.len(),
{
    if samples.len() == 0 {
        floor
    } else {
        let before = peak_over(samples.drop_last(), floor);
        if level(samples.last()) > before {
            level(samples.last())
        } else {
            before
        }
    }
}

/// How many samples a callback emits into `room` places.
pub open spec fn quantum(room: nat) -> nat {
    if room < QUANTUM_SAMPLES {
        room
    } else {
        QUANTUM_SAMPLES as nat
    }
}

/// Whether a callback reads from the buffer.
pub open spec fn reads(streaming: bool, available: nat, target: u32) -> bool {
    streaming || available >= target
}

/// How many samples a callback reads.
pub open spec fn taken(streaming: bool, contents: Seq<i16>, target: u32, room: nat) -> nat {
    if reads(streaming, contents.len(), target) {
        jitter::popped(contents, quantum(room))
    } else {
        0
    }
}

/// Whether a callback is an underrun: it reads, has room, and finds nothing.
pub open spec fn runs_dry(streaming: bool, contents: Seq<i16>, target: u32, room: nat) -> bool {
    reads(streaming, contents.len(), target) && quantum(room) > 0 && contents.len() == 0
}

/// What a callback emits: the samples it reads, then silence.
pub open spec fn emitted(streaming: bool, contents: Seq<i16>, target: u32, room: nat) -> Seq<i16> {
    let n = taken(streaming, contents, target, room);
    contents.take(n as int) + Seq::new((quantum(room) - n) as nat, |i: int| 0i16)
}

/// Whether playback streams after a callback.
pub open spec fn streams_after(
    streaming: bool,
    contents: Seq<i16>,
    target: u32,
    room: nat,
) -> bool {
    reads(streaming, contents.len(), target) && !runs_dry(streaming, contents, target, room)
}

/// The state of playback.
pub struct Playback {
    /// Set once the prebuffer is filled, until an underrun.
    pub streaming: bool,
    /// The largest level since it was taken last.
    pub peak: u32,
}

/// What a callback does to playback, the buffer and the places it writes to.
pub open spec fn was_processed(
    p: Playback,
    b: JitterBuffer<i16>,
    target: u32,
    out: Seq<i16>,
    after_p: Playback,
    after_b: JitterBuffer<i16>,
    after_out: Seq<i16>,
    written: usize,
) -> bool {
    let n = taken(p.streaming, b@, target, out.len());
    &&& written == quantum(out.len())
    &&& after_out == emitted(p.streaming, b@, target, out.len()) + out.skip(written as int)
    &&& after_p.streaming == streams_after(p.streaming, b@, target, out.len())
    &&& after_p.peak == peak_over(b@.take(n as int), p.peak)
    &&& after_b@ == b@.skip(n as int)
    &&& after_b.size() == b.size()
    &&& after_b.overrun_count() == b.overrun_count()
    &&& after_b.underrun_count() == (if runs_dry(p.streaming, b@, target, out.len()) {
        b.underrun_count().wrapping_add(1)
    } else {
        b.underrun_count()
    })
}

impl Playback {
    /// Playback that fills its prebuffer first.
    pub fn new() -> (p: Self)
        ensures
            p == (Playback { streaming: false, peak: 0 }),
    {
        Playback { streaming: false, peak: 0 }
    }

    /// One callback: writes at most one quantum to the front of `out` and says
    /// how many places it wrote. `target` is the prebuffer in samples.
    pub fn process(
        &mut self,
        buffer: &mut JitterBuffer<i16>,
        target: u32,
        out: &mut [i16],
    ) -> (written: usize)
        requires
            old(buffer).wf(),
        ensures
            final(buffer).wf(),
            was_processed(
                *old(self),
                *old(buffer),
                target,
                old(out)@,
                *final(self),
                *final(buffer),
                final(out)@,
                written,
            ),
    {
        broadcast use JitterBuffer::contents_fit;

        let room: usize = out.len();
        let fill: usize = if room < QUANTUM_SAMPLES {
            room
        } else {
            QUANTUM_SAMPLES
        };
        let ghost contents = buffer@;
        let ghost given = out@;
        let mut n: usize = 0;
        if self.streaming || buffer.available() as u64 >= target as u64 {
            self.streaming = true;
            let (front, _) = out.split_at_mut(fill);
            n = buffer.pop(front);
        } else {
            assert(contents.skip(0) =~= contents);
        }
        assert(out@ =~= contents.take(n as int) + given.skip(n as int));
        if n < fill && n == 0 && self.streaming {
            buffer.note_underrun();
            self.streaming = false;
        }
        let mut i: usize = n;
        while i < fill
            invariant
                n <= i <= fill <= room,
                n <= contents.len(),
                room == out@.len(),
                given.len() == room,
                out@ == contents.take(n as int) + Seq::new((i - n) as nat, |j: int| 0i16)
                    + given.skip(i as int),
            decreases fill - i,
        {
            out[i] = 0;
            i = i + 1;
            assert(out@ =~= contents.take(n as int) + Seq::new((i - n) as nat, |j: int| 0i16)
                + given.skip(i as int));
        }
        let mut peak: u32 = self.peak;
        let mut k: usize = 0;
        let ghost read = contents.take(n as int);
        assert(read.take(0) =~= Seq::<i16>::empty());
        while k < n
            invariant
                k <= n <= fill <= room,
                n == read.len(),
                room == out@.len(),
                forall|j: int| 0 <= j < n ==> out@[j] == read[j],
                peak == peak_over(read.take(k as int), old(self).peak),
            decreases n - k,
        {
            let l: u32 = level_of(out[k]);
            proof {
                assert(read.take(k + 1).drop_last() =~= read.take(k as int));
                assert(read.take(k + 1).last() == read[k as int]);
            }
            if l > peak {
                peak = l;
            }
            k = k + 1;
        }
        assert(read.take(n as int) =~= read);
        assert(out@ =~= emitted(old(self).streaming, contents, target, given.len()) + given.skip(
            fill as int,
        ));
        self.peak = peak;
        fill
    }

    /// Gives the largest level since the last call.
    pub fn take_peak(&mut self) -> (peak: u32)
        ensures
            peak == old(self).peak,
            *final(self) == (Playback { peak: 0, ..*old(self) }),
    {
        let peak: u32 = self.peak;
        self.peak = 0;
        peak
    }
}

/// The level of a sample.
fn level_of(sample: i16) -> (l: u32)
    ensures
        l == level(sample),
{
    let s: i32 = sample as i32;
    if s == 0 {
        0
    } else if s < 0 {
        (0 - 2 * s - 1) as u32
    } else {
        (2 * s - 1) as u32
    }
}

/// The level never exceeds full scale, and the peak is reached by a sample or
/// was there before.
pub proof fn peak_is_the_largest_level(samples: Seq<i16>, floor: u32)
    ensures
        floor <= peak_over(samples, floor),
        forall|i: int|
            0 <= i < samples.len() ==> level(#[trigger] samples[i]) <= peak_over(samples, floor),
        peak_over(samples, floor) == floor || exists|i: int|
            0 <= i < samples.len() && level(#[trigger] samples[i]) == peak_over(samples, floor),
        floor <= PEAK_SCALE ==> peak_over(samples, floor) <= PEAK_SCALE,
    decreases samples.len(),
{
    if samples.len() > 0 {
        peak_is_the_largest_level(samples.drop_last(), floor);
        let fewer = samples.drop_last();
        assert forall|i: int| 0 <= i < samples.len() implies level(#[trigger] samples[i])
            <= peak_over(samples, floor) by {
            if i < fewer.len() {
                assert(fewer[i] == samples[i]);
            }
        }
        if peak_over(samples, floor) != floor {
            if level(samples.last()) > peak_over(fewer, floor) {
                assert(level(samples[samples.len() - 1]) == peak_over(samples, floor));
            } else {
                let i = choose|i: int|
                    0 <= i < fewer.len() && level(#[trigger] fewer[i]) == peak_over(fewer, floor);
                assert(level(samples[i]) == peak_over(samples, floor));
            }
        }
    }
}

/// While the prebuffer fills, a callback emits only silence, takes nothing and
/// counts no underrun.
pub proof fn prebuffering_is_silent(contents: Seq<i16>, target: u32, room: nat)
    requires
        contents.len() < target,
    ensures
        taken(false, contents, target, room) == 0,
        emitted(false, contents, target, room) == Seq::new(quantum(room), |i: int| 0i16),
        !runs_dry(false, contents, target, room),
        !streams_after(false, contents, target, room),
{
    assert(emitted(false, contents, target, room) =~= Seq::new(quantum(room), |i: int| 0i16));
}

/// A quantum that the buffer fills only in part does not stop the stream; only
/// an empty buffer does, and then the prebuffer has to fill again.
pub proof fn only_a_dry_read_stops_the_stream(contents: Seq<i16>, target: u32, room: nat)
    ensures
        contents.len() > 0 ==> streams_after(true, contents, target, room),
        contents.len() == 0 && room > 0 ==> {
            &&& runs_dry(true, contents, target, room)
            &&& !streams_after(true, contents, target, room)
        },
{
}

/// The level of a sample is its magnitude, scaled so that full scale is 65535 and
/// rounded down. So it is the same for a sample and its negative, it is larger for
/// a larger magnitude, and only the sample 0 has none.
pub proof fn level_is_the_scaled_magnitude(a: i16, b: i16)
    ensures
        ({
            let m = if a < 0 {
                -a
            } else {
                a as int
            };
            let n = if b < 0 {
                -b
            } else {
                b as int
            };
            &&& level(a) * 32768 <= m * 65535 < (level(a) + 1) * 32768
            &&& m == n ==> level(a) == level(b)
            &&& m < n ==> level(a) < level(b)
            &&& level(a) == 0 <==> a == 0
            &&& m == 32768 ==> level(a) == 65535
        }),
{
}

/// A callback plays what is buffered, oldest first, and what it does not play
/// stays. It plays nothing until the prebuffer is there, and then as much as there
/// is room for, up to 1024 samples; silence fills the rest, and what lies behind
/// is not touched.
pub proof fn audio_is_played_in_order(
    p: Playback,
    b: JitterBuffer<i16>,
    target: u32,
    out: Seq<i16>,
    after_p: Playback,
    after_b: JitterBuffer<i16>,
    after_out: Seq<i16>,
    written: usize,
)
    requires
        was_processed(p, b, target, out, after_p, after_b, after_out, written),
    ensures
        ({
            let room = if out.len() < 1024 {
                out.len() as int
            } else {
                1024
            };
            let n = b@.len() - after_b@.len();
            &&& written == room
            &&& after_out.len() == out.len()
            &&& 0 <= n <= room
            &&& !p.streaming && b@.len() < target ==> n == 0
            &&& p.streaming || b@.len() >= target ==> n == room || n == b@.len()
            &&& b@ == after_out.take(n) + after_b@
            &&& forall|i: int| n <= i < room ==> after_out[i] == 0
            &&& forall|i: int| room <= i < out.len() ==> after_out[i] == out[i]
            &&& after_b.size() == b.size()
            &&& after_b.overrun_count() == b.overrun_count()
        }),
{
    let n = taken(p.streaming, b@, target, out.len()) as int;
    assert(after_out.take(n) =~= b@.take(n));
    assert(b@ =~= b@.take(n) + b@.skip(n));
}

/// A callback with room that finds the buffer empty while it streams is one
/// underrun, and the prebuffer has to fill anew; nothing else is an underrun or
/// ends the stream. The stream starts when the prebuffer is there.
pub proof fn only_an_empty_buffer_is_an_underrun(
    p: Playback,
    b: JitterBuffer<i16>,
    target: u32,
    out: Seq<i16>,
    after_p: Playback,
    after_b: JitterBuffer<i16>,
    after_out: Seq<i16>,
    written: usize,
)
    requires
        was_processed(p, b, target, out, after_p, after_b, after_out, written),
        b.underrun_count() < u64::MAX,
        target > 0,
    ensures
        after_b.underrun_count() - b.underrun_count() == (if p.streaming && b@.len() == 0
            && out.len() > 0 {
            1int
        } else {
            0
        }),
        p.streaming && b@.len() > 0 ==> after_p.streaming,
        p.streaming && b@.len() == 0 && out.len() > 0 ==> !after_p.streaming,
        !p.streaming ==> (after_p.streaming <==> b@.len() >= target),
{
}

/// The peak covers every sample that was played since it was taken, and is the
/// level of one of them or was there before.
pub proof fn peak_covers_what_is_played(
    p: Playback,
    b: JitterBuffer<i16>,
    target: u32,
    out: Seq<i16>,
    after_p: Playback,
    after_b: JitterBuffer<i16>,
    after_out: Seq<i16>,
    written: usize,
)
    requires
        was_processed(p, b, target, out, after_p, after_b, after_out, written),
    ensures
        p.peak <= after_p.peak,
        forall|i: int| 0 <= i < written ==> level(#[trigger] after_out[i]) <= after_p.peak,
        after_p.peak == p.peak || exists|i: int|
            0 <= i < written && level(#[trigger] after_out[i]) == after_p.peak,
{
    let n = taken(p.streaming, b@, target, out.len()) as int;
    let played = b@.take(n);
    peak_is_the_largest_level(played, p.peak);
    assert forall|i: int| 0 <= i < written implies level(#[trigger] after_out[i])
        <= after_p.peak by {
        if i < n {
            assert(after_out[i] == played[i]);
        } else {
            assert(after_out[i] == 0);
        }
    }
    if after_p.peak != p.peak {
        let i = choose|i: int|
            0 <= i < played.len() && level(#[trigger] played[i]) == after_p.peak;
        assert(after_out[i] == played[i]);
    }
}

/// The peak is given once: the next look finds none.
pub proof fn peak_is_taken_once(p: &mut Playback, peak: u32)
    requires
        call_ensures(Playback::take_peak, (p,), peak),
    ensures
        peak == old(p).peak,
        final(p).peak == 0,
        final(p).streaming == old(p).streaming,
{
}

/// A callback of playback that streams gives out what is buffered, oldest first,
/// and its peak covers every sample of it.
pub proof fn callbacks_play_what_is_buffered(
    p: &mut Playback,
    b: &mut JitterBuffer<i16>,
    target: u32,
    out: &mut [i16],
    written: usize,
    i: int,
)
    requires
        call_ensures(Playback::process, (p, b, target, out), written),
        0 <= i < written,
        target > 0,
        old(b).underrun_count() < u64::MAX,
    ensures
        final(out)@.len() == old(out)@.len(),
        written == old(out)@.len() || written == 1024 && old(out)@.len() > 1024,
        old(p).streaming && i < old(b)@.len() ==> final(out)@[i] == old(b)@[i],
        old(p).streaming && i >= old(b)@.len() ==> final(out)@[i] == 0,
        !old(p).streaming && old(b)@.len() < target ==> final(out)@[i] == 0 && final(b)@
            == old(b)@ && !final(p).streaming,
        !old(p).streaming && old(b)@.len() >= target && i < old(b)@.len() ==> final(out)@[i]
            == old(b)@[i] && final(p).streaming,
        level(final(out)@[i]) <= final(p).peak,
        old(p).peak <= final(p).peak,
        final(b)@ == old(b)@.skip(old(b)@.len() - final(b)@.len()),
        final(b).overrun_count() == old(b).overrun_count(),
        final(b).underrun_count() - old(b).underrun_count() == (if old(p).streaming
            && old(b)@.len() == 0 {
            1int
        } else {
            0
        }),
        final(p).streaming <==> (if old(p).streaming {
            old(b)@.len() > 0
        } else {
            old(b)@.len() >= target
        }),
{
    peak_covers_what_is_played(
        *old(p),
        *old(b),
        target,
        old(out)@,
        *final(p),
        *final(b),
        final(out)@,
        written,
    );
    audio_is_played_in_order(
        *old(p),
        *old(b),
        target,
        old(out)@,
        *final(p),
        *final(b),
        final(out)@,
        written,
    );
    let n = old(b)@.len() - final(b)@.len();
    assert(final(b)@ =~= old(b)@.skip(n));
    assert(old(b)@.skip(0) =~= old(b)@);
    if i < n {
        assert(final(out)@[i] == final(out)@.take(n)[i]);
    }
}

/// Playback fills its prebuffer first and has heard nothing.
pub proof fn playback_starts_silent(p: Playback)
    requires
        call_ensures(Playback::new, (), p),
    ensures
        !p.streaming,
        p.peak == 0,
        PEAK_SCALE == level(i16::MIN),
{
}

/// A callback without room changes nothing but that a filled prebuffer starts the stream;
/// with no prebuffer at all, an empty buffer is an underrun at once.
pub proof fn callbacks_without_room_or_prebuffer(
    p: Playback,
    b: JitterBuffer<i16>,
    target: u32,
    out: Seq<i16>,
    after_p: Playback,
    after_b: JitterBuffer<i16>,
    after_out: Seq<i16>,
    written: usize,
)
    requires
        was_processed(p, b, target, out, after_p, after_b, after_out, written),
        b.underrun_count() < u64::MAX,
    ensures
        out.len() == 0 ==> {
            &&& written == 0
            &&& after_b@ == b@
            &&& after_b.underrun_count() == b.underrun_count()
            &&& after_p.peak == p.peak
            &&& after_p.streaming <==> p.streaming || b@.len() >= target
        },
        out.len() > 0 && target == 0 && b@.len() == 0 ==> {
            &&& after_b.underrun_count() - b.underrun_count() == 1
            &&& !after_p.streaming
        },
        after_p.streaming ==> p.streaming || b@.len() >= target,
{
    if out.len() == 0 {
        assert(b@.skip(0) =~= b@);
        assert(b@.take(0) =~= Seq::<i16>::empty());
    }
}

} // verus!
