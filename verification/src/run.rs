//! One run of the engine: what it has received, what it holds for playback, and
//! the lines it reports.

use vstd::prelude::*;

use crate::depth;
use crate::depth::Clock;
use crate::depth::DepthController;
use crate::depth::DepthParams;
use crate::engine;
use crate::engine::EngineConfig;
use crate::engine::Transport;
use crate::engine::NANOS_PER_SEC;
use crate::ingest;
use crate::ingest::Ingest;
use crate::ingest::IngestError;
use crate::jitter;
use crate::jitter::JitterBuffer;
use crate::millis;
use crate::millis::Millis;
use crate::millis::TICKS_PER_SAMPLE;
use crate::playback;
use crate::playback::Playback;
use crate::protocol::DecodeError;
use crate::protocol::Packet;
use crate::text;
use crate::text::push_decimal;

verus! {

/// Seconds between statistics lines.
pub const STATS_INTERVAL_SECS: u64 = 5;

/// Fewest seconds between lines about underruns.
pub const UNDERRUN_LOG_SECS: u64 = 5;

/// The largest datagram that holds a packet.
pub const MAX_DATAGRAM: usize = 65_541;

/// A run.
pub struct Run {
    pub ingest: Ingest,
    pub buffer: JitterBuffer<i16>,
    pub playback: Playback,
    /// The depth that playback waits for, in samples.
    pub target_samples: u32,
}

/// A run that has received nothing, for a checked configuration.
pub open spec fn is_fresh(r: Run, c: EngineConfig, has_decoder: bool) -> bool {
    &&& r.wf()
    &&& r.ingest.only == engine::only_type(c.codec)
    &&& r.ingest.has_decoder == has_decoder
    &&& r.ingest.seq.expected_seq() == 0
    &&& r.ingest.seq.last_seq() is None
    &&& r.ingest.overrun_log_gate == 0
    &&& r.ingest.received == 0
    &&& r.ingest.lost == 0
    &&& r.ingest.duplicate == 0
    &&& r.ingest.out_of_order == 0
    &&& r.ingest.malformed == 0
    &&& r.buffer@ == Seq::<i16>::empty()
    &&& r.buffer.overrun_count() == 0
    &&& r.buffer.underrun_count() == 0
    &&& jitter::is_power_of_two(r.buffer.size())
    &&& ({
        let asked = jitter::requested(engine::capacity_samples(c) as usize);
        asked <= r.buffer.size() < 2 * asked
    })
    &&& r.playback == (Playback { streaming: false, peak: 0 })
    &&& r.target_samples == millis::ceil_div(c.target_ms.ticks as int, TICKS_PER_SAMPLE as int)
}

/// A run whose peak level was taken.
pub open spec fn with_peak_taken(r: Run) -> Run {
    Run { playback: Playback { peak: 0, ..r.playback }, ..r }
}

/// The statistics line of a run.
pub open spec fn stats_text(t: Transport, r: Run) -> Seq<char> {
    "SRV transport="@ + engine::transport_name(t) + " received="@ + text::decimal(
        r.ingest.received as nat,
    ) + " lost="@ + text::decimal(r.ingest.lost as nat) + " dup="@ + text::decimal(
        r.ingest.duplicate as nat,
    ) + " ooo="@ + text::decimal(r.ingest.out_of_order as nat) + " malformed="@ + text::decimal(
        r.ingest.malformed as nat,
    ) + " overruns="@ + text::decimal(r.buffer.overrun_count() as nat) + " underruns="@
        + text::decimal(r.buffer.underrun_count() as nat) + " fill_ms="@ + fill_of(r.buffer@.len()).text()
}

/// The time that so many samples last.
pub open spec fn fill_of(samples: nat) -> Millis {
    Millis { ticks: (samples * TICKS_PER_SAMPLE) as i64 }
}

/// The line about underruns.
pub open spec fn underrun_text(
    episodes: int,
    total: u64,
    target_samples: u32,
    available: nat,
) -> Seq<char> {
    "openay-server: UNDERRUN episodes=+"@ + text::decimal(episodes as nat) + " total="@
        + text::decimal(total as nat) + " effective_target_ms="@ + fill_of(target_samples as nat).text() + " fill_ms="@ + fill_of(available).text()
}

/// Whether a line about underruns is held back at `now`.
pub open spec fn throttled(last_log: Option<u64>, now: u64) -> bool {
    match last_log {
        Some(t) => now - t < UNDERRUN_LOG_SECS * NANOS_PER_SEC,
        None => false,
    }
}

impl Run {
    /// The buffer is sound, and its fill can be told in milliseconds.
    pub open spec fn wf(self) -> bool {
        &&& self.buffer.wf()
        &&& self.buffer.size() <= i64::MAX / TICKS_PER_SAMPLE
    }

    /// A fresh run for a checked configuration.
    pub fn new(c: &EngineConfig, has_decoder: bool) -> (r: Run)
        requires
            engine::checked(*c) == Ok::<EngineConfig, engine::ConfigError>(*c),
            engine::capacity_fits(*c),
        ensures
            is_fresh(r, *c, has_decoder),
    {
        let capacity: u64 = c.capacity_ms.samples_within();
        let buffer: JitterBuffer<i16> = JitterBuffer::new(capacity as usize);
        let ingest = Ingest::new(c.codec.only(), has_decoder);
        Run {
            ingest,
            buffer,
            playback: Playback::new(),
            target_samples: c.target_ms.samples_to_cover(),
        }
    }

    /// The audio in the buffer.
    pub fn fill_ms(&self) -> (m: Millis)
        requires
            self.wf(),
        ensures
            m == fill_of(self.buffer@.len()),
            0 <= m.ticks,
            m.ticks == self.buffer@.len() * TICKS_PER_SAMPLE,
    {
        broadcast use JitterBuffer::contents_fit;

        Millis { ticks: self.buffer.available() as i64 * TICKS_PER_SAMPLE }
    }

    /// Takes the peak level.
    pub fn take_peak(&mut self) -> (peak: u32)
        requires
            old(self).wf(),
        ensures
            peak == old(self).playback.peak,
            *final(self) == with_peak_taken(*old(self)),
    {
        self.playback.take_peak()
    }

    /// The statistics line of the run.
    pub fn stats_line(&self, transport: Transport) -> (line: String)
        requires
            self.wf(),
        ensures
            line@ == stats_text(transport, *self),
    {
        let mut line = String::new();
        line.append("SRV transport=");
        line.append(transport.as_str());
        line.append(" received=");
        push_decimal(&mut line, self.ingest.received);
        line.append(" lost=");
        push_decimal(&mut line, self.ingest.lost);
        line.append(" dup=");
        push_decimal(&mut line, self.ingest.duplicate);
        line.append(" ooo=");
        push_decimal(&mut line, self.ingest.out_of_order);
        line.append(" malformed=");
        push_decimal(&mut line, self.ingest.malformed);
        line.append(" overruns=");
        push_decimal(&mut line, self.buffer.overruns());
        line.append(" underruns=");
        push_decimal(&mut line, self.buffer.underruns());
        line.append(" fill_ms=");
        self.fill_ms().push_tenths(&mut line);
        assert(line@ =~= stats_text(transport, *self));
        line
    }

    /// Takes in a packet; see `Ingest::ingest_packet`.
    pub fn on_packet(&mut self, packet: &Packet, opus: Option<Vec<i16>>) -> (r: Result<
        Option<String>,
        IngestError,
    >)
        requires
            old(self).wf(),
            old(self).ingest.has_room(),
        ensures
            final(self).wf(),
            final(self).playback == old(self).playback,
            final(self).target_samples == old(self).target_samples,
            ingest::was_ingested(
                old(self).ingest,
                old(self).buffer,
                packet@.kind,
                packet@.seq,
                packet@.payload,
                ingest::opus_view(opus),
                final(self).ingest,
                final(self).buffer,
                r,
            ),
    {
        self.ingest.ingest_packet(
            &mut self.buffer,
            packet.kind,
            packet.seq,
            packet.payload.as_slice(),
            opus,
        )
    }

    /// Takes in a datagram: a packet, or one more malformed datagram. What is
    /// wrong with a packet's payload is counted and goes no further.
    pub fn on_datagram(
        &mut self,
        decoded: Result<Packet, DecodeError>,
        opus: Option<Vec<i16>>,
    ) -> (line: Option<String>)
        requires
            old(self).wf(),
            old(self).ingest.has_room(),
        ensures
            final(self).wf(),
            match decoded {
                Ok(packet) => {
                    &&& final(self).playback == old(self).playback
                    &&& final(self).target_samples == old(self).target_samples
                    &&& exists|r: Result<Option<String>, IngestError>|
                        {
                            &&& #[trigger] ingest::was_ingested(
                                old(self).ingest,
                                old(self).buffer,
                                packet@.kind,
                                packet@.seq,
                                packet@.payload,
                                ingest::opus_view(opus),
                                final(self).ingest,
                                final(self).buffer,
                                r,
                            )
                            &&& line == (match r {
                                Ok(l) => l,
                                Err(_) => None,
                            })
                        }
                },
                Err(_) => {
                    &&& line is None
                    &&& *final(self) == (Run {
                        ingest: Ingest {
                            malformed: (old(self).ingest.malformed + 1) as u64,
                            ..old(self).ingest
                        },
                        ..*old(self)
                    })
                },
            },
    {
        match decoded {
            Ok(packet) => {
                let r = self.on_packet(&packet, opus);
                let ghost outcome = r;
                let line = match r {
                    Ok(line) => line,
                    Err(_) => None,
                };
                assert(ingest::was_ingested(
                    old(self).ingest,
                    old(self).buffer,
                    packet@.kind,
                    packet@.seq,
                    packet@.payload,
                    ingest::opus_view(opus),
                    self.ingest,
                    self.buffer,
                    outcome,
                ));
                line
            },
            Err(_) => {
                self.ingest.note_malformed();
                None
            },
        }
    }

    /// One playback callback; see `Playback::process`.
    pub fn process(&mut self, out: &mut [i16]) -> (written: usize)
        requires
            old(self).wf(),
        ensures
            final(self).wf(),
            final(self).ingest == old(self).ingest,
            final(self).target_samples == old(self).target_samples,
            playback::was_processed(
                old(self).playback,
                old(self).buffer,
                old(self).target_samples,
                old(out)@,
                final(self).playback,
                final(self).buffer,
                final(out)@,
                written,
            ),
    {
        self.playback.process(&mut self.buffer, self.target_samples, out)
    }
}

/// Reports underruns since the last look, unless the last report is less than 5
/// seconds old. The count goes on in either case, so that the next report counts
/// from there.
pub fn underrun_episode_line(
    buffer: &JitterBuffer<i16>,
    target_samples: u32,
    last_underruns: &mut u64,
    last_log: &mut Option<u64>,
    now: u64,
) -> (line: Option<String>)
    requires
        buffer.wf(),
        buffer.size() <= i64::MAX / TICKS_PER_SAMPLE,
    ensures
        ({
            let total = buffer.underrun_count();
            let news = total > *old(last_underruns);
            &&& *final(last_underruns) == (if news {
                total
            } else {
                *old(last_underruns)
            })
            &&& if news && !throttled(*old(last_log), now) {
                &&& *final(last_log) == Some(now)
                &&& line matches Some(text) && text@ == underrun_text(
                    total - *old(last_underruns),
                    total,
                    target_samples,
                    buffer@.len(),
                )
            } else {
                &&& *final(last_log) == *old(last_log)
                &&& line is None
            }
        }),
{
    broadcast use JitterBuffer::contents_fit;

    let total: u64 = buffer.underruns();
    if total <= *last_underruns {
        return None;
    }
    let episodes: u64 = total - *last_underruns;
    *last_underruns = total;
    let held_back: bool = match *last_log {
        Some(t) => now < t || now - t < UNDERRUN_LOG_SECS * NANOS_PER_SEC,
        None => false,
    };
    if held_back {
        return None;
    }
    *last_log = Some(now);
    let target = Millis::of_samples(target_samples);
    let fill = Millis { ticks: buffer.available() as i64 * TICKS_PER_SAMPLE };
    let mut line = String::new();
    line.append("openay-server: UNDERRUN episodes=+");
    push_decimal(&mut line, episodes);
    line.append(" total=");
    push_decimal(&mut line, total);
    line.append(" effective_target_ms=");
    target.push_tenths(&mut line);
    line.append(" fill_ms=");
    fill.push_tenths(&mut line);
    assert(line@ =~= underrun_text(episodes as int, total, target_samples, buffer@.len()));
    Some(line)
}

/// Whether a statistics line is due, with the last one printed at `last`.
pub fn stats_due(last: u64, now: u64) -> (r: bool)
    ensures
        r == (now - last >= STATS_INTERVAL_SECS * NANOS_PER_SEC),
{
    now >= last && now - last >= STATS_INTERVAL_SECS * NANOS_PER_SEC
}

/// The depth after one look at the underrun count: an underrun if there are new
/// ones, and then a tick.
pub open spec fn depth_after_look(
    v: depth::DepthView,
    seen: u64,
    underruns: u64,
    at_underrun: u64,
    at_tick: u64,
) -> depth::DepthView {
    depth::after_running_tick(
        if underruns > seen {
            depth::after_underrun(v, at_underrun)
        } else {
            v
        },
        at_tick,
    )
}

/// The count that later looks compare with.
pub open spec fn seen_after_look(seen: u64, underruns: u64) -> u64 {
    if underruns > seen {
        underruns
    } else {
        seen
    }
}

/// When a run reported last, and what it had reported by then.
#[derive(Debug, Clone, Copy, PartialEq, Eq, Structural)]
pub struct Reports {
    pub transport: Transport,
    pub last_stats: u64,
    pub last_underruns: u64,
    pub last_log: Option<u64>,
}

/// Whether a look at `now` reports underruns.
pub open spec fn underruns_shown(r: Reports, underruns: u64, now: u64) -> bool {
    underruns > r.last_underruns && !throttled(r.last_log, now)
}

/// Whether a look at `now` reports the statistics.
pub open spec fn stats_shown(r: Reports, now: u64) -> bool {
    now - r.last_stats >= STATS_INTERVAL_SECS * NANOS_PER_SEC
}

/// The reports after a look at `now` at a run with so many underruns.
pub open spec fn after_look(r: Reports, underruns: u64, now: u64) -> Reports {
    Reports {
        last_stats: if stats_shown(r, now) {
            now
        } else {
            r.last_stats
        },
        last_underruns: seen_after_look(r.last_underruns, underruns),
        last_log: if underruns_shown(r, underruns, now) {
            Some(now)
        } else {
            r.last_log
        },
        ..r
    }
}

/// The reports after looks, each with an underrun count and a time.
pub open spec fn after_looks(r: Reports, looks: Seq<(u64, u64)>) -> Reports
    decreases looks.len(),
{
    if looks.len() == 0 {
        r
    } else {
        after_look(after_looks(r, looks.drop_last()), looks.last().0, looks.last().1)
    }
}

impl Reports {
    /// The reports of a run that starts at `now`, with so many underruns.
    pub fn new(transport: Transport, underruns: u64, now: u64) -> (r: Reports)
        ensures
            r == (Reports {
                transport,
                last_stats: now,
                last_underruns: underruns,
                last_log: None,
            }),
    {
        Reports { transport, last_stats: now, last_underruns: underruns, last_log: None }
    }

    /// Looks at a run and gives the lines that are due: about underruns, and the
    /// statistics.
    pub fn look(&mut self, run: &Run, now: u64) -> (lines: (Option<String>, Option<String>))
        requires
            run.wf(),
        ensures
            *final(self) == after_look(*old(self), run.buffer.underrun_count(), now),
            lines.0 is Some == underruns_shown(*old(self), run.buffer.underrun_count(), now),
            lines.0 matches Some(line) ==> line@ == underrun_text(
                run.buffer.underrun_count() - old(self).last_underruns,
                run.buffer.underrun_count(),
                run.target_samples,
                run.buffer@.len(),
            ),
            lines.1 is Some == stats_shown(*old(self), now),
            lines.1 matches Some(line) ==> line@ == stats_text(old(self).transport, *run),
    {
        let underruns = underrun_episode_line(
            &run.buffer,
            run.target_samples,
            &mut self.last_underruns,
            &mut self.last_log,
            now,
        );
        let stats = if stats_due(self.last_stats, now) {
            self.last_stats = now;
            Some(run.stats_line(self.transport))
        } else {
            None
        };
        (underruns, stats)
    }
}

/// The depth control of a run: looks at the underrun count from time to time and
/// sets the depth that playback waits for.
pub struct DepthMonitor<C: Clock> {
    depth: DepthController<C>,
    last_underruns: u64,
}

impl<C: Clock> DepthMonitor<C> {
    /// The depth so far.
    pub closed spec fn depth(self) -> depth::DepthView {
        self.depth@
    }

    /// The underruns seen so far.
    pub closed spec fn seen(self) -> u64 {
        self.last_underruns
    }

    /// The clock that is read.
    pub closed spec fn clock_of(self) -> C {
        self.depth.clock_of()
    }

    /// The depth is in its range.
    pub open spec fn wf(self) -> bool {
        depth::in_range(self.depth())
    }

    /// A control that starts at a base depth, with so many underruns seen.
    pub fn new(clock: C, base_ms: Millis, params: DepthParams, underruns: u64) -> (m: Self)
        ensures
            m.wf(),
            m.depth() == depth::initial(base_ms, params),
            m.seen() == underruns,
            m.clock_of() == clock,
    {
        DepthMonitor {
            depth: DepthController::with_params(clock, base_ms, params),
            last_underruns: underruns,
        }
    }

    /// Looks at the underrun count and gives the depth in samples.
    pub fn tick(&mut self, underruns: u64) -> (target_samples: u32)
        requires
            old(self).wf(),
        ensures
            final(self).wf(),
            final(self).seen() == seen_after_look(old(self).seen(), underruns),
            final(self).clock_of() == old(self).clock_of(),
            exists|at_underrun: u64, at_tick: u64|
                {
                    &&& underruns > old(self).seen() ==> call_ensures(
                        C::now,
                        (&old(self).clock_of(),),
                        at_underrun,
                    )
                    &&& call_ensures(C::now, (&old(self).clock_of(),), at_tick)
                    &&& final(self).depth() == #[trigger] depth_after_look(
                        old(self).depth(),
                        old(self).seen(),
                        underruns,
                        at_underrun,
                        at_tick,
                    )
                },
            target_samples == millis::ceil_div(
                final(self).depth().target,
                TICKS_PER_SAMPLE as int,
            ),
    {
        let ghost before = self.depth@;
        let ghost seen = self.last_underruns;
        let ghost mut at_underrun: u64 = 0;
        if underruns > self.last_underruns {
            self.depth.on_underrun();
            proof {
                at_underrun =
                choose|now: u64|
                    {
                        &&& call_ensures(C::now, (&old(self).clock_of(),), now)
                        &&& self.depth@ == #[trigger] depth::after_underrun(before, now)
                    };
            }
            self.last_underruns = underruns;
        }
        let ghost middle = self.depth@;
        let target = self.depth.on_tick(true);
        proof {
            let at_tick = choose|now: u64|
                {
                    &&& call_ensures(C::now, (&old(self).clock_of(),), now)
                    &&& self.depth@ == #[trigger] depth::after_running_tick(middle, now)
                };
            assert(self.depth() == depth_after_look(before, seen, underruns, at_underrun, at_tick));
        }
        target.samples_to_cover()
    }

    /// Looks at the underrun count, with the times of an underrun and of the
    /// tick given.
    pub fn tick_at(&mut self, underruns: u64, at_underrun: u64, at_tick: u64) -> (
    target_samples: u32)
        requires
            old(self).wf(),
        ensures
            final(self).wf(),
            final(self).seen() == seen_after_look(old(self).seen(), underruns),
            final(self).depth() == depth_after_look(
                old(self).depth(),
                old(self).seen(),
                underruns,
                at_underrun,
                at_tick,
            ),
            final(self).clock_of() == old(self).clock_of(),
            target_samples == millis::ceil_div(
                final(self).depth().target,
                TICKS_PER_SAMPLE as int,
            ),
    {
        if underruns > self.last_underruns {
            self.depth.on_underrun_at(at_underrun);
            self.last_underruns = underruns;
        }
        self.depth.on_running_tick_at(at_tick).samples_to_cover()
    }
}

/// Whatever the control does, playback waits for 5 to 20 ms of audio: 240 to 960
/// samples.
pub proof fn target_samples_in_range(v: depth::DepthView)
    requires
        depth::in_range(v),
    ensures
        240 <= millis::ceil_div(v.target, TICKS_PER_SAMPLE as int) <= 960,
{
}

/// However often a run is looked at, lines of one kind are at least five seconds
/// apart: if the looks at places `i` and `j` both give one, so much time lies
/// between them.
pub proof fn lines_stay_apart(r: Reports, looks: Seq<(u64, u64)>, i: int, j: int)
    requires
        0 <= i < j < looks.len(),
    ensures
        ({
            let first = after_looks(r, looks.take(i));
            let second = after_looks(r, looks.take(j));
            let (a, b) = (looks[i], looks[j]);
            &&& underruns_shown(first, a.0, a.1) && underruns_shown(second, b.0, b.1) ==> b.1 - a.1
                >= UNDERRUN_LOG_SECS * NANOS_PER_SEC
            &&& stats_shown(first, a.1) && stats_shown(second, b.1) ==> b.1 - a.1
                >= STATS_INTERVAL_SECS * NANOS_PER_SEC
        }),
{
    lemma_times_go_on(r, looks, i, j);
}

/// From a report on, the time of the last report is no earlier.
proof fn lemma_times_go_on(r: Reports, looks: Seq<(u64, u64)>, i: int, j: int)
    requires
        0 <= i < j <= looks.len(),
    ensures
        ({
            let first = after_looks(r, looks.take(i));
            let second = after_looks(r, looks.take(j));
            &&& underruns_shown(first, looks[i].0, looks[i].1) ==> (second.last_log matches Some(t)
                && t >= looks[i].1)
            &&& stats_shown(first, looks[i].1) ==> second.last_stats >= looks[i].1
        }),
    decreases j,
{
    assert(looks.take(j).drop_last() =~= looks.take(j - 1));
    assert(looks.take(j).last() == looks[j - 1]);
    if i < j - 1 {
        lemma_times_go_on(r, looks, i, j - 1);
    }
}

/// Nothing is held back longer than it has to be: statistics come once five
/// seconds have passed, and new underruns are told at once where none were told in
/// the last five seconds. None are told without new ones.
pub proof fn due_lines_are_not_held_back(r: Reports, underruns: u64, now: u64)
    ensures
        now - r.last_stats >= 5_000_000_000 <==> stats_shown(r, now),
        underruns > r.last_underruns && r.last_log is None ==> underruns_shown(r, underruns, now),
        underruns > r.last_underruns && r.last_log is Some && now - r.last_log->0
            >= 5_000_000_000 ==> underruns_shown(r, underruns, now),
        underruns_shown(r, underruns, now) ==> underruns > r.last_underruns,
        !underruns_shown(after_look(r, underruns, now), underruns, now),
        !stats_shown(after_look(r, underruns, now), now),
        after_look(r, underruns, now).last_underruns >= underruns,
        after_look(r, underruns, now).transport == r.transport,
{
}

/// A look at the underrun count steps the depth up if the count rose since the last
/// look, however far, and never otherwise; the count is then seen.
pub proof fn new_underruns_deepen_the_buffer(
    v: depth::DepthView,
    seen: u64,
    underruns: u64,
    at: u64,
)
    requires
        depth::in_range(v),
    ensures
        ({
            let after = depth_after_look(v, seen, underruns, at, at);
            &&& underruns > seen && v.target + v.rise <= depth::ceiling() ==> after.target
                == v.target + v.rise
            &&& underruns > seen && v.target + v.rise > depth::ceiling() ==> after.target
                == depth::ceiling()
            &&& underruns <= seen ==> after.target <= v.target
            &&& underruns <= seen ==> after == depth::after_running_tick(v, at)
            &&& seen_after_look(seen, underruns) >= underruns
            &&& depth_after_look(v, seen_after_look(seen, underruns), underruns, at, at)
                == depth::after_running_tick(v, at)
            &&& after.base == v.base
        }),
{
    let raised = depth::after_underrun(v, at);
    depth::depth_stays_in_range(v, at);
    depth::no_decay_before_a_whole_window(v, at, at);
    assert(depth::after_running_tick(raised, at) == raised);
}

/// The statistics line tells every count of the run under its name.
pub proof fn stats_line_tells_every_count(transport: Transport, r: Run)
    ensures
        text::tells(stats_text(transport, r), " received="@, r.ingest.received as nat),
        text::tells(stats_text(transport, r), " lost="@, r.ingest.lost as nat),
        text::tells(stats_text(transport, r), " dup="@, r.ingest.duplicate as nat),
        text::tells(stats_text(transport, r), " ooo="@, r.ingest.out_of_order as nat),
        text::tells(stats_text(transport, r), " malformed="@, r.ingest.malformed as nat),
        text::tells(stats_text(transport, r), " overruns="@, r.buffer.overrun_count() as nat),
        text::tells(stats_text(transport, r), " underruns="@, r.buffer.underrun_count() as nat),
{
    let line = stats_text(transport, r);
    let before0 = "SRV transport="@ + engine::transport_name(transport);
    let before1 = before0 + " received="@ + text::decimal(r.ingest.received as nat);
    let before2 = before1 + " lost="@ + text::decimal(r.ingest.lost as nat);
    let before3 = before2 + " dup="@ + text::decimal(r.ingest.duplicate as nat);
    let before4 = before3 + " ooo="@ + text::decimal(r.ingest.out_of_order as nat);
    let before5 = before4 + " malformed="@ + text::decimal(r.ingest.malformed as nat);
    let before6 = before5 + " overruns="@ + text::decimal(r.buffer.overrun_count() as nat);
    let after6 = " fill_ms="@ + fill_of(r.buffer@.len()).text();
    let after5 = " underruns="@ + text::decimal(r.buffer.underrun_count() as nat) + after6;
    let after4 = " overruns="@ + text::decimal(r.buffer.overrun_count() as nat) + after5;
    let after3 = " malformed="@ + text::decimal(r.ingest.malformed as nat) + after4;
    let after2 = " ooo="@ + text::decimal(r.ingest.out_of_order as nat) + after3;
    let after1 = " dup="@ + text::decimal(r.ingest.duplicate as nat) + after2;
    let after0 = " lost="@ + text::decimal(r.ingest.lost as nat) + after1;
    text::lemma_join(
        before6 + " underruns="@ + text::decimal(r.buffer.underrun_count() as nat),
        " fill_ms="@,
        fill_of(r.buffer@.len()).text(),
    );
    text::lemma_regroup(before6, " underruns="@, text::decimal(r.buffer.underrun_count() as nat), after6);
    text::lemma_regroup(before5, " overruns="@, text::decimal(r.buffer.overrun_count() as nat), after5);
    text::lemma_regroup(before4, " malformed="@, text::decimal(r.ingest.malformed as nat), after4);
    text::lemma_regroup(before3, " ooo="@, text::decimal(r.ingest.out_of_order as nat), after3);
    text::lemma_regroup(before2, " dup="@, text::decimal(r.ingest.duplicate as nat), after2);
    text::lemma_regroup(before1, " lost="@, text::decimal(r.ingest.lost as nat), after1);
    assert(after6[0] == ' ') by {
        reveal_strlit(" fill_ms=");
    }
    text::lemma_tells(line, before6, " underruns="@, r.buffer.underrun_count() as nat, after6);
    assert(after5[0] == ' ') by {
        reveal_strlit(" underruns=");
    }
    text::lemma_tells(line, before5, " overruns="@, r.buffer.overrun_count() as nat, after5);
    assert(after4[0] == ' ') by {
        reveal_strlit(" overruns=");
    }
    text::lemma_tells(line, before4, " malformed="@, r.ingest.malformed as nat, after4);
    assert(after3[0] == ' ') by {
        reveal_strlit(" malformed=");
    }
    text::lemma_tells(line, before3, " ooo="@, r.ingest.out_of_order as nat, after3);
    assert(after2[0] == ' ') by {
        reveal_strlit(" ooo=");
    }
    text::lemma_tells(line, before2, " dup="@, r.ingest.duplicate as nat, after2);
    assert(after1[0] == ' ') by {
        reveal_strlit(" dup=");
    }
    text::lemma_tells(line, before1, " lost="@, r.ingest.lost as nat, after1);
    assert(after0[0] == ' ') by {
        reveal_strlit(" lost=");
    }
    text::lemma_tells(line, before0, " received="@, r.ingest.received as nat, after0);
}

/// The line about underruns tells the new ones and all of them.
pub proof fn underrun_line_tells_every_count(episodes: nat, total: u64, target_samples: u32, available: nat)
    ensures
        text::tells(underrun_text(episodes as int, total, target_samples, available), " episodes=+"@, episodes),
        text::tells(underrun_text(episodes as int, total, target_samples, available), " total="@, total as nat),
{
    let line = underrun_text(episodes as int, total, target_samples, available);
    reveal_strlit(" episodes=+");
    reveal_strlit("openay-server: UNDERRUN");
    reveal_strlit("openay-server: UNDERRUN episodes=+");
    assert("openay-server: UNDERRUN episodes=+"@ =~= "openay-server: UNDERRUN"@ + " episodes=+"@);
    reveal_strlit(" total=");
    reveal_strlit(" effective_target_ms=");
    let before0 = "openay-server: UNDERRUN"@;
    let before1 = before0 + " episodes=+"@ + text::decimal(episodes);
    let after1 = " effective_target_ms="@ + fill_of(target_samples as nat).text() + " fill_ms="@ + fill_of(available).text();
    let after0 = " total="@ + text::decimal(total as nat) + after1;
    assert(line =~= before0 + " episodes=+"@ + text::decimal(episodes) + after0);
    text::lemma_tells(line, before0, " episodes=+"@, episodes, after0);
    assert(line =~= before1 + " total="@ + text::decimal(total as nat) + after1);
    text::lemma_tells(line, before1, " total="@, total as nat, after1);
}

/// A fresh run has counted nothing and buffered nothing, waits for at least the
/// configured prebuffer and less than a sample more, and has room for at least the
/// configured capacity.
pub proof fn fresh_runs_start_from_nothing(c: &EngineConfig, has_decoder: bool, r: Run)
    requires
        engine::checked(*c) == Ok::<EngineConfig, engine::ConfigError>(*c),
        engine::capacity_fits(*c),
        call_ensures(Run::new, (c, has_decoder), r),
    ensures
        r.wf(),
        r.ingest.received == 0 && r.ingest.lost == 0 && r.ingest.duplicate == 0,
        r.ingest.out_of_order == 0 && r.ingest.malformed == 0 && r.ingest.overrun_log_gate == 0,
        r.ingest.seq.last_seq() is None && r.ingest.seq.expected_seq() == 0,
        r.ingest.has_decoder == has_decoder,
        c.codec is Auto <==> r.ingest.only is None,
        c.codec is Pcm <==> r.ingest.only == Some(crate::protocol::PayloadType::Pcm),
        c.codec is Opus <==> r.ingest.only == Some(crate::protocol::PayloadType::Opus),
        r.buffer@.len() == 0,
        r.buffer.overrun_count() == 0 && r.buffer.underrun_count() == 0,
        r.buffer.size() >= 1024,
        (r.buffer.size() + 1) * 125 > c.capacity_ms.ticks,
        r.buffer.size() > 2047 ==> (r.buffer.size() / 2) * 125 <= c.capacity_ms.ticks,
        !r.playback.streaming && r.playback.peak == 0,
        (r.target_samples - 1) * 125 < c.target_ms.ticks <= r.target_samples * 125,
{
}

/// A datagram that did not decode is one more malformed one; nothing else changes.
pub proof fn undecoded_datagrams_only_count(
    r: &mut Run,
    e: DecodeError,
    opus: Option<Vec<i16>>,
    line: Option<String>,
)
    requires
        old(r).ingest.has_room(),
        call_ensures(Run::on_datagram, (r, Err(e), opus), line),
    ensures
        line is None,
        final(r).ingest.malformed - old(r).ingest.malformed == 1,
        final(r).ingest.received == old(r).ingest.received,
        final(r).ingest.lost == old(r).ingest.lost,
        final(r).ingest.duplicate == old(r).ingest.duplicate,
        final(r).ingest.out_of_order == old(r).ingest.out_of_order,
        final(r).ingest.seq == old(r).ingest.seq,
        final(r).ingest.only == old(r).ingest.only,
        final(r).ingest.has_decoder == old(r).ingest.has_decoder,
        final(r).buffer == old(r).buffer,
        final(r).playback == old(r).playback,
        final(r).target_samples == old(r).target_samples,
{
}

/// A datagram that decoded does what its packet does: the samples of a PCM packet
/// that is wanted come behind what was buffered, where they fit, and the packet is
/// counted as received.
pub proof fn datagrams_reach_the_buffer(
    r: &mut Run,
    packet: Packet,
    opus: Option<Vec<i16>>,
    line: Option<String>,
    samples: Seq<i16>,
)
    requires
        old(r).wf(),
        old(r).ingest.only is None || old(r).ingest.only == Some(
            crate::protocol::PayloadType::Pcm,
        ),
        packet@.kind is Pcm,
        packet@.payload == ingest::pcm_payload(samples),
        old(r).buffer@.len() + samples.len() <= old(r).buffer.size(),
        old(r).buffer.overrun_count() < u64::MAX,
        call_ensures(Run::on_datagram, (r, Ok(packet), opus), line),
    ensures
        final(r).wf(),
        line is None,
        final(r).buffer@ == old(r).buffer@ + samples,
        final(r).ingest.received - old(r).ingest.received == 1,
        final(r).ingest.malformed == old(r).ingest.malformed,
        final(r).buffer.overrun_count() == old(r).buffer.overrun_count(),
        final(r).buffer.underrun_count() == old(r).buffer.underrun_count(),
        final(r).playback == old(r).playback,
        final(r).target_samples == old(r).target_samples,
{
    let outcome = choose|o: Result<Option<String>, IngestError>|
        {
            &&& #[trigger] ingest::was_ingested(
                old(r).ingest,
                old(r).buffer,
                packet@.kind,
                packet@.seq,
                packet@.payload,
                ingest::opus_view(opus),
                final(r).ingest,
                final(r).buffer,
                o,
            )
            &&& line == (match o {
                Ok(l) => l,
                Err(_) => None,
            })
        };
    old(r).buffer.contents_fit();
    ingest::pcm_samples_reach_the_buffer(
        old(r).ingest,
        old(r).buffer,
        packet@.seq,
        samples,
        ingest::opus_view(opus),
        final(r).ingest,
        final(r).buffer,
        outcome,
    );
}

/// A packet does to a run what it does to its ingest and its buffer, and playback
/// and its depth stay as they are.
pub proof fn packets_leave_playback_alone(
    r: &mut Run,
    packet: &Packet,
    opus: Option<Vec<i16>>,
    outcome: Result<Option<String>, IngestError>,
)
    requires
        old(r).wf(),
        call_ensures(Run::on_packet, (r, packet, opus), outcome),
    ensures
        final(r).wf(),
        final(r).playback == old(r).playback,
        final(r).target_samples == old(r).target_samples,
        final(r).ingest.received - old(r).ingest.received == 1,
        final(r).ingest.malformed - old(r).ingest.malformed == (if outcome is Err {
            1int
        } else {
            0
        }),
        outcome is Err ==> final(r).buffer == old(r).buffer,
        final(r).ingest.seq.last_seq() == Some(packet@.seq),
        old(r).buffer@ == final(r).buffer@.take(old(r).buffer@.len() as int),
        packet@.kind is Control ==> final(r).buffer@ == old(r).buffer@,
{
    assert(old(r).buffer@ =~= final(r).buffer@.take(old(r).buffer@.len() as int));
    assert(old(r).buffer@ + Seq::<i16>::empty() =~= old(r).buffer@);
}

/// A callback of playback takes from the buffer what it gives out, counts no packet
/// and leaves the depth as it is.
pub proof fn playback_takes_what_it_gives(r: &mut Run, out: &mut [i16], written: usize)
    requires
        old(r).wf(),
        call_ensures(Run::process, (r, out), written),
    ensures
        ({
            let n = old(r).buffer@.len() - final(r).buffer@.len();
            &&& final(r).wf()
            &&& final(r).ingest == old(r).ingest
            &&& final(r).target_samples == old(r).target_samples
            &&& 0 <= n <= written <= 1024
            &&& old(r).buffer@ == final(out)@.take(n) + final(r).buffer@
            &&& old(r).playback.streaming ==> n == written || final(r).buffer@.len() == 0
            &&& !old(r).playback.streaming && old(r).buffer@.len() < old(r).target_samples ==> n
                == 0
            &&& final(r).buffer.overrun_count() == old(r).buffer.overrun_count()
        }),
{
    playback::audio_is_played_in_order(
        old(r).playback,
        old(r).buffer,
        old(r).target_samples,
        old(out)@,
        final(r).playback,
        final(r).buffer,
        final(out)@,
        written,
    );
}

/// Taking the peak changes nothing else; the fill is what is buffered, 48 samples to
/// the millisecond.
pub proof fn looks_change_nothing_but_the_peak(r: &mut Run, peak: u32, fill: Millis)
    requires
        old(r).wf(),
        call_ensures(Run::take_peak, (r,), peak),
        call_ensures(Run::fill_ms, (&*old(r),), fill),
    ensures
        peak == old(r).playback.peak,
        final(r).playback.peak == 0,
        final(r).playback.streaming == old(r).playback.streaming,
        final(r).ingest == old(r).ingest,
        final(r).buffer == old(r).buffer,
        final(r).target_samples == old(r).target_samples,
        fill.ticks * 48 == old(r).buffer@.len() * 6000,
{
}

/// A look gives the statistics once five seconds have passed since the last ones, and
/// new underruns unless such a line is less than five seconds old; each line tells
/// the counts of the run.
pub proof fn looks_give_what_is_due(
    reports: &mut Reports,
    r: &Run,
    now: u64,
    lines: (Option<String>, Option<String>),
)
    requires
        call_ensures(Reports::look, (reports, r, now), lines),
    ensures
        ({
            let news = r.buffer.underrun_count() - old(reports).last_underruns;
            let quiet = old(reports).last_log is None || now - old(reports).last_log->0
                >= 5_000_000_000;
            &&& lines.0 is Some <==> news > 0 && quiet
            &&& lines.1 is Some <==> now - old(reports).last_stats >= 5_000_000_000
            &&& lines.0 matches Some(line) ==> text::tells(line@, " episodes=+"@, news as nat)
                && text::tells(line@, " total="@, r.buffer.underrun_count() as nat)
            &&& lines.1 matches Some(line) ==> text::tells(
                line@,
                " received="@,
                r.ingest.received as nat,
            ) && text::tells(line@, " lost="@, r.ingest.lost as nat) && text::tells(
                line@,
                " underruns="@,
                r.buffer.underrun_count() as nat,
            ) && text::tells(line@, " overruns="@, r.buffer.overrun_count() as nat)
            &&& final(reports).transport == old(reports).transport
            &&& final(reports).last_stats == (if lines.1 is Some {
                now
            } else {
                old(reports).last_stats
            })
            &&& final(reports).last_log == (if lines.0 is Some {
                Some(now)
            } else {
                old(reports).last_log
            })
            &&& news > 0 ==> final(reports).last_underruns == r.buffer.underrun_count()
            &&& news <= 0 ==> final(reports).last_underruns == old(reports).last_underruns
        }),
{
    let news = r.buffer.underrun_count() - old(reports).last_underruns;
    stats_line_tells_every_count(old(reports).transport, *r);
    if news > 0 {
        underrun_line_tells_every_count(
            news as nat,
            r.buffer.underrun_count(),
            r.target_samples,
            r.buffer@.len(),
        );
    }
}

/// The line of a run tells all its counts, and names its transport first.
pub proof fn runs_tell_their_counts(r: &Run, transport: Transport, line: String)
    requires
        call_ensures(Run::stats_line, (r, transport), line),
    ensures
        text::tells(line@, " received="@, r.ingest.received as nat),
        text::tells(line@, " lost="@, r.ingest.lost as nat),
        text::tells(line@, " dup="@, r.ingest.duplicate as nat),
        text::tells(line@, " ooo="@, r.ingest.out_of_order as nat),
        text::tells(line@, " malformed="@, r.ingest.malformed as nat),
        text::tells(line@, " overruns="@, r.buffer.overrun_count() as nat),
        text::tells(line@, " underruns="@, r.buffer.underrun_count() as nat),
        transport is Udp ==> line@.take(18) == "SRV transport=udp "@,
        transport is Tcp ==> line@.take(18) == "SRV transport=tcp "@,
{
    stats_line_tells_every_count(transport, *r);
    reveal_strlit("SRV transport=");
    reveal_strlit("udp");
    reveal_strlit("tcp");
    reveal_strlit(" received=");
    reveal_strlit("SRV transport=udp ");
    reveal_strlit("SRV transport=tcp ");
    let head = "SRV transport="@ + engine::transport_name(transport) + " received="@;
    assert(line@.take(18) =~= head.take(18));
    if transport is Udp {
        assert(head.take(18) =~= "SRV transport=udp "@);
    } else {
        assert(head.take(18) =~= "SRV transport=tcp "@);
    }
}

/// A look at the underrun count gives the depth in samples: at least the depth that
/// the control then has, and less than a sample more. New underruns make it deeper
/// by a step, up to 20 ms; without new ones it never gets deeper.
pub proof fn looks_set_the_depth<C: Clock>(
    m: &mut DepthMonitor<C>,
    underruns: u64,
    at: u64,
    target_samples: u32,
)
    requires
        old(m).wf(),
        call_ensures(DepthMonitor::<C>::tick_at, (m, underruns, at, at), target_samples),
    ensures
        final(m).wf(),
        ({
            let before = old(m).depth();
            let after = final(m).depth();
            &&& (target_samples - 1) * 125 < after.target <= target_samples * 125
            &&& 240 <= target_samples <= 960
            &&& underruns > old(m).seen() && before.target + before.rise <= 20 * 6000
                ==> after.target == before.target + before.rise
            &&& underruns > old(m).seen() && before.target + before.rise > 20 * 6000
                ==> after.target == 20 * 6000
            &&& underruns > old(m).seen() ==> final(m).seen() == underruns
            &&& underruns <= old(m).seen() ==> after.target <= before.target && final(m).seen()
                == old(m).seen()
            &&& after.base == before.base
        }),
{
    new_underruns_deepen_the_buffer(old(m).depth(), old(m).seen(), underruns, at);
}

/// Statistics are due five seconds after the last ones.
pub proof fn statistics_come_every_five_seconds(last: u64, now: u64, due: bool)
    requires
        call_ensures(stats_due, (last, now), due),
    ensures
        due <==> now >= last + 5_000_000_000,
{
}

/// A run that starts has reported nothing, and counts underruns from what it finds; its
/// depth control starts at the base.
pub proof fn reports_start_with_the_run<C: Clock>(
    transport: Transport,
    underruns: u64,
    now: u64,
    r: Reports,
    clock: C,
    base: Millis,
    params: DepthParams,
    m: DepthMonitor<C>,
)
    requires
        call_ensures(Reports::new, (transport, underruns, now), r),
        call_ensures(DepthMonitor::<C>::new, (clock, base, params, underruns), m),
    ensures
        r.transport == transport && r.last_stats == now && r.last_underruns == underruns,
        r.last_log is None,
        !stats_shown(r, now) && !underruns_shown(r, underruns, now),
        m.seen() == underruns,
        m.depth().target == m.depth().base,
        5 * 6000 <= base.ticks <= 20 * 6000 ==> m.depth().base == base.ticks,
        m.wf(),
        MAX_DATAGRAM == 6 + 0xFFFF,
{
}

/// The line about underruns comes with the first new ones and then no sooner than five
/// seconds after the last; each counts from where the last look was.
pub proof fn underruns_are_reported_once(
    b: &JitterBuffer<i16>,
    target: u32,
    seen: &mut u64,
    log: &mut Option<u64>,
    now: u64,
    line: Option<String>,
)
    requires
        call_ensures(underrun_episode_line, (b, target, seen, log, now), line),
    ensures
        ({
            let news = b.underrun_count() - *old(seen);
            let quiet = *old(log) is None || now - (*old(log))->0 >= 5_000_000_000;
            &&& line is Some <==> news > 0 && quiet
            &&& line matches Some(l) ==> text::tells(l@, " episodes=+"@, news as nat)
                && text::tells(l@, " total="@, b.underrun_count() as nat)
            &&& news > 0 ==> *final(seen) == b.underrun_count()
            &&& news <= 0 ==> *final(seen) == *old(seen)
            &&& line is Some ==> *final(log) == Some(now)
            &&& line is None ==> *final(log) == *old(log)
        }),
{
    let news = b.underrun_count() - *old(seen);
    if news > 0 {
        underrun_line_tells_every_count(news as nat, b.underrun_count(), target, b@.len());
    }
}

/// A look by the clock deepens the buffer for new underruns and never without them, and
/// stays within 5 to 20 ms.
pub proof fn clocked_looks_set_the_depth<C: Clock>(
    m: &mut DepthMonitor<C>,
    underruns: u64,
    target_samples: u32,
)
    requires
        old(m).wf(),
        call_ensures(DepthMonitor::<C>::tick, (m, underruns), target_samples),
    ensures
        final(m).wf(),
        240 <= target_samples <= 960,
        (target_samples - 1) * 125 < final(m).depth().target <= target_samples * 125,
        underruns <= old(m).seen() ==> final(m).depth().target <= old(m).depth().target
            && final(m).seen() == old(m).seen(),
        underruns > old(m).seen() ==> final(m).seen() == underruns,
        final(m).depth().base == old(m).depth().base,
{
    let (a, t) = choose|at_underrun: u64, at_tick: u64|
        {
            &&& underruns > old(m).seen() ==> call_ensures(
                C::now,
                (&old(m).clock_of(),),
                at_underrun,
            )
            &&& call_ensures(C::now, (&old(m).clock_of(),), at_tick)
            &&& final(m).depth() == #[trigger] depth_after_look(
                old(m).depth(),
                old(m).seen(),
                underruns,
                at_underrun,
                at_tick,
            )
        };
    let v = old(m).depth();
    depth::depth_stays_in_range(v, a);
    depth::depth_stays_in_range(v, t);
    depth::depth_stays_in_range(depth::after_underrun(v, a), t);
}

/// The statistics line ends with the fill, and the line about underruns tells the depth
/// and then the fill, 48 samples to the millisecond.
pub proof fn lines_tell_the_fill(
    t: Transport,
    r: Run,
    episodes: nat,
    total: u64,
    target: u32,
    available: nat,
)
    requires
        r.wf(),
        available <= i64::MAX / 125,
    ensures
        exists|before: Seq<char>, fill: Millis|
            {
                &&& stats_text(t, r) == #[trigger] (before + " fill_ms="@ + fill.text())
                &&& fill.ticks * 48 == r.buffer@.len() * 6000
            },
        exists|before: Seq<char>, depth: Millis, fill: Millis|
            {
                &&& underrun_text(episodes as int, total, target, available) == #[trigger] (before
                    + " effective_target_ms="@ + depth.text() + " fill_ms="@ + fill.text())
                &&& depth.ticks * 48 == target * 6000
                &&& fill.ticks * 48 == available * 6000
            },
{
    broadcast use JitterBuffer::contents_fit;

    let fill = fill_of(r.buffer@.len());
    let before = "SRV transport="@ + engine::transport_name(t) + " received="@ + text::decimal(
        r.ingest.received as nat,
    ) + " lost="@ + text::decimal(r.ingest.lost as nat) + " dup="@ + text::decimal(
        r.ingest.duplicate as nat,
    ) + " ooo="@ + text::decimal(r.ingest.out_of_order as nat) + " malformed="@ + text::decimal(
        r.ingest.malformed as nat,
    ) + " overruns="@ + text::decimal(r.buffer.overrun_count() as nat) + " underruns="@
        + text::decimal(r.buffer.underrun_count() as nat);
    assert(stats_text(t, r) == before + " fill_ms="@ + fill.text());
    assert(fill.ticks * 48 == r.buffer@.len() * 6000);
    let head = "openay-server: UNDERRUN episodes=+"@ + text::decimal(episodes) + " total="@
        + text::decimal(total as nat);
    let depth = fill_of(target as nat);
    let left = fill_of(available);
    assert(underrun_text(episodes as int, total, target, available) == head
        + " effective_target_ms="@ + depth.text() + " fill_ms="@ + left.text());
    assert(depth.ticks * 48 == target * 6000);
    assert(left.ticks * 48 == available * 6000);
}

} // verus!
