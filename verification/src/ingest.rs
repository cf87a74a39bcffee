//! From packets to samples in the jitter buffer.
//!
//! Samples are signed 16-bit values; full scale is 32768.

use vstd::prelude::*;

use crate::jitter;
use crate::jitter::JitterBuffer;
use crate::protocol::PayloadType;
use crate::sequence;
use crate::sequence::SeqEvent;
use crate::sequence::SeqTracker;
use crate::stats::COUNTER_LIMIT;
use crate::text;
use crate::text::push_decimal;

verus! {

/// An overrun is logged when it is the first, and then every so many.
pub const OVERRUN_LOG_EVERY: u64 = 1000;

/// What is wrong with a payload.
#[derive(Debug, Clone, Copy, PartialEq, Eq, Structural)]
pub enum Malformed {
    /// 16-bit samples in an odd number of bytes.
    OddPcm,
    /// An Opus packet, and no decoder.
    NoDecoder,
}

impl Malformed {
    /// A sentence that says what is wrong.
    pub fn message(self) -> (m: &'static str)
        ensures
            m@ == (match self {
                Malformed::OddPcm => "PCM payload length is not even"@,
                Malformed::NoDecoder => "Opus decoder unavailable"@,
            }),
    {
        match self {
            Malformed::OddPcm => "PCM payload length is not even",
            Malformed::NoDecoder => "Opus decoder unavailable",
        }
    }
}

/// Why a packet gave no samples. Such packets are counted, never fatal.
#[derive(Debug, Clone, Copy, PartialEq, Eq, Structural)]
pub enum IngestError {
    /// The payload makes no sense for its type.
    MalformedPayload(Malformed),
    /// An Opus packet did not decode.
    OpusDecode,
    /// A packet of a type that is not wanted.
    UnexpectedType,
}

/// The sample of two bytes, least significant first.
pub open spec fn le_sample(lo: u8, hi: u8) -> i16 {
    let n = lo + 256 * hi;
    (if n < 32768 {
        n
    } else {
        n - 65536
    }) as i16
}

/// The samples of a PCM payload.
pub open spec fn pcm_samples(payload: Seq<u8>) -> Seq<i16> {
    Seq::new(payload.len() / 2, |i: int| le_sample(payload[2 * i], payload[2 * i + 1]))
}

/// The two bytes of a sample, least significant first.
pub open spec fn le_bytes(sample: i16) -> Seq<u8> {
    let n = if sample < 0 {
        sample + 65536
    } else {
        sample as int
    };
    seq![(n % 256) as u8, (n / 256) as u8]
}

/// The PCM payload of samples.
pub open spec fn pcm_payload(samples: Seq<i16>) -> Seq<u8> {
    Seq::new(samples.len() * 2, |i: int| le_bytes(samples[i / 2])[i % 2])
}

/// Reading back a PCM payload gives the samples it was made from.
pub proof fn pcm_round_trip(samples: Seq<i16>)
    ensures
        pcm_samples(pcm_payload(samples)) == samples,
        pcm_payload(samples).len() % 2 == 0,
{
    let payload = pcm_payload(samples);
    assert forall|i: int| 0 <= i < samples.len() implies pcm_samples(payload)[i]
        == samples[i] by {
        assert(payload[2 * i] == le_bytes(samples[i])[0]);
        assert(payload[2 * i + 1] == le_bytes(samples[i])[1]);
    }
    assert(pcm_samples(payload) =~= samples);
}

/// Whether a type is wanted.
pub open spec fn wanted(only: Option<PayloadType>, kind: PayloadType) -> bool {
    match only {
        None => true,
        Some(strict) => kind == strict,
    }
}

/// Whether a packet has to go through the Opus decoder.
pub open spec fn for_decoder(
    only: Option<PayloadType>,
    has_decoder: bool,
    kind: PayloadType,
) -> bool {
    wanted(only, kind) && kind == PayloadType::Opus && has_decoder
}

/// The samples that a packet gives. `opus` is what the decoder made of it,
/// where it goes through the decoder. Control packets carry none.
pub open spec fn samples_of(
    only: Option<PayloadType>,
    has_decoder: bool,
    kind: PayloadType,
    payload: Seq<u8>,
    opus: Option<Seq<i16>>,
) -> Result<Seq<i16>, IngestError> {
    if !wanted(only, kind) {
        Err(IngestError::UnexpectedType)
    } else {
        match kind {
            PayloadType::Control => Ok(Seq::empty()),
            PayloadType::Pcm => if payload.len() % 2 != 0 {
                Err(IngestError::MalformedPayload(Malformed::OddPcm))
            } else {
                Ok(pcm_samples(payload))
            },
            PayloadType::Opus => if !has_decoder {
                Err(IngestError::MalformedPayload(Malformed::NoDecoder))
            } else {
                match opus {
                    Some(samples) => Ok(samples),
                    None => Err(IngestError::OpusDecode),
                }
            },
        }
    }
}

/// The packets that an event says were lost.
pub open spec fn lost_by(event: SeqEvent) -> u16 {
    match event {
        SeqEvent::Gap(n) => n,
        _ => 0,
    }
}

/// One where `b` holds, else zero.
pub open spec fn one_if(b: bool) -> int {
    if b {
        1
    } else {
        0
    }
}

/// The line that reports an overrun.
pub open spec fn overrun_text(overruns: u64) -> Seq<char> {
    "openay-server: jitter buffer overrun, dropped whole block (total overruns="@ + text::decimal(
        overruns as nat,
    ) + ")"@
}

/// What taking in a packet does to an ingest and a buffer, and what it gives.
pub open spec fn was_ingested(
    i: Ingest,
    b: JitterBuffer<i16>,
    kind: PayloadType,
    seq: u16,
    payload: Seq<u8>,
    opus: Option<Seq<i16>>,
    after_i: Ingest,
    after_b: JitterBuffer<i16>,
    r: Result<Option<String>, IngestError>,
) -> bool {
    let event = sequence::classify(i.seq.expected_seq(), i.seq.last_seq(), seq);
    &&& after_i.only == i.only
    &&& after_i.has_decoder == i.has_decoder
    &&& after_i.seq.wf()
    &&& after_i.seq.last_seq() == Some(seq)
    &&& after_i.received == i.received + 1
    &&& after_i.lost == i.lost + lost_by(event)
    &&& after_i.duplicate == i.duplicate + one_if(event is Duplicate)
    &&& after_i.out_of_order == i.out_of_order + one_if(event is Reorder)
    &&& after_b.size() == b.size()
    &&& after_b.underrun_count() == b.underrun_count()
    &&& match samples_of(i.only, i.has_decoder, kind, payload, opus) {
        Err(e) => {
            &&& r == Err::<Option<String>, IngestError>(e)
            &&& after_i.malformed == i.malformed + 1
            &&& after_i.overrun_log_gate == i.overrun_log_gate
            &&& after_b == b
        },
        Ok(samples) => {
            let overrun = !jitter::fits(b.size(), b@, samples);
            &&& r matches Ok(line) && logs_overrun(
                line,
                overrun,
                after_i.overrun_log_gate,
                after_b.overrun_count(),
            )
            &&& after_i.malformed == i.malformed
            &&& after_i.overrun_log_gate == i.overrun_log_gate + one_if(overrun)
            &&& after_b@ == jitter::after_push(b.size(), b@, samples)
            &&& after_b.overrun_count() == (if overrun {
                b.overrun_count().wrapping_add(1)
            } else {
                b.overrun_count()
            })
        },
    }
}

/// Takes packets in: follows their numbers, decodes their payloads and counts.
pub struct Ingest {
    /// The sequence tracking.
    pub seq: SeqTracker,
    /// Whether there is an Opus decoder.
    pub has_decoder: bool,
    /// The only wanted type, or none for all.
    pub only: Option<PayloadType>,
    /// Overruns seen, which decide when one is logged.
    pub overrun_log_gate: u64,
    /// Packets taken in.
    pub received: u64,
    /// Packets presumed lost.
    pub lost: u64,
    /// Repeated sequence numbers.
    pub duplicate: u64,
    /// Late sequence numbers.
    pub out_of_order: u64,
    /// Packets that gave no samples because something was wrong with them.
    pub malformed: u64,
}

impl Ingest {
    /// No counter is about to overflow.
    pub open spec fn has_room(self) -> bool {
        &&& self.received < COUNTER_LIMIT
        &&& self.lost < COUNTER_LIMIT
        &&& self.duplicate < COUNTER_LIMIT
        &&& self.out_of_order < COUNTER_LIMIT
        &&& self.malformed < COUNTER_LIMIT
        &&& self.overrun_log_gate < COUNTER_LIMIT
    }

    /// An ingest that wants one type, or all. `has_decoder` says whether an Opus
    /// decoder could be made.
    pub fn new(only: Option<PayloadType>, has_decoder: bool) -> (i: Self)
        ensures
            i.only == only,
            i.has_decoder == has_decoder,
            i.seq.wf(),
            i.seq.expected_seq() == 0,
            i.seq.last_seq() == None::<u16>,
            i.overrun_log_gate == 0,
            i.received == 0,
            i.lost == 0,
            i.duplicate == 0,
            i.out_of_order == 0,
            i.malformed == 0,
    {
        Ingest {
            seq: SeqTracker::new(),
            has_decoder,
            only,
            overrun_log_gate: 0,
            received: 0,
            lost: 0,
            duplicate: 0,
            out_of_order: 0,
            malformed: 0,
        }
    }

    /// Whether no counter is about to overflow.
    pub fn counters_have_room(&self) -> (r: bool)
        ensures
            r == self.has_room(),
    {
        self.received < COUNTER_LIMIT && self.lost < COUNTER_LIMIT && self.duplicate
            < COUNTER_LIMIT && self.out_of_order < COUNTER_LIMIT && self.malformed < COUNTER_LIMIT
            && self.overrun_log_gate < COUNTER_LIMIT
    }

    /// Whether a packet of a type has to go through the Opus decoder.
    pub fn needs_decoder(&self, kind: PayloadType) -> (r: bool)
        ensures
            r == for_decoder(self.only, self.has_decoder, kind),
    {
        let is_wanted: bool = match self.only {
            None => true,
            Some(strict) => kind == strict,
        };
        is_wanted && kind == PayloadType::Opus && self.has_decoder
    }

    /// Counts a datagram that did not decode as a packet.
    pub fn note_malformed(&mut self)
        requires
            old(self).has_room(),
        ensures
            *final(self) == (Ingest { malformed: (old(self).malformed + 1) as u64, ..*old(self) }),
    {
        self.malformed = self.malformed + 1;
    }

    /// Follows the sequence numbers.
    fn track_seq(&mut self, seq: u16)
        requires
            old(self).lost < COUNTER_LIMIT,
            old(self).duplicate < COUNTER_LIMIT,
            old(self).out_of_order < COUNTER_LIMIT,
        ensures
            ({
                let event = sequence::classify(
                    old(self).seq.expected_seq(),
                    old(self).seq.last_seq(),
                    seq,
                );
                *final(self) == (Ingest {
                    seq: final(self).seq,
                    lost: (old(self).lost + lost_by(event)) as u64,
                    duplicate: (old(self).duplicate + one_if(event is Duplicate)) as u64,
                    out_of_order: (old(self).out_of_order + one_if(event is Reorder)) as u64,
                    ..*old(self)
                })
            }),
            final(self).seq.wf(),
            final(self).seq.last_seq() == Some(seq),
    {
        match self.seq.update(seq) {
            SeqEvent::Gap(lost) => {
                self.lost = self.lost + lost as u64;
            },
            SeqEvent::Duplicate => {
                self.duplicate = self.duplicate + 1;
            },
            SeqEvent::Reorder => {
                self.out_of_order = self.out_of_order + 1;
            },
            SeqEvent::InOrder => {},
        }
    }

    /// The samples of a payload.
    fn decode(&self, kind: PayloadType, payload: &[u8], opus: Option<Vec<i16>>) -> (r: Result<
        Vec<i16>,
        IngestError,
    >)
        requires
            wanted(self.only, kind),
        ensures
            match (
                r,
                samples_of(self.only, self.has_decoder, kind, payload@, opus_view(opus)),
            ) {
                (Ok(v), Ok(s)) => v@ == s,
                (Err(e), Err(f)) => e == f,
                _ => false,
            },
    {
        match kind {
            PayloadType::Control => Ok(Vec::new()),
            PayloadType::Pcm => {
                if payload.len() % 2 != 0 {
                    return Err(IngestError::MalformedPayload(Malformed::OddPcm));
                }
                Ok(read_pcm(payload))
            },
            PayloadType::Opus => {
                if !self.has_decoder {
                    return Err(IngestError::MalformedPayload(Malformed::NoDecoder));
                }
                match opus {
                    Some(samples) => Ok(samples),
                    None => Err(IngestError::OpusDecode),
                }
            },
        }
    }

    /// Takes one packet in: follows its number, decodes it, and stores its
    /// samples. `opus` is what the decoder made of the payload, where the packet
    /// goes through it (`needs_decoder`); it has no part elsewhere.
    ///
    /// Samples that do not fit are dropped whole: that is counted by the buffer
    /// and is no error. Gives a line to log for the first such overrun and then
    /// for every 1000th.
    pub fn ingest_packet(
        &mut self,
        buffer: &mut JitterBuffer<i16>,
        kind: PayloadType,
        seq: u16,
        payload: &[u8],
        opus: Option<Vec<i16>>,
    ) -> (r: Result<Option<String>, IngestError>)
        requires
            old(self).has_room(),
            old(buffer).wf(),
        ensures
            final(buffer).wf(),
            was_ingested(
                *old(self),
                *old(buffer),
                kind,
                seq,
                payload@,
                opus_view(opus),
                *final(self),
                *final(buffer),
                r,
            ),
    {
        broadcast use JitterBuffer::contents_fit;

        self.received = self.received + 1;
        self.track_seq(seq);
        let is_wanted: bool = match self.only {
            None => true,
            Some(strict) => kind == strict,
        };
        if !is_wanted {
            self.malformed = self.malformed + 1;
            return Err(IngestError::UnexpectedType);
        }
        let samples = match self.decode(kind, payload, opus) {
            Ok(samples) => samples,
            Err(e) => {
                self.malformed = self.malformed + 1;
                return Err(e);
            },
        };
        if samples.len() == 0 {
            assert(buffer@ + samples@ =~= buffer@);
            return Ok(None);
        }
        let pushed: usize = buffer.push(samples.as_slice());
        if pushed == 0 {
            self.overrun_log_gate = self.overrun_log_gate + 1;
            if self.overrun_log_gate == 1 || self.overrun_log_gate % OVERRUN_LOG_EVERY == 0 {
                let mut line = String::new();
                line.append(
                    "openay-server: jitter buffer overrun, dropped whole block (total overruns=",
                );
                push_decimal(&mut line, buffer.overruns());
                line.append(")");
                assert(line@ =~= overrun_text(buffer.overrun_count()));
                return Ok(Some(line));
            }
        }
        Ok(None)
    }
}

/// The samples behind an answer of the decoder.
pub open spec fn opus_view(opus: Option<Vec<i16>>) -> Option<Seq<i16>> {
    match opus {
        Some(v) => Some(v@),
        None => None,
    }
}

/// A line is logged for the first overrun and every 1000th.
pub open spec fn logs_overrun(
    line: Option<String>,
    overrun: bool,
    seen: u64,
    overruns: u64,
) -> bool {
    if overrun && (seen == 1 || seen % OVERRUN_LOG_EVERY == 0) {
        line matches Some(text) && text@ == overrun_text(overruns)
    } else {
        line is None
    }
}

/// Reads 16-bit samples, least significant byte first.
fn read_pcm(payload: &[u8]) -> (samples: Vec<i16>)
    requires
        payload@.len() % 2 == 0,
    ensures
        samples@ == pcm_samples(payload@),
{
    let len: usize = payload.len();
    let n: usize = len / 2;
    let mut samples: Vec<i16> = Vec::new();
    let mut i: usize = 0;
    while i < n
        invariant
            i <= n,
            2 * n == len,
            len == payload@.len(),
            samples@ == pcm_samples(payload@).take(i as int),
        decreases n - i,
    {
        let value: i32 = payload[2 * i] as i32 + 256 * payload[2 * i + 1] as i32;
        let sample: i16 = if value < 32768 {
            value as i16
        } else {
            (value - 65536) as i16
        };
        samples.push(sample);
        i = i + 1;
        assert(samples@ =~= pcm_samples(payload@).take(i as int));
    }
    assert(pcm_samples(payload@).take(n as int) =~= pcm_samples(payload@));
    samples
}

/// In a strict mode no packet of another type ever gives a sample.
pub proof fn strict_mode_is_strict(
    only: PayloadType,
    has_decoder: bool,
    kind: PayloadType,
    payload: Seq<u8>,
    opus: Option<Seq<i16>>,
)
    requires
        kind != only,
    ensures
        samples_of(Some(only), has_decoder, kind, payload, opus) == Err::<Seq<i16>, IngestError>(
            IngestError::UnexpectedType,
        ),
        !for_decoder(Some(only), has_decoder, kind),
{
}

/// Without a strict mode, PCM and control packets never depend on the decoder.
pub proof fn only_opus_depends_on_the_decoder(
    has_decoder: bool,
    kind: PayloadType,
    payload: Seq<u8>,
    opus: Option<Seq<i16>>,
)
    requires
        kind != PayloadType::Opus,
    ensures
        samples_of(None, has_decoder, kind, payload, opus) == samples_of(
            None,
            false,
            kind,
            payload,
            None,
        ),
        samples_of(None, has_decoder, PayloadType::Control, payload, opus) == Ok::<
            Seq<i16>,
            IngestError,
        >(Seq::empty()),
{
}

/// In a strict mode a packet of the wanted type is treated as without a strict
/// mode, whatever it holds, and goes to the decoder where it would then.
pub proof fn strict_mode_takes_its_own_type(
    kind: PayloadType,
    has_decoder: bool,
    payload: Seq<u8>,
    opus: Option<Seq<i16>>,
)
    ensures
        samples_of(Some(kind), has_decoder, kind, payload, opus) == samples_of(
            None,
            has_decoder,
            kind,
            payload,
            opus,
        ),
        for_decoder(Some(kind), has_decoder, kind) == for_decoder(None, has_decoder, kind),
        for_decoder(Some(PayloadType::Opus), true, PayloadType::Opus),
        for_decoder(None, true, PayloadType::Opus),
        !for_decoder(None, false, kind),
        kind != PayloadType::Opus ==> !for_decoder(None, has_decoder, kind),
{
}

/// Every packet is counted as received, and beyond that it is either taken or
/// counted as malformed: a packet that gives an error leaves the buffer as it was,
/// and one that gives none leaves the count as it was.
pub proof fn every_packet_is_taken_or_malformed(
    i: Ingest,
    b: JitterBuffer<i16>,
    kind: PayloadType,
    seq: u16,
    payload: Seq<u8>,
    opus: Option<Seq<i16>>,
    after_i: Ingest,
    after_b: JitterBuffer<i16>,
    r: Result<Option<String>, IngestError>,
)
    requires
        was_ingested(i, b, kind, seq, payload, opus, after_i, after_b, r),
    ensures
        after_i.received - i.received == 1,
        r is Err ==> after_i.malformed - i.malformed == 1 && after_b == b,
        r is Ok ==> after_i.malformed == i.malformed,
        after_b.underrun_count() == b.underrun_count(),
        after_b.size() == b.size(),
        after_i.only == i.only && after_i.has_decoder == i.has_decoder,
        b@ == after_b@.take(b@.len() as int),
        after_b@ != b@ ==> r is Ok && after_b.overrun_count() == b.overrun_count(),
{
    assert(b@ =~= after_b@.take(b@.len() as int));
}

/// The samples of a PCM packet that is wanted are what stands in the buffer behind
/// what was there, if they all fit. If not, none of them does, and that is an
/// overrun and no error.
pub proof fn pcm_samples_reach_the_buffer(
    i: Ingest,
    b: JitterBuffer<i16>,
    seq: u16,
    samples: Seq<i16>,
    opus: Option<Seq<i16>>,
    after_i: Ingest,
    after_b: JitterBuffer<i16>,
    r: Result<Option<String>, IngestError>,
)
    requires
        i.only is None || i.only == Some(PayloadType::Pcm),
        was_ingested(
            i,
            b,
            PayloadType::Pcm,
            seq,
            pcm_payload(samples),
            opus,
            after_i,
            after_b,
            r,
        ),
        b@.len() <= b.size(),
        b.overrun_count() < u64::MAX,
    ensures
        r is Ok,
        after_i.malformed == i.malformed,
        b@.len() + samples.len() <= b.size() ==> {
            &&& after_b@ == b@ + samples
            &&& after_b.overrun_count() == b.overrun_count()
            &&& r == Ok::<Option<String>, IngestError>(None)
        },
        b@.len() + samples.len() > b.size() ==> {
            &&& after_b@ == b@
            &&& after_b.overrun_count() - b.overrun_count() == 1
            &&& after_i.overrun_log_gate - i.overrun_log_gate == 1
        },
{
    pcm_round_trip(samples);
}

/// What the decoder made of an Opus packet that is wanted is what stands in the
/// buffer behind what was there. Where it made nothing of it, or where there is no
/// decoder, the packet is an error.
pub proof fn decoded_samples_reach_the_buffer(
    i: Ingest,
    b: JitterBuffer<i16>,
    seq: u16,
    payload: Seq<u8>,
    opus: Option<Seq<i16>>,
    after_i: Ingest,
    after_b: JitterBuffer<i16>,
    r: Result<Option<String>, IngestError>,
)
    requires
        i.only is None || i.only == Some(PayloadType::Opus),
        was_ingested(i, b, PayloadType::Opus, seq, payload, opus, after_i, after_b, r),
    ensures
        r is Ok <==> i.has_decoder && opus is Some,
        !i.has_decoder ==> r == Err::<Option<String>, IngestError>(
            IngestError::MalformedPayload(Malformed::NoDecoder),
        ),
        i.has_decoder && opus is None ==> r == Err::<Option<String>, IngestError>(
            IngestError::OpusDecode,
        ),
        i.has_decoder && opus is Some && b@.len() + opus->0.len() <= b.size() ==> {
            &&& after_b@ == b@ + opus->0
            &&& after_b.overrun_count() == b.overrun_count()
        },
{
}

/// A control packet that is wanted leaves the buffer and the count of malformed
/// packets as they were, and an odd number of PCM bytes is an error.
pub proof fn control_packets_carry_no_audio(
    i: Ingest,
    b: JitterBuffer<i16>,
    kind: PayloadType,
    seq: u16,
    payload: Seq<u8>,
    opus: Option<Seq<i16>>,
    after_i: Ingest,
    after_b: JitterBuffer<i16>,
    r: Result<Option<String>, IngestError>,
)
    requires
        i.only is None,
        b@.len() <= b.size(),
        was_ingested(i, b, kind, seq, payload, opus, after_i, after_b, r),
    ensures
        kind == PayloadType::Control ==> {
            &&& r == Ok::<Option<String>, IngestError>(None)
            &&& after_b@ == b@
            &&& after_b.overrun_count() == b.overrun_count()
        },
        kind == PayloadType::Pcm ==> (r is Err <==> payload.len() % 2 == 1),
        kind == PayloadType::Pcm && r is Err ==> r == Err::<Option<String>, IngestError>(
            IngestError::MalformedPayload(Malformed::OddPcm),
        ),
{
    assert(b@ + Seq::<i16>::empty() =~= b@);
}

/// The numbers of packets are accounted for one by one: the next number counts as
/// nothing, `n` numbers left out as `n` lost, the last number once more as a
/// duplicate, and an earlier one as out of order, whatever the packet holds.
pub proof fn packet_numbers_are_accounted_for(
    i: Ingest,
    b: JitterBuffer<i16>,
    last: u16,
    ahead: int,
    kind: PayloadType,
    payload: Seq<u8>,
    opus: Option<Seq<i16>>,
    after_i: Ingest,
    after_b: JitterBuffer<i16>,
    r: Result<Option<String>, IngestError>,
)
    requires
        i.seq.wf(),
        i.seq.last_seq() == Some(last),
        -32767 <= ahead <= 32768,
        was_ingested(
            i,
            b,
            kind,
            ((last + ahead) % 0x1_0000) as u16,
            payload,
            opus,
            after_i,
            after_b,
            r,
        ),
    ensures
        after_i.lost - i.lost == (if ahead > 1 {
            ahead - 1
        } else {
            0
        }),
        after_i.duplicate - i.duplicate == (if ahead == 0 {
            1int
        } else {
            0
        }),
        after_i.out_of_order - i.out_of_order == (if ahead < 0 {
            1int
        } else {
            0
        }),
        after_i.seq.wf(),
        after_i.seq.last_seq() == Some(((last + ahead) % 0x1_0000) as u16),
{
}

/// An overrun is logged if it is the first or the thousandth since the last, and
/// the line tells how many there were in all.
pub proof fn one_overrun_in_a_thousand_is_logged(
    line: Option<String>,
    overrun: bool,
    seen: u64,
    overruns: u64,
)
    requires
        logs_overrun(line, overrun, seen, overruns),
    ensures
        !overrun ==> line is None,
        overrun && seen == 1 ==> line is Some,
        overrun && seen > 1 ==> (line is Some <==> seen % 1000 == 0),
        line matches Some(text) ==> text@ == overrun_text(overruns),
{
}

/// The first byte of a sample counts ones and the second one 256s, modulo 2^16.
pub proof fn low_byte_comes_first(lo: u8, hi: u8)
    ensures
        (le_sample(lo, hi) - lo - 256 * hi) % 0x1_0000 == 0,
        le_sample(lo, hi) < 0 <==> hi >= 128,
        le_bytes(le_sample(lo, hi)) == seq![lo, hi],
{
    assert(le_bytes(le_sample(lo, hi)) =~= seq![lo, hi]);
}

/// Each two bytes of a PCM payload are one sample, the first of them counting ones
/// and the second 256s, modulo 2^16; the samples come in the order of their bytes.
pub proof fn pcm_bytes_become_samples(payload: Seq<u8>, i: int)
    requires
        0 <= 2 * i,
        2 * i + 1 < payload.len(),
    ensures
        (pcm_samples(payload)[i] - payload[2 * i] - 256 * payload[2 * i + 1]) % 0x1_0000 == 0,
        2 * pcm_samples(payload).len() <= payload.len() < 2 * pcm_samples(payload).len() + 2,
{
    low_byte_comes_first(payload[2 * i], payload[2 * i + 1]);
}

/// A packet that is taken in stands in the buffer with all its samples behind what
/// was there, where they fit; a PCM packet of an even length, unless only another
/// type is wanted, is always taken.
pub proof fn wanted_audio_is_taken_in(
    i: &mut Ingest,
    b: &mut JitterBuffer<i16>,
    seq: u16,
    payload: &[u8],
    opus: Option<Vec<i16>>,
    r: Result<Option<String>, IngestError>,
    k: int,
)
    requires
        old(b).wf(),
        old(i).only is None || old(i).only == Some(PayloadType::Pcm),
        payload@.len() % 2 == 0,
        old(b)@.len() + payload@.len() / 2 <= old(b).size(),
        0 <= k,
        2 * k + 1 < payload@.len(),
        call_ensures(Ingest::ingest_packet, (i, b, PayloadType::Pcm, seq, payload, opus), r),
    ensures
        r == Ok::<Option<String>, IngestError>(None),
        final(b).wf(),
        final(b)@.len() == old(b)@.len() + payload@.len() / 2,
        final(b)@.take(old(b)@.len() as int) == old(b)@,
        (final(b)@[old(b)@.len() + k] - payload@[2 * k] - 256 * payload@[2 * k + 1]) % 0x1_0000
            == 0,
        final(b).overrun_count() == old(b).overrun_count(),
        final(b).underrun_count() == old(b).underrun_count(),
        final(b).size() == old(b).size(),
        final(i).received - old(i).received == 1,
        final(i).malformed == old(i).malformed,
        final(i).only == old(i).only && final(i).has_decoder == old(i).has_decoder,
        final(i).seq.last_seq() == Some(seq),
{
    pcm_bytes_become_samples(payload@, k);
    assert(final(b)@.take(old(b)@.len() as int) =~= old(b)@);
}

/// A packet that is not wanted, a PCM packet of an odd length, and an Opus packet
/// that no decoder made samples of leave the buffer as it was and count as
/// malformed; every other packet gives no error.
pub proof fn unfit_packets_are_only_counted(
    i: &mut Ingest,
    b: &mut JitterBuffer<i16>,
    kind: PayloadType,
    seq: u16,
    payload: &[u8],
    opus: Option<Vec<i16>>,
    r: Result<Option<String>, IngestError>,
)
    requires
        call_ensures(Ingest::ingest_packet, (i, b, kind, seq, payload, opus), r),
    ensures
        ({
            let refused = old(i).only is Some && old(i).only->0 != kind;
            let odd = kind is Pcm && payload@.len() % 2 == 1;
            let undecoded = kind is Opus && (opus is None || !old(i).has_decoder);
            &&& r is Err <==> refused || odd || undecoded
            &&& refused <==> r == Err::<Option<String>, IngestError>(IngestError::UnexpectedType)
            &&& r is Err ==> *final(b) == *old(b)
            &&& final(i).malformed - old(i).malformed == (if r is Err {
                1int
            } else {
                0
            })
            &&& final(i).received - old(i).received == 1
            &&& final(i).overrun_log_gate - old(i).overrun_log_gate <= 1
            &&& r is Err ==> final(i).overrun_log_gate == old(i).overrun_log_gate
            &&& final(b).size() == old(b).size()
        }),
{
}

/// A packet whose samples do not all fit is dropped whole: one more overrun, no
/// error, and a line for the first one and each thousandth.
pub proof fn overruns_drop_whole_packets(
    i: &mut Ingest,
    b: &mut JitterBuffer<i16>,
    seq: u16,
    payload: &[u8],
    samples: Vec<i16>,
    r: Result<Option<String>, IngestError>,
)
    requires
        old(i).only is None || old(i).only == Some(PayloadType::Opus),
        old(i).has_decoder,
        old(b)@.len() + samples@.len() > old(b).size(),
        old(b).overrun_count() < u64::MAX,
        call_ensures(
            Ingest::ingest_packet,
            (i, b, PayloadType::Opus, seq, payload, Some(samples)),
            r,
        ),
    ensures
        r is Ok,
        final(b)@ == old(b)@,
        final(b).overrun_count() - old(b).overrun_count() == 1,
        final(i).overrun_log_gate - old(i).overrun_log_gate == 1,
        final(i).malformed == old(i).malformed,
        r->Ok_0 is Some <==> final(i).overrun_log_gate == 1 || final(i).overrun_log_gate % 1000 == 0,
        r->Ok_0 matches Some(line) ==> line@ == overrun_text(final(b).overrun_count()),
{
}

/// The decoder is asked for exactly the Opus packets that are wanted, if there is
/// one.
pub proof fn decoder_is_asked_for_opus(i: &Ingest, kind: PayloadType, asked: bool)
    requires
        call_ensures(Ingest::needs_decoder, (i, kind), asked),
    ensures
        asked <==> kind is Opus && i.has_decoder && !(i.only is Some && i.only->0 is Pcm) && !(
        i.only is Some && i.only->0 is Control),
{
}

/// A datagram that is no packet is counted as malformed and as nothing else.
pub proof fn malformed_datagrams_are_not_received(i: &mut Ingest)
    requires
        old(i).has_room(),
        call_ensures(Ingest::note_malformed, (i,), ()),
    ensures
        final(i).malformed - old(i).malformed == 1,
        final(i).received == old(i).received && final(i).lost == old(i).lost,
        final(i).duplicate == old(i).duplicate && final(i).out_of_order == old(i).out_of_order,
        final(i).seq == old(i).seq && final(i).only == old(i).only,
        final(i).has_decoder == old(i).has_decoder,
        final(i).overrun_log_gate == old(i).overrun_log_gate,
{
}

/// What is wrong with a payload has its own sentence, and the line about an overrun ends
/// with how many there were.
pub proof fn faults_are_told(e: Malformed, m: &'static str, overruns: u64)
    requires
        call_ensures(Malformed::message, (e,), m),
    ensures
        e is OddPcm ==> m@ == "PCM payload length is not even"@,
        e is NoDecoder ==> m@ == "Opus decoder unavailable"@,
        overrun_text(overruns)
            == "openay-server: jitter buffer overrun, dropped whole block (total overruns="@
            + text::decimal(overruns as nat) + ")"@,
{
}

/// An ingest has counted nothing at first and wants what it was told to.
pub proof fn ingests_start_from_nothing(
    only: Option<PayloadType>,
    has_decoder: bool,
    i: Ingest,
    room: bool,
)
    requires
        call_ensures(Ingest::new, (only, has_decoder), i),
        call_ensures(Ingest::counters_have_room, (&i,), room),
    ensures
        i.received == 0 && i.lost == 0 && i.duplicate == 0 && i.out_of_order == 0,
        i.malformed == 0 && i.overrun_log_gate == 0,
        i.only == only && i.has_decoder == has_decoder,
        i.seq.last_seq() is None,
        room,
{
}

} // verus!
