//! The rules around the Opus codec: 48 kHz mono, 10 ms frames, 16 to 96 kbps.
//!
//! The coder itself belongs to the caller. The functions here say when it may be
//! called and what its answer means.

use vstd::prelude::*;

use crate::text;
use crate::text::push_decimal;

verus! {

/// Samples per second.
pub const SAMPLE_RATE: u32 = 48_000;

/// Channels: mono.
pub const CHANNELS: u16 = 1;

/// Samples in a frame of 10 ms.
pub const FRAME_SAMPLES: usize = 480;

/// Bitrate of the encoder unless set otherwise, in bits per second.
pub const DEFAULT_BITRATE: u32 = 32_000;

/// Smallest bitrate.
pub const MIN_BITRATE: u32 = 16_000;

/// Largest bitrate.
pub const MAX_BITRATE: u32 = 96_000;

/// Size of a buffer that holds any encoded frame.
pub const MAX_PACKET: usize = 4_000;

/// Why a codec call was refused or failed.
#[derive(Debug, PartialEq, Eq)]
pub enum CodecError {
    /// The coder failed, for that reason.
    Opus(String),
    /// A frame does not have exactly 480 samples.
    BadFrameSize { expected: usize, got: usize },
    /// A bitrate lies outside the range.
    BadBitrate(u32),
    /// A packet holds no byte.
    EmptyPacket,
}

/// The text of a codec error.
pub open spec fn error_text(e: CodecError) -> Seq<char> {
    match e {
        CodecError::Opus(reason) => "opus error: "@ + reason@,
        CodecError::BadFrameSize { expected, got } => "bad frame size: expected "@ + text::decimal(
            expected as nat,
        ) + " samples, got "@ + text::decimal(got as nat),
        CodecError::BadBitrate(bps) => "bitrate "@ + text::decimal(bps as nat)
            + " bps outside supported range "@ + text::decimal(MIN_BITRATE as nat) + "..="@
            + text::decimal(MAX_BITRATE as nat),
        CodecError::EmptyPacket => "empty opus packet"@,
    }
}

impl CodecError {
    /// A sentence that says what was wrong.
    pub fn message(&self) -> (m: String)
        ensures
            m@ == error_text(*self),
    {
        let mut m = String::new();
        match self {
            CodecError::Opus(reason) => {
                m.append("opus error: ");
                m.append(reason.as_str());
            },
            CodecError::BadFrameSize { expected, got } => {
                m.append("bad frame size: expected ");
                push_decimal(&mut m, *expected as u64);
                m.append(" samples, got ");
                push_decimal(&mut m, *got as u64);
            },
            CodecError::BadBitrate(bps) => {
                m.append("bitrate ");
                push_decimal(&mut m, *bps as u64);
                m.append(" bps outside supported range ");
                push_decimal(&mut m, MIN_BITRATE as u64);
                m.append("..=");
                push_decimal(&mut m, MAX_BITRATE as u64);
            },
            CodecError::EmptyPacket => {
                m.append("empty opus packet");
            },
        }
        assert(m@ =~= error_text(*self));
        m
    }
}

/// Whether a bitrate lies in the range.
pub open spec fn bitrate_in_range(bps: u32) -> bool {
    MIN_BITRATE <= bps <= MAX_BITRATE
}

/// The settings of a codec.
#[derive(Debug, PartialEq, Eq)]
pub struct OpusCodec {
    bitrate: u32,
}

impl OpusCodec {
    /// The bitrate of the encoder.
    pub closed spec fn rate(self) -> u32 {
        self.bitrate
    }

    /// The invariant: the bitrate lies in the range.
    pub open spec fn wf(self) -> bool {
        bitrate_in_range(self.rate())
    }

    /// A codec with the default bitrate.
    pub fn new() -> (c: Self)
        ensures
            c.wf(),
            c.rate() == DEFAULT_BITRATE,
    {
        OpusCodec { bitrate: DEFAULT_BITRATE }
    }

    /// Whether the encoder may be asked for a bitrate.
    pub fn admit_bitrate(bps: u32) -> (r: Result<(), CodecError>)
        ensures
            bitrate_in_range(bps) ==> r == Ok::<(), CodecError>(()),
            !bitrate_in_range(bps) ==> r == Err::<(), CodecError>(CodecError::BadBitrate(bps)),
    {
        if bps < MIN_BITRATE || bps > MAX_BITRATE {
            Err(CodecError::BadBitrate(bps))
        } else {
            Ok(())
        }
    }

    /// Takes a bitrate over. `applied` is the encoder's answer; it has no part
    /// where the bitrate is not in the range.
    pub fn set_bitrate(&mut self, bps: u32, applied: Result<(), String>) -> (r: Result<
        (),
        CodecError,
    >)
        requires
            old(self).wf(),
        ensures
            final(self).wf(),
            !bitrate_in_range(bps) ==> {
                &&& r == Err::<(), CodecError>(CodecError::BadBitrate(bps))
                &&& final(self).rate() == old(self).rate()
            },
            bitrate_in_range(bps) ==> match applied {
                Ok(_) => r is Ok && final(self).rate() == bps,
                Err(reason) => {
                    &&& r == Err::<(), CodecError>(CodecError::Opus(reason))
                    &&& final(self).rate() == old(self).rate()
                },
            },
    {
        match Self::admit_bitrate(bps) {
            Ok(_) => {},
            Err(e) => {
                return Err(e);
            },
        }
        match applied {
            Ok(_) => {
                self.bitrate = bps;
                Ok(())
            },
            Err(reason) => Err(CodecError::Opus(reason)),
        }
    }

    /// The bitrate of the encoder, in bits per second.
    pub fn bitrate(&self) -> (bps: u32)
        ensures
            bps == self.rate(),
    {
        self.bitrate
    }

    /// Whether the encoder may be given a frame.
    pub fn admit_frame(pcm: &[i16]) -> (r: Result<(), CodecError>)
        ensures
            pcm@.len() == FRAME_SAMPLES ==> r == Ok::<(), CodecError>(()),
            pcm@.len() != FRAME_SAMPLES ==> r == Err::<(), CodecError>(
                CodecError::BadFrameSize { expected: FRAME_SAMPLES, got: pcm@.len() as usize },
            ),
    {
        if pcm.len() != FRAME_SAMPLES {
            Err(CodecError::BadFrameSize { expected: FRAME_SAMPLES, got: pcm.len() })
        } else {
            Ok(())
        }
    }

    /// The packet for a frame. `buffer` is what the encoder wrote into and
    /// `coded` how many bytes it wrote; neither has a part where the frame does
    /// not have the right size.
    pub fn encode(pcm: &[i16], buffer: Vec<u8>, coded: Result<usize, String>) -> (r: Result<
        Vec<u8>,
        CodecError,
    >)
        ensures
            pcm@.len() != FRAME_SAMPLES ==> r == Err::<Vec<u8>, CodecError>(
                CodecError::BadFrameSize { expected: FRAME_SAMPLES, got: pcm@.len() as usize },
            ),
            pcm@.len() == FRAME_SAMPLES ==> match coded {
                Ok(n) => r matches Ok(packet) && packet@ == first(buffer@, n as nat),
                Err(reason) => r == Err::<Vec<u8>, CodecError>(CodecError::Opus(reason)),
            },
    {
        match Self::admit_frame(pcm) {
            Ok(_) => {},
            Err(e) => {
                return Err(e);
            },
        }
        match coded {
            Ok(n) => {
                let mut packet = buffer;
                packet.truncate(n);
                assert(packet@ =~= first(buffer@, n as nat));
                Ok(packet)
            },
            Err(reason) => Err(CodecError::Opus(reason)),
        }
    }

    /// Whether the decoder may be given a packet.
    pub fn admit_packet(pkt: &[u8]) -> (r: Result<(), CodecError>)
        ensures
            pkt@.len() > 0 ==> r == Ok::<(), CodecError>(()),
            pkt@.len() == 0 ==> r == Err::<(), CodecError>(CodecError::EmptyPacket),
    {
        if pkt.len() == 0 {
            Err(CodecError::EmptyPacket)
        } else {
            Ok(())
        }
    }

    /// The samples of a packet. `buffer` is what the decoder wrote into and
    /// `decoded` how many samples it wrote; neither has a part where the packet
    /// is empty.
    pub fn decode(pkt: &[u8], buffer: Vec<i16>, decoded: Result<usize, String>) -> (r: Result<
        Vec<i16>,
        CodecError,
    >)
        ensures
            pkt@.len() == 0 ==> r == Err::<Vec<i16>, CodecError>(CodecError::EmptyPacket),
            pkt@.len() > 0 ==> match decoded {
                Ok(n) => r matches Ok(frame) && frame@ == first(buffer@, n as nat),
                Err(reason) => r == Err::<Vec<i16>, CodecError>(CodecError::Opus(reason)),
            },
    {
        match Self::admit_packet(pkt) {
            Ok(_) => {},
            Err(e) => {
                return Err(e);
            },
        }
        match decoded {
            Ok(n) => {
                let mut frame = buffer;
                frame.truncate(n);
                assert(frame@ =~= first(buffer@, n as nat));
                Ok(frame)
            },
            Err(reason) => Err(CodecError::Opus(reason)),
        }
    }
}

/// The first `n` items of `s`, or all of them if there are fewer.
pub open spec fn first<T>(s: Seq<T>, n: nat) -> Seq<T> {
    if n < s.len() {
        s.take(n as int)
    } else {
        s
    }
}

/// The encoder takes 16 to 96 kbps, its default among them, and frames of 10 ms.
pub proof fn codec_limits(bps: u32)
    ensures
        bitrate_in_range(bps) <==> 16_000 <= bps <= 96_000,
        DEFAULT_BITRATE == 32_000,
        FRAME_SAMPLES * 100 == SAMPLE_RATE,
        SAMPLE_RATE == 48_000,
{
}

/// An encoded frame is what the encoder wrote, no more; a decoded packet likewise.
/// Only a wrong size, an empty packet or the coder itself makes either fail.
pub proof fn coded_bytes_are_what_was_written(
    pcm: &[i16],
    pkt: &[u8],
    bytes: Vec<u8>,
    samples: Vec<i16>,
    n: usize,
    encoded: Result<Vec<u8>, CodecError>,
    decoded: Result<Vec<i16>, CodecError>,
)
    requires
        n <= bytes@.len(),
        n <= samples@.len(),
        call_ensures(OpusCodec::encode, (pcm, bytes, Ok(n)), encoded),
        call_ensures(OpusCodec::decode, (pkt, samples, Ok(n)), decoded),
    ensures
        encoded is Ok <==> pcm@.len() == 480,
        encoded matches Ok(packet) ==> packet@ == bytes@.take(n as int),
        decoded is Ok <==> pkt@.len() > 0,
        decoded matches Ok(frame) ==> frame@ == samples@.take(n as int),
{
    assert(bytes@.take(n as int) =~= first(bytes@, n as nat));
    assert(samples@.take(n as int) =~= first(samples@, n as nat));
}

/// Whether a bitrate, a frame or a packet may be given to the coder is what the
/// calls themselves go by.
pub proof fn admission_agrees_with_the_calls(
    bps: u32,
    pcm: &[i16],
    pkt: &[u8],
    rate: Result<(), CodecError>,
    frame: Result<(), CodecError>,
    packet: Result<(), CodecError>,
)
    requires
        call_ensures(OpusCodec::admit_bitrate, (bps,), rate),
        call_ensures(OpusCodec::admit_frame, (pcm,), frame),
        call_ensures(OpusCodec::admit_packet, (pkt,), packet),
    ensures
        rate is Ok <==> 16_000 <= bps <= 96_000,
        rate is Err ==> rate->Err_0 == CodecError::BadBitrate(bps),
        frame is Ok <==> pcm@.len() == 480,
        frame is Err ==> frame->Err_0 == (CodecError::BadFrameSize {
            expected: 480,
            got: pcm@.len() as usize,
        }),
        packet is Ok <==> pkt@.len() > 0,
        packet is Err ==> packet->Err_0 == CodecError::EmptyPacket,
{
}

/// A bitrate in the range that the encoder took is the bitrate from then on; any other
/// is refused and leaves the bitrate as it was.
pub proof fn bitrates_are_kept_or_taken(
    c: &mut OpusCodec,
    bps: u32,
    applied: Result<(), String>,
    r: Result<(), CodecError>,
    after: u32,
)
    requires
        call_ensures(OpusCodec::set_bitrate, (c, bps, applied), r),
        call_ensures(OpusCodec::bitrate, (&*final(c),), after),
    ensures
        r is Ok <==> 16_000 <= bps <= 96_000 && applied is Ok,
        r is Ok ==> after == bps,
        r is Err ==> after == old(c).rate(),
        !(16_000 <= bps <= 96_000) ==> r == Err::<(), CodecError>(CodecError::BadBitrate(bps)),
        16_000 <= bps <= 96_000 && applied is Err ==> r == Err::<(), CodecError>(
            CodecError::Opus(applied->Err_0),
        ),
{
}

/// What the coder answers with is passed on: its error where it failed.
pub proof fn coder_errors_are_passed_on(
    pcm: &[i16],
    bytes: Vec<u8>,
    reason: String,
    encoded: Result<Vec<u8>, CodecError>,
    pkt: &[u8],
    samples: Vec<i16>,
    decoded: Result<Vec<i16>, CodecError>,
)
    requires
        call_ensures(OpusCodec::encode, (pcm, bytes, Err(reason)), encoded),
        call_ensures(OpusCodec::decode, (pkt, samples, Err(reason)), decoded),
    ensures
        pcm@.len() == 480 ==> encoded == Err::<Vec<u8>, CodecError>(CodecError::Opus(reason)),
        pcm@.len() != 480 ==> encoded == Err::<Vec<u8>, CodecError>(
            CodecError::BadFrameSize { expected: 480, got: pcm@.len() as usize },
        ),
        pkt@.len() > 0 ==> decoded == Err::<Vec<i16>, CodecError>(CodecError::Opus(reason)),
        pkt@.len() == 0 ==> decoded == Err::<Vec<i16>, CodecError>(CodecError::EmptyPacket),
{
}

/// What was wrong is told with its numbers: the frame that was given, the bitrate that
/// was asked for, the coder's reason.
pub proof fn refusals_are_told(e: &CodecError, m: String)
    requires
        call_ensures(CodecError::message, (e,), m),
    ensures
        *e matches CodecError::Opus(reason) ==> m@ == "opus error: "@ + reason@,
        *e matches CodecError::BadFrameSize { expected, got } ==> m@
            == "bad frame size: expected "@ + text::decimal(expected as nat) + " samples, got "@
            + text::decimal(got as nat),
        *e matches CodecError::BadBitrate(bps) ==> m@ == "bitrate "@ + text::decimal(bps as nat)
            + " bps outside supported range "@ + text::decimal(16_000) + "..="@ + text::decimal(
            96_000,
        ),
        *e is EmptyPacket ==> m@ == "empty opus packet"@,
{
}

/// A new codec has the default bitrate of 32 kbps, which lies in the range; audio is mono,
/// and a buffer of 4000 bytes holds any packet.
pub proof fn codecs_start_at_the_default(c: OpusCodec, bps: u32)
    requires
        call_ensures(OpusCodec::new, (), c),
        call_ensures(OpusCodec::bitrate, (&c,), bps),
    ensures
        bps == 32_000,
        c.wf(),
        CHANNELS == 1,
        MAX_PACKET == 4_000,
{
}

} // verus!
