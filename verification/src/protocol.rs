//! The wire format: a 6-byte big-endian header followed by the payload.
//!
//! | Offset | Size | Field          |
//! |--------|------|----------------|
//! | 0      | 1    | magic `0xA7`   |
//! | 1      | 1    | type           |
//! | 2      | 2    | sequence       |
//! | 4      | 2    | payload length |

use vstd::prelude::*;
use vstd::slice::slice_subrange;
use vstd::slice::slice_to_vec;

verus! {

/// First header byte of every packet.
pub const MAGIC: u8 = 0xA7;

/// Header size in bytes: magic, type, 2-byte sequence, 2-byte payload length.
pub const HEADER_LEN: usize = 6;

/// Payload type tag (header byte 1).
#[derive(Debug, Clone, Copy, PartialEq, Eq, Hash, Structural)]
pub enum PayloadType {
    /// Raw PCM: signed 16-bit little-endian, mono, 48 kHz.
    Pcm,
    /// One Opus packet, mono, 48 kHz.
    Opus,
    /// UTF-8 JSON control message.
    Control,
}

/// A wire packet.
#[derive(Debug, Clone, PartialEq, Eq)]
pub struct Packet {
    pub kind: PayloadType,
    pub seq: u16,
    pub payload: Vec<u8>,
}

/// Why bytes are not a packet.
#[derive(Debug, Clone, Copy, PartialEq, Eq, Structural)]
pub enum DecodeError {
    /// The first byte is not [`MAGIC`].
    BadMagic,
    /// Fewer than 6 bytes, or not exactly the declared number of payload bytes.
    Truncated,
    /// The type byte is none of 0, 1 and 2.
    ReservedType,
}

/// A packet as the contracts see it.
pub ghost struct PacketView {
    pub kind: PayloadType,
    pub seq: u16,
    pub payload: Seq<u8>,
}

impl View for Packet {
    type V = PacketView;

    open spec fn view(&self) -> PacketView {
        PacketView { kind: self.kind, seq: self.seq, payload: self.payload@ }
    }
}

/// The type byte of a payload type.
pub open spec fn type_byte(kind: PayloadType) -> u8 {
    match kind {
        PayloadType::Pcm => 0,
        PayloadType::Opus => 1,
        PayloadType::Control => 2,
    }
}

/// The payload type of a type byte.
pub open spec fn payload_type(byte: u8) -> Result<PayloadType, DecodeError> {
    if byte == 0 {
        Ok(PayloadType::Pcm)
    } else if byte == 1 {
        Ok(PayloadType::Opus)
    } else if byte == 2 {
        Ok(PayloadType::Control)
    } else {
        Err(DecodeError::ReservedType)
    }
}

/// The two bytes of `n` modulo 2^16, most significant first.
pub open spec fn be16(n: int) -> Seq<u8> {
    seq![(n / 256 % 256) as u8, (n % 256) as u8]
}

/// The number that two bytes denote, most significant first.
pub open spec fn from_be16(hi: u8, lo: u8) -> u16 {
    (hi * 256 + lo) as u16
}

/// The wire bytes of a packet. The length field holds the payload's length
/// modulo 2^16.
pub open spec fn wire(p: PacketView) -> Seq<u8> {
    seq![MAGIC, type_byte(p.kind)] + be16(p.seq as int) + be16(p.payload.len() as int) + p.payload
}

/// What the first six bytes of `h` declare: the payload type, the sequence
/// number and the payload length.
pub open spec fn header_fields(h: Seq<u8>) -> Result<(PayloadType, u16, u16), DecodeError> {
    if h[0] != MAGIC {
        Err(DecodeError::BadMagic)
    } else {
        match payload_type(h[1]) {
            Err(e) => Err(e),
            Ok(kind) => Ok((kind, from_be16(h[2], h[3]), from_be16(h[4], h[5]))),
        }
    }
}

/// The packet that a whole datagram holds.
pub open spec fn parsed(buf: Seq<u8>) -> Result<PacketView, DecodeError> {
    if buf.len() < HEADER_LEN {
        Err(DecodeError::Truncated)
    } else {
        match header_fields(buf) {
            Err(e) => Err(e),
            Ok((kind, seq, len)) => if buf.len() == HEADER_LEN + len {
                Ok(PacketView { kind, seq, payload: buf.skip(HEADER_LEN as int) })
            } else {
                Err(DecodeError::Truncated)
            },
        }
    }
}

impl TryFrom<u8> for PayloadType {
    type Error = DecodeError;

    fn try_from(value: u8) -> (r: Result<Self, DecodeError>) {
        match value {
            0 => Ok(PayloadType::Pcm),
            1 => Ok(PayloadType::Opus),
            2 => Ok(PayloadType::Control),
            _ => Err(DecodeError::ReservedType),
        }
    }
}

impl vstd::std_specs::convert::TryFromSpecImpl<u8> for PayloadType {
    open spec fn obeys_try_from_spec() -> bool {
        true
    }

    open spec fn try_from_spec(v: u8) -> Result<Self, DecodeError> {
        payload_type(v)
    }
}

impl From<PayloadType> for u8 {
    fn from(t: PayloadType) -> (r: u8) {
        match t {
            PayloadType::Pcm => 0,
            PayloadType::Opus => 1,
            PayloadType::Control => 2,
        }
    }
}

impl vstd::std_specs::convert::FromSpecImpl<PayloadType> for u8 {
    open spec fn obeys_from_spec() -> bool {
        true
    }

    open spec fn from_spec(t: PayloadType) -> u8 {
        type_byte(t)
    }
}

impl DecodeError {
    /// A sentence that says what was wrong.
    pub fn message(&self) -> (m: &'static str)
        ensures
            m@ == (match *self {
                DecodeError::BadMagic => "bad magic byte (expected 0xA7)"@,
                DecodeError::Truncated => "truncated packet (header or payload)"@,
                DecodeError::ReservedType => "reserved packet type"@,
            }),
    {
        match self {
            DecodeError::BadMagic => "bad magic byte (expected 0xA7)",
            DecodeError::Truncated => "truncated packet (header or payload)",
            DecodeError::ReservedType => "reserved packet type",
        }
    }
}

/// Appends the two bytes of `n`, most significant first.
fn push_be16(out: &mut Vec<u8>, n: u16)
    ensures
        final(out)@ == old(out)@ + be16(n as int),
{
    out.push((n / 256) as u8);
    out.push((n % 256) as u8);
    assert(out@ =~= old(out)@ + be16(n as int));
}

/// Reads two bytes, most significant first.
fn read_be16(hi: u8, lo: u8) -> (n: u16)
    ensures
        n == from_be16(hi, lo),
{
    hi as u16 * 256 + lo as u16
}

/// Encodes a packet into its wire representation.
pub fn encode(packet: &Packet) -> (out: Vec<u8>)
    ensures
        out@ == wire(packet@),
{
    let mut out: Vec<u8> = Vec::new();
    out.push(MAGIC);
    out.push(u8::from(packet.kind));
    push_be16(&mut out, packet.seq);
    let len: u16 = (packet.payload.len() % 65536) as u16;
    proof {
        let n = packet.payload@.len() as int;
        assert(be16(n) =~= be16(n % 65536));
    }
    push_be16(&mut out, len);
    let mut i: usize = 0;
    let ghost header = out@;
    while i < packet.payload.len()
        invariant
            i <= packet.payload@.len(),
            out@ == header + packet.payload@.take(i as int),
        decreases packet.payload@.len() - i,
    {
        out.push(packet.payload[i]);
        i = i + 1;
        assert(out@ =~= header + packet.payload@.take(i as int));
    }
    assert(packet.payload@.take(i as int) =~= packet.payload@);
    assert(out@ =~= wire(packet@));
    out
}

/// Decodes one complete datagram.
///
/// The input length must be exactly the header's plus the declared payload
/// length; missing and trailing bytes are both [`DecodeError::Truncated`].
pub fn decode(buf: &[u8]) -> (r: Result<Packet, DecodeError>)
    ensures
        match (r, parsed(buf@)) {
            (Ok(p), Ok(v)) => p@ == v,
            (Err(e), Err(f)) => e == f,
            _ => false,
        },
{
    if buf.len() < HEADER_LEN {
        return Err(DecodeError::Truncated);
    }
    if buf[0] != MAGIC {
        return Err(DecodeError::BadMagic);
    }
    let kind = match PayloadType::try_from(buf[1]) {
        Ok(kind) => kind,
        Err(e) => {
            return Err(e);
        },
    };
    let seq: u16 = read_be16(buf[2], buf[3]);
    let payload_len: usize = read_be16(buf[4], buf[5]) as usize;
    if buf.len() != HEADER_LEN + payload_len {
        return Err(DecodeError::Truncated);
    }
    let payload = slice_to_vec(slice_subrange(buf, HEADER_LEN, buf.len()));
    assert(payload@ =~= buf@.skip(HEADER_LEN as int));
    Ok(Packet { kind, seq, payload })
}

/// The payload length that a header declares.
///
/// Checks magic and type; a reserved type is rejected although the length
/// field could still be read.
pub fn payload_len_from_header(header: &[u8; HEADER_LEN]) -> (r: Result<u16, DecodeError>)
    ensures
        r == (match header_fields(header@) {
            Ok((_, _, len)) => Ok(len),
            Err(e) => Err(e),
        }),
{
    if header[0] != MAGIC {
        return Err(DecodeError::BadMagic);
    }
    match PayloadType::try_from(header[1]) {
        Ok(_) => Ok(read_be16(header[4], header[5])),
        Err(e) => Err(e),
    }
}

/// A type byte names the payload type it was made from, and every byte that
/// names one was made from it.
pub proof fn type_bytes_round_trip(kind: PayloadType, byte: u8)
    ensures
        payload_type(type_byte(kind)) == Ok::<PayloadType, DecodeError>(kind),
        payload_type(byte) matches Ok(k) ==> type_byte(k) == byte,
        payload_type(byte) is Err <==> byte > 2,
{
}

/// Two bytes read back as the number they were written from.
pub proof fn be16_round_trip(n: u16)
    ensures
        from_be16(be16(n as int)[0], be16(n as int)[1]) == n,
{
}

/// Decoding an encoded packet gives the packet back, for every payload whose
/// length fits the 16-bit length field.
pub proof fn decode_undoes_encode(p: PacketView)
    requires
        p.payload.len() <= 0xFFFF,
    ensures
        parsed(wire(p)) == Ok::<PacketView, DecodeError>(p),
        wire(p).len() == HEADER_LEN + p.payload.len(),
{
    let w = wire(p);
    be16_round_trip(p.seq);
    be16_round_trip(p.payload.len() as u16);
    assert(w[0] == MAGIC);
    assert(w[1] == type_byte(p.kind));
    assert(w[2] == be16(p.seq as int)[0]);
    assert(w[3] == be16(p.seq as int)[1]);
    assert(w[4] == be16(p.payload.len() as int)[0]);
    assert(w[5] == be16(p.payload.len() as int)[1]);
    assert(w.skip(HEADER_LEN as int) =~= p.payload);
}

/// Encoding a decoded packet gives the datagram back, byte for byte.
pub proof fn encode_undoes_decode(buf: Seq<u8>)
    requires
        parsed(buf) is Ok,
    ensures
        wire(parsed(buf)->Ok_0) == buf,
{
    let p = parsed(buf)->Ok_0;
    type_bytes_round_trip(p.kind, buf[1]);
    assert(p.seq as int == buf[2] * 256 + buf[3]);
    assert(p.payload.len() == buf[4] * 256 + buf[5]);
    assert(wire(p) =~= buf);
}

/// A datagram is rejected as truncated, badly marked or reserved in this
/// order, and accepted exactly if it is byte-exact.
pub proof fn decode_verdict(buf: Seq<u8>)
    ensures
        buf.len() < HEADER_LEN ==> parsed(buf) == Err::<PacketView, DecodeError>(
            DecodeError::Truncated,
        ),
        parsed(buf) == Err::<PacketView, DecodeError>(DecodeError::BadMagic) <==> buf.len()
            >= HEADER_LEN && buf[0] != MAGIC,
        parsed(buf) == Err::<PacketView, DecodeError>(DecodeError::ReservedType) <==> buf.len()
            >= HEADER_LEN && buf[0] == MAGIC && buf[1] > 2,
        parsed(buf) is Ok <==> buf.len() >= HEADER_LEN && buf[0] == MAGIC && buf[1] <= 2
            && buf.len() == HEADER_LEN + buf[4] * 256 + buf[5],
{
}

/// No datagram with bytes added to it or taken from its end is accepted.
pub proof fn no_trailing_or_missing_bytes(buf: Seq<u8>, more: Seq<u8>)
    requires
        parsed(buf) is Ok,
        more.len() > 0,
    ensures
        parsed(buf + more) == Err::<PacketView, DecodeError>(DecodeError::Truncated),
        forall|k: int|
            0 <= k < buf.len() ==> parsed(#[trigger] buf.take(k)) == Err::<PacketView, DecodeError>(
                DecodeError::Truncated,
            ),
{
}

/// The header of a packet byte by byte: the magic byte, the type, and the number and
/// the length with their larger parts first; the payload follows.
pub proof fn header_layout(p: PacketView)
    requires
        p.payload.len() <= 0xFFFF,
    ensures
        wire(p)[0] == 0xA7,
        wire(p)[1] == (match p.kind {
            PayloadType::Pcm => 0u8,
            PayloadType::Opus => 1,
            PayloadType::Control => 2,
        }),
        wire(p)[2] * 256 + wire(p)[3] == p.seq,
        wire(p)[4] * 256 + wire(p)[5] == p.payload.len(),
        wire(p).skip(6) == p.payload,
        wire(p).len() == 6 + p.payload.len(),
{
    assert(wire(p).skip(6) =~= p.payload);
}

/// A received header says what its bytes say.
pub proof fn header_bytes_are_read_as_written(h: Seq<u8>)
    requires
        h.len() >= 6,
        h[0] == 0xA7,
    ensures
        h[1] <= 2 ==> (header_fields(h) matches Ok((kind, seq, len)) && {
            &&& kind == (if h[1] == 0 {
                PayloadType::Pcm
            } else if h[1] == 1 {
                PayloadType::Opus
            } else {
                PayloadType::Control
            })
            &&& seq == h[2] * 256 + h[3]
            &&& len == h[4] * 256 + h[5]
        }),
        h[1] > 2 ==> header_fields(h) is Err,
{
}

/// The bytes of a packet are its magic byte, its type, its number and its length, most
/// significant byte first, and its payload; the length counts modulo 2^16.
pub proof fn packets_are_laid_out(p: &Packet, out: Vec<u8>)
    requires
        call_ensures(encode, (p,), out),
    ensures
        out@.len() == 6 + p@.payload.len(),
        out@[0] == 0xA7,
        p@.kind is Pcm <==> out@[1] == 0,
        p@.kind is Opus <==> out@[1] == 1,
        p@.kind is Control <==> out@[1] == 2,
        out@[2] * 256 + out@[3] == p@.seq,
        out@[4] * 256 + out@[5] == p@.payload.len() % 0x1_0000,
        out@.skip(6) == p@.payload,
{
    let w = wire(p@);
    let n = p@.payload.len() as int;
    assert(w[2] == be16(p@.seq as int)[0] && w[3] == be16(p@.seq as int)[1]);
    assert(w[4] == be16(n)[0] && w[5] == be16(n)[1]);
    assert(w.skip(6) =~= p@.payload);
}

/// What was encoded is decoded as it was, as long as its length can be told; no other
/// bytes are.
pub proof fn decoding_gives_back_what_was_encoded(
    p: &Packet,
    out: Vec<u8>,
    buf: &[u8],
    r: Result<Packet, DecodeError>,
)
    requires
        call_ensures(encode, (p,), out),
        call_ensures(decode, (buf,), r),
        p@.payload.len() <= 0xFFFF,
    ensures
        buf@ == out@ ==> (r matches Ok(q) && q@ == p@),
        r matches Ok(q) ==> wire(q@) == buf@,
        buf@.len() < 6 ==> r == Err::<Packet, DecodeError>(DecodeError::Truncated),
        buf@.len() >= 6 && buf@[0] != 0xA7 ==> r == Err::<Packet, DecodeError>(
            DecodeError::BadMagic,
        ),
        buf@.len() >= 6 && buf@[0] == 0xA7 && buf@[1] > 2 ==> r == Err::<Packet, DecodeError>(
            DecodeError::ReservedType,
        ),
        buf@.len() >= 6 && buf@[0] == 0xA7 && buf@[1] <= 2 ==> (r is Ok <==> buf@.len() == 6
            + buf@[4] * 256 + buf@[5]),
{
    decode_undoes_encode(p@);
    if r is Ok {
        encode_undoes_decode(buf@);
    }
}

/// A header tells the length of its payload in its last two bytes, if it begins with
/// the magic byte and a known type.
pub proof fn headers_tell_the_length(h: &[u8; HEADER_LEN], r: Result<u16, DecodeError>)
    requires
        call_ensures(payload_len_from_header, (h,), r),
    ensures
        h@[0] == 0xA7 && h@[1] <= 2 ==> (r matches Ok(len) && len == h@[4] * 256 + h@[5]),
        h@[0] != 0xA7 ==> r == Err::<u16, DecodeError>(DecodeError::BadMagic),
        h@[0] == 0xA7 && h@[1] > 2 ==> r == Err::<u16, DecodeError>(DecodeError::ReservedType),
{
}

/// Each reason for which bytes are no packet has its own sentence.
pub proof fn refusals_say_why(e: &DecodeError, m: &'static str)
    requires
        call_ensures(DecodeError::message, (e,), m),
    ensures
        *e is BadMagic ==> m@ == "bad magic byte (expected 0xA7)"@,
        *e is Truncated ==> m@ == "truncated packet (header or payload)"@,
        *e is ReservedType ==> m@ == "reserved packet type"@,
{
}

} // verus!
