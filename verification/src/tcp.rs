//! Byte-stream framing: packets back to back, with a search for the next
//! packet start where the stream lost its place.
//!
//! Where a packet should start and there is no magic byte, the bytes are garbage
//! up to the next magic byte, and reading resumes from there. The search covers
//! 64 KiB. Among the six bytes that were read as a header, a magic byte counts only
//! with a known type behind it; a magic byte further on always counts.
//!
//! A header with the magic byte and a reserved type is an error.

use vstd::prelude::*;
use vstd::slice::slice_subrange;
use vstd::slice::slice_to_vec;

use crate::protocol;
use crate::protocol::encode;
use crate::protocol::Packet;
use crate::protocol::PayloadType;
use crate::protocol::HEADER_LEN;
use crate::protocol::MAGIC;
use crate::text;
use crate::text::push_decimal;

verus! {

/// How many bytes of garbage the search for a magic byte goes past before it
/// gives up.
pub const MAX_RESYNC_SCAN: usize = 65536;

/// Why a stream gave no packet.
#[derive(Debug, Clone, Copy, PartialEq, Eq, Structural)]
pub enum FramingError {
    /// The search for a magic byte found none in time.
    NoMagic,
    /// A header with a good magic byte carries a reserved type.
    ReservedType,
    /// The stream ended between packets.
    Closed,
    /// The stream ended with `had` bytes read and `needed` more wanted.
    Truncated { needed: usize, had: usize },
}

/// What a reader is in the middle of.
#[derive(Debug, Clone, Copy, PartialEq, Eq, Structural)]
pub enum Phase {
    /// Waiting for a header.
    Header,
    /// Searching for a magic byte, behind so many bytes of garbage.
    Scan(usize),
    /// Waiting for the payload that a header declared.
    Payload(PayloadType, u16, u16),
}

/// What the bytes at hand lead to.
#[verifier::ext_equal]
pub ghost enum Progress {
    /// A packet, with the bytes after it.
    Packet(protocol::PacketView, Seq<u8>),
    /// A failure, with the bytes left over.
    Failed(FramingError, Seq<u8>),
    /// More bytes are needed to go on.
    Starved(Phase, Seq<u8>),
}

/// Whether reading may resume at place `i`, behind `passed` bytes of garbage
/// before the first one: at the magic byte. Within the length of a header from the
/// start of the garbage, a known type has to stand behind it, as far as there is a
/// byte behind it.
pub open spec fn may_start(passed: int, bytes: Seq<u8>, i: int) -> bool {
    &&& bytes[i] == MAGIC
    &&& passed + i < HEADER_LEN && i + 1 < bytes.len() ==> protocol::payload_type(
        bytes[i + 1],
    ) is Ok
}

/// The number of bytes from `from` on that come before reading may resume.
pub open spec fn garbage_from(passed: int, bytes: Seq<u8>, from: int) -> int
    decreases bytes.len() - from,
{
    if from >= bytes.len() || may_start(passed, bytes, from) {
        0
    } else {
        1 + garbage_from(passed, bytes, from + 1)
    }
}

/// The number of bytes that come before reading may resume.
pub open spec fn garbage(passed: int, bytes: Seq<u8>) -> int {
    garbage_from(passed, bytes, 0)
}

/// Whether it is settled that reading resumes at the first byte: it may, and the
/// type behind it is there where it counts.
pub open spec fn starts(passed: int, bytes: Seq<u8>) -> bool {
    &&& bytes.len() > 0
    &&& passed < HEADER_LEN ==> bytes.len() > 1
    &&& may_start(passed, bytes, 0)
}

/// Reading goes on with a declared payload.
pub open spec fn at_payload(kind: PayloadType, seq: u16, len: u16, bytes: Seq<u8>) -> Progress {
    if bytes.len() < len {
        Progress::Starved(Phase::Payload(kind, seq, len), bytes)
    } else {
        Progress::Packet(
            protocol::PacketView { kind, seq, payload: bytes.take(len as int) },
            bytes.skip(len as int),
        )
    }
}

/// Reading goes on at a magic byte.
pub open spec fn at_magic(bytes: Seq<u8>) -> Progress {
    if bytes.len() < HEADER_LEN {
        Progress::Starved(Phase::Header, bytes)
    } else {
        match protocol::header_fields(bytes) {
            Ok((kind, seq, len)) => at_payload(kind, seq, len, bytes.skip(HEADER_LEN as int)),
            Err(_) => Progress::Failed(FramingError::ReservedType, bytes),
        }
    }
}

/// Reading goes on with the search for a magic byte, behind `passed` bytes of
/// garbage.
pub open spec fn at_scan(passed: int, bytes: Seq<u8>) -> Progress {
    let n = garbage(passed, bytes);
    let rest = bytes.skip(n);
    if passed + n > MAX_RESYNC_SCAN {
        Progress::Failed(FramingError::NoMagic, rest)
    } else if starts(passed + n, rest) {
        at_magic(rest)
    } else {
        Progress::Starved(Phase::Scan((passed + n) as usize), rest)
    }
}

/// Reading goes on where a packet should start. Without the magic byte there, the
/// search starts at the next byte.
pub open spec fn at_header(bytes: Seq<u8>) -> Progress {
    if bytes.len() < HEADER_LEN {
        Progress::Starved(Phase::Header, bytes)
    } else if bytes[0] != MAGIC {
        at_scan(1, bytes.skip(1))
    } else {
        at_magic(bytes)
    }
}

/// What the bytes at hand lead to in a phase.
pub open spec fn progress(phase: Phase, bytes: Seq<u8>) -> Progress {
    match phase {
        Phase::Header => at_header(bytes),
        Phase::Scan(passed) => at_scan(passed as int, bytes),
        Phase::Payload(kind, seq, len) => at_payload(kind, seq, len, bytes),
    }
}

/// The failure that the end of the stream is in a phase. A last byte that may
/// start a packet is the start of a header.
pub open spec fn end_of_stream(phase: Phase, had: nat) -> FramingError {
    match phase {
        Phase::Scan(_) if had == 0 => FramingError::NoMagic,
        _ if had == 0 => FramingError::Closed,
        Phase::Payload(_, _, len) => FramingError::Truncated {
            needed: (len - had) as usize,
            had: had as usize,
        },
        _ => FramingError::Truncated {
            needed: (HEADER_LEN - had) as usize,
            had: had as usize,
        },
    }
}

/// The text of a framing error.
pub open spec fn error_text(e: FramingError) -> Seq<char> {
    match e {
        FramingError::NoMagic => "TcpPacketStream: no magic byte within "@ + text::decimal(
            MAX_RESYNC_SCAN as nat,
        ) + " bytes"@,
        FramingError::ReservedType => "TcpPacketStream: reserved packet type in stream"@,
        FramingError::Closed => "connection closed by peer"@,
        FramingError::Truncated { needed, had } => "truncated: needed "@ + text::decimal(
            needed as nat,
        ) + " bytes, had "@ + text::decimal(had as nat) + " before EOF"@,
    }
}

impl FramingError {
    /// Whether the stream ended, rather than holding invalid data.
    pub fn is_end_of_stream(&self) -> (r: bool)
        ensures
            r == (*self is Closed || *self is Truncated),
    {
        match self {
            FramingError::Closed => true,
            FramingError::Truncated { .. } => true,
            _ => false,
        }
    }

    /// A sentence that says what was wrong.
    pub fn message(&self) -> (m: String)
        ensures
            m@ == error_text(*self),
    {
        let mut m = String::new();
        match self {
            FramingError::NoMagic => {
                m.append("TcpPacketStream: no magic byte within ");
                push_decimal(&mut m, MAX_RESYNC_SCAN as u64);
                m.append(" bytes");
            },
            FramingError::ReservedType => {
                m.append("TcpPacketStream: reserved packet type in stream");
            },
            FramingError::Closed => {
                m.append("connection closed by peer");
            },
            FramingError::Truncated { needed, had } => {
                m.append("truncated: needed ");
                push_decimal(&mut m, *needed as u64);
                m.append(" bytes, had ");
                push_decimal(&mut m, *had as u64);
                m.append(" before EOF");
            },
        }
        assert(m@ =~= error_text(*self));
        m
    }
}

/// What a reader has to say about the bytes it was fed so far.
pub enum Poll {
    /// The next packet.
    Packet(Packet),
    /// The stream is unusable from here.
    Failed(FramingError),
    /// The next packet is not complete yet.
    Starved,
}

/// A byte stream with packet framing. The stream itself is opaque here: its
/// owner reads bytes from it and feeds them in.
pub struct TcpPacketStream<T> {
    stream: T,
    pending: Vec<u8>,
    phase: Phase,
}

impl<T> TcpPacketStream<T> {
    /// The wrapped stream.
    pub closed spec fn inner(self) -> T {
        self.stream
    }

    /// Bytes fed in and not used up yet.
    pub closed spec fn unread(self) -> Seq<u8> {
        self.pending@
    }

    /// What reading is in the middle of.
    pub closed spec fn at(self) -> Phase {
        self.phase
    }

    /// Nothing more can be said about the bytes fed in so far.
    pub open spec fn is_starved(self) -> bool {
        progress(self.at(), self.unread()) == Progress::Starved(self.at(), self.unread())
    }

    /// Wraps a stream.
    pub fn new(stream: T) -> (s: Self)
        ensures
            s.inner() == stream,
            s.unread() == Seq::<u8>::empty(),
            s.at() == Phase::Header,
    {
        TcpPacketStream { stream, pending: Vec::new(), phase: Phase::Header }
    }

    /// Gives the stream back.
    pub fn into_inner(self) -> (stream: T)
        ensures
            stream == self.inner(),
    {
        self.stream
    }

    /// Borrows the stream.
    pub fn get_ref(&self) -> (stream: &T)
        ensures
            *stream == self.inner(),
    {
        &self.stream
    }

    /// Borrows the stream mutably.
    pub fn get_mut(&mut self) -> (stream: &mut T)
        ensures
            *stream == old(self).inner(),
            final(self).inner() == *final(stream),
            final(self).unread() == old(self).unread(),
            final(self).at() == old(self).at(),
    {
        &mut self.stream
    }

    /// The bytes to write for a packet.
    pub fn frame(packet: &Packet) -> (out: Vec<u8>)
        ensures
            out@ == protocol::wire(packet@),
    {
        encode(packet)
    }

    /// Takes in bytes read from the stream.
    pub fn feed(&mut self, chunk: &[u8])
        ensures
            final(self).unread() == old(self).unread() + chunk@,
            final(self).at() == old(self).at(),
            final(self).inner() == old(self).inner(),
    {
        self.pending.extend_from_slice(chunk);
        assert(self.pending@ =~= old(self).pending@ + chunk@);
    }

    /// Drops the first `n` unread bytes.
    fn drop_front(&mut self, n: usize)
        requires
            n <= old(self).unread().len(),
        ensures
            final(self).unread() == old(self).unread().skip(n as int),
            final(self).at() == old(self).at(),
            final(self).inner() == old(self).inner(),
    {
        self.pending = slice_to_vec(
            slice_subrange(self.pending.as_slice(), n, self.pending.len()),
        );
        assert(self.pending@ =~= old(self).pending@.skip(n as int));
    }

    /// The number of unread bytes that come before reading may resume.
    fn leading_garbage(&self, passed: usize) -> (n: usize)
        requires
            passed <= MAX_RESYNC_SCAN,
        ensures
            n == garbage(passed as int, self.unread()),
            n <= self.unread().len(),
    {
        let len: usize = self.pending.len();
        let mut n: usize = 0;
        while n < len
            invariant
                passed <= MAX_RESYNC_SCAN,
                len == self.pending@.len(),
                n <= len,
                garbage(passed as int, self.pending@) == n + garbage_from(
                    passed as int,
                    self.pending@,
                    n as int,
                ),
            decreases len - n,
        {
            if self.pending[n] == MAGIC {
                let known: bool = if n < HEADER_LEN && passed + n < HEADER_LEN && n + 1 < len {
                    match PayloadType::try_from(self.pending[n + 1]) {
                        Ok(_) => true,
                        Err(_) => false,
                    }
                } else {
                    true
                };
                if known {
                    return n;
                }
            }
            n = n + 1;
        }
        n
    }

    /// Goes on with a declared payload.
    fn poll_payload(&mut self, kind: PayloadType, seq: u16, len: u16) -> (r: Poll)
        ensures
            final(self).inner() == old(self).inner(),
            poll_result(
                at_payload(kind, seq, len, old(self).unread()),
                r,
                final(self).at(),
                final(self).unread(),
            ),
    {
        if self.pending.len() < len as usize {
            self.phase = Phase::Payload(kind, seq, len);
            return Poll::Starved;
        }
        let payload = slice_to_vec(slice_subrange(self.pending.as_slice(), 0, len as usize));
        assert(payload@ =~= self.pending@.take(len as int));
        self.drop_front(len as usize);
        self.phase = Phase::Header;
        Poll::Packet(Packet { kind, seq, payload })
    }

    /// Goes on at a magic byte.
    fn poll_magic(&mut self) -> (r: Poll)
        requires
            old(self).unread().len() >= 1,
            old(self).unread()[0] == MAGIC,
        ensures
            final(self).inner() == old(self).inner(),
            poll_result(
                at_magic(old(self).unread()),
                r,
                final(self).at(),
                final(self).unread(),
            ),
    {
        self.phase = Phase::Header;
        if self.pending.len() < HEADER_LEN {
            return Poll::Starved;
        }
        let kind = match PayloadType::try_from(self.pending[1]) {
            Ok(kind) => kind,
            Err(_) => {
                return Poll::Failed(FramingError::ReservedType);
            },
        };
        let seq: u16 = self.pending[2] as u16 * 256 + self.pending[3] as u16;
        let len: u16 = self.pending[4] as u16 * 256 + self.pending[5] as u16;
        self.drop_front(HEADER_LEN);
        self.poll_payload(kind, seq, len)
    }

    /// Goes on with the search for a magic byte.
    fn poll_scan(&mut self, passed: usize) -> (r: Poll)
        requires
            passed <= MAX_RESYNC_SCAN,
        ensures
            final(self).inner() == old(self).inner(),
            poll_result(
                at_scan(passed as int, old(self).unread()),
                r,
                final(self).at(),
                final(self).unread(),
            ),
    {
        let n: usize = self.leading_garbage(passed);
        proof {
            lemma_garbage_ends_at_start(passed as int, self.unread(), 0);
            lemma_rest_may_start(passed as int, self.unread());
        }
        self.drop_front(n);
        if n > MAX_RESYNC_SCAN - passed {
            self.phase = Phase::Header;
            return Poll::Failed(FramingError::NoMagic);
        }
        let missing: bool = if passed + n < HEADER_LEN {
            self.pending.len() < 2
        } else {
            self.pending.len() < 1
        };
        if missing {
            self.phase = Phase::Scan(passed + n);
            return Poll::Starved;
        }
        self.poll_magic()
    }

    /// Looks for the next packet in the bytes fed in so far.
    ///
    /// After a packet or a failure, reading goes on at the next header.
    pub fn next_packet(&mut self) -> (r: Poll)
        requires
            old(self).wf(),
        ensures
            final(self).wf(),
            final(self).inner() == old(self).inner(),
            poll_result(
                progress(old(self).at(), old(self).unread()),
                r,
                final(self).at(),
                final(self).unread(),
            ),
            r is Starved ==> final(self).is_starved(),
    {
        proof {
            lemma_starving_settles(self.phase, self.unread());
        }
        match self.phase {
            Phase::Payload(kind, seq, len) => self.poll_payload(kind, seq, len),
            Phase::Scan(passed) => self.poll_scan(passed),
            Phase::Header => {
                if self.pending.len() < HEADER_LEN {
                    return Poll::Starved;
                }
                if self.pending[0] != MAGIC {
                    self.drop_front(1);
                    self.poll_scan(1)
                } else {
                    self.poll_magic()
                }
            },
        }
    }

    /// The reader is in a phase that reading can lead to.
    pub open spec fn wf(self) -> bool {
        self.at() matches Phase::Scan(passed) ==> passed <= MAX_RESYNC_SCAN
    }

    /// Takes note that the stream ended while the next packet was incomplete,
    /// and says how that failed.
    pub fn finish(&mut self) -> (e: FramingError)
        requires
            old(self).wf(),
            old(self).is_starved(),
        ensures
            e == end_of_stream(old(self).at(), old(self).unread().len()),
            final(self).at() == Phase::Header,
            final(self).unread() == old(self).unread(),
            final(self).inner() == old(self).inner(),
    {
        let phase = self.phase;
        let had: usize = self.pending.len();
        proof {
            if let Phase::Scan(passed) = phase {
                lemma_rest_may_start(passed as int, self.unread());
            }
        }
        self.phase = Phase::Header;
        match phase {
            Phase::Scan(_) => {
                if had == 0 {
                    FramingError::NoMagic
                } else {
                    FramingError::Truncated { needed: HEADER_LEN - had, had }
                }
            },
            Phase::Header => {
                if had == 0 {
                    FramingError::Closed
                } else {
                    FramingError::Truncated { needed: HEADER_LEN - had, had }
                }
            },
            Phase::Payload(_, _, len) => {
                if had == 0 {
                    FramingError::Closed
                } else {
                    FramingError::Truncated { needed: len as usize - had, had }
                }
            },
        }
    }
}

/// How a poll reports what the bytes led to, and what it leaves behind.
pub open spec fn poll_result(p: Progress, r: Poll, phase: Phase, unread: Seq<u8>) -> bool {
    match p {
        Progress::Packet(v, rest) => {
            &&& r matches Poll::Packet(pkt) && pkt@ == v
            &&& phase == Phase::Header
            &&& unread == rest
        },
        Progress::Failed(e, rest) => {
            &&& r == Poll::Failed(e)
            &&& phase == Phase::Header
            &&& unread == rest
        },
        Progress::Starved(ph, rest) => {
            &&& r is Starved
            &&& phase == ph
            &&& unread == rest
        },
    }
}

/// Behind the garbage reading may resume.
proof fn lemma_garbage_ends_at_start(passed: int, bytes: Seq<u8>, from: int)
    requires
        0 <= from <= bytes.len(),
    ensures
        ({
            let n = garbage_from(passed, bytes, from);
            &&& 0 <= n <= bytes.len() - from
            &&& from + n < bytes.len() ==> may_start(passed, bytes, from + n)
            &&& forall|i: int| from <= i < from + n ==> !may_start(passed, bytes, i)
        }),
    decreases bytes.len() - from,
{
    if from < bytes.len() && !may_start(passed, bytes, from) {
        lemma_garbage_ends_at_start(passed, bytes, from + 1);
    }
}

/// Whether reading may resume at a place does not depend on how much of the
/// garbage before it is still there.
proof fn lemma_start_shifts(passed: int, bytes: Seq<u8>, n: int, i: int)
    requires
        0 <= n <= bytes.len(),
        0 <= i < bytes.len() - n,
    ensures
        may_start(passed, bytes, n + i) == may_start(passed + n, bytes.skip(n), i),
{
    let rest = bytes.skip(n);
    assert(rest[i] == bytes[n + i]);
    if i + 1 < rest.len() {
        assert(rest[i + 1] == bytes[n + i + 1]);
    }
}

/// What stands behind the garbage may start a packet.
proof fn lemma_rest_may_start(passed: int, bytes: Seq<u8>)
    ensures
        ({
            let n = garbage(passed, bytes);
            &&& 0 <= n <= bytes.len()
            &&& n < bytes.len() ==> may_start(passed + n, bytes.skip(n), 0)
        }),
{
    let n = garbage(passed, bytes);
    lemma_garbage_ends_at_start(passed, bytes, 0);
    if n < bytes.len() {
        lemma_start_shifts(passed, bytes, n, 0);
    }
}

/// Where reading may not resume among the first `n` bytes, the garbage goes on
/// behind them.
proof fn lemma_garbage_from_later(passed: int, bytes: Seq<u8>, from: int, n: int)
    requires
        0 <= from <= n <= bytes.len(),
        forall|i: int| from <= i < n ==> !may_start(passed, bytes, i),
    ensures
        garbage_from(passed, bytes, from) == n - from + garbage(passed + n, bytes.skip(n)),
    decreases n - from,
{
    if from < n {
        lemma_garbage_from_later(passed, bytes, from + 1, n);
    } else {
        lemma_garbage_shifts(passed, bytes, n, 0);
    }
}

proof fn lemma_garbage_shifts(passed: int, bytes: Seq<u8>, n: int, from: int)
    requires
        0 <= n <= bytes.len(),
        0 <= from <= bytes.len() - n,
    ensures
        garbage_from(passed, bytes, n + from) == garbage_from(passed + n, bytes.skip(n), from),
    decreases bytes.len() - n - from,
{
    if from < bytes.len() - n {
        lemma_start_shifts(passed, bytes, n, from);
        if !may_start(passed, bytes, n + from) {
            lemma_garbage_shifts(passed, bytes, n, from + 1);
        }
    }
}

/// Bytes that follow leave garbage what it is: the search resumes where it
/// stopped.
proof fn lemma_garbage_of_concatenation(passed: int, bytes: Seq<u8>, more: Seq<u8>)
    ensures
        ({
            let n = garbage(passed, bytes);
            let rest = bytes.skip(n);
            &&& 0 <= n <= bytes.len()
            &&& garbage(passed, bytes + more) == n + garbage(passed + n, rest + more)
            &&& (bytes + more).skip(n) == rest + more
            &&& starts(passed + n, rest) ==> starts(passed + n, rest + more) && garbage(
                passed + n,
                rest + more,
            ) == 0
        }),
{
    let n = garbage(passed, bytes);
    let all = bytes + more;
    lemma_garbage_ends_at_start(passed, bytes, 0);
    assert forall|i: int| 0 <= i < n implies !may_start(passed, all, i) by {
        assert(!may_start(passed, bytes, i));
        assert(all[i] == bytes[i]);
        if i + 1 < bytes.len() {
            assert(all[i + 1] == bytes[i + 1]);
        }
    }
    lemma_garbage_from_later(passed, all, 0, n);
    let rest = bytes.skip(n);
    assert(all.skip(n) =~= rest + more);
    if starts(passed + n, rest) {
        assert((rest + more)[0] == rest[0]);
        if rest.len() > 1 {
            assert((rest + more)[1] == rest[1]);
        }
        assert(may_start(passed + n, rest + more, 0));
    }
}

/// Where the bytes at hand do not suffice, looking again changes nothing.
proof fn lemma_starving_settles(phase: Phase, bytes: Seq<u8>)
    ensures
        progress(phase, bytes) matches Progress::Starved(p, rest) ==> {
            &&& progress(p, rest) == Progress::Starved(p, rest)
            &&& p matches Phase::Scan(passed) ==> passed <= MAX_RESYNC_SCAN
        },
{
    let (passed, tail) = match phase {
        Phase::Scan(passed) => (passed as int, bytes),
        _ => (1int, bytes.skip(1)),
    };
    let n = garbage(passed, tail);
    lemma_garbage_ends_at_start(passed, tail, 0);
    lemma_garbage_from_later(passed, tail, 0, n);
    assert(tail.skip(n).skip(0) =~= tail.skip(n));
}

/// Two readings that come to the same, up to the bytes a failure leaves over.
pub open spec fn same_outcome(a: Progress, b: Progress) -> bool {
    match (a, b) {
        (Progress::Failed(e, _), Progress::Failed(f, _)) => e == f,
        _ => a == b,
    }
}

/// Bytes may come in any pieces: where the bytes at hand do not suffice, going
/// on with more of them leads to the same as having had them all at once.
pub proof fn pieces_do_not_matter(phase: Phase, bytes: Seq<u8>, more: Seq<u8>)
    requires
        progress(phase, bytes) is Starved,
    ensures
        same_outcome(
            progress(phase, bytes + more),
            progress(
                progress(phase, bytes)->Starved_0,
                progress(phase, bytes)->Starved_1 + more,
            ),
        ),
{
    match phase {
        Phase::Payload(..) => {},
        Phase::Scan(passed) => {
            lemma_scan_resumes(passed as int, bytes, more);
        },
        Phase::Header => {
            if bytes.len() >= HEADER_LEN {
                if bytes[0] != MAGIC {
                    assert((bytes + more).skip(1) =~= bytes.skip(1) + more);
                    lemma_scan_resumes(1, bytes.skip(1), more);
                } else {
                    lemma_magic_resumes(bytes, more);
                }
            }
        },
    }
}

proof fn lemma_magic_resumes(bytes: Seq<u8>, more: Seq<u8>)
    requires
        bytes.len() > 0,
        bytes[0] == MAGIC,
        at_magic(bytes) is Starved,
    ensures
        at_magic(bytes + more) == progress(
            at_magic(bytes)->Starved_0,
            at_magic(bytes)->Starved_1 + more,
        ),
{
    assert((bytes + more)[0] == MAGIC);
    if bytes.len() >= HEADER_LEN {
        let rest = bytes.skip(HEADER_LEN as int);
        assert((bytes + more).skip(HEADER_LEN as int) =~= rest + more);
    }
}

proof fn lemma_scan_resumes(passed: int, bytes: Seq<u8>, more: Seq<u8>)
    requires
        0 <= passed,
        at_scan(passed, bytes) is Starved,
    ensures
        same_outcome(
            at_scan(passed, bytes + more),
            progress(
                at_scan(passed, bytes)->Starved_0,
                at_scan(passed, bytes)->Starved_1 + more,
            ),
        ),
{
    let n = garbage(passed, bytes);
    let rest = bytes.skip(n);
    lemma_garbage_of_concatenation(passed, bytes, more);
    lemma_garbage_ends_at_start(passed + n, rest + more, 0);
    if starts(passed + n, rest) {
        lemma_magic_resumes(rest, more);
    } else {
        let m = garbage(passed + n, rest + more);
        assert((bytes + more).skip(n + m) =~= (rest + more).skip(m));
    }
}

/// A failure stays one: bytes that follow do not undo it.
pub proof fn later_bytes_do_not_undo_a_failure(phase: Phase, bytes: Seq<u8>, more: Seq<u8>)
    requires
        progress(phase, bytes) is Failed,
    ensures
        same_outcome(progress(phase, bytes + more), progress(phase, bytes)),
{
    match phase {
        Phase::Payload(..) => {},
        Phase::Scan(passed) => {
            lemma_scan_stays_failed(passed as int, bytes, more);
        },
        Phase::Header => {
            if bytes[0] != MAGIC {
                assert((bytes + more).skip(1) =~= bytes.skip(1) + more);
                lemma_scan_stays_failed(1, bytes.skip(1), more);
            }
        },
    }
}

proof fn lemma_scan_stays_failed(passed: int, bytes: Seq<u8>, more: Seq<u8>)
    requires
        at_scan(passed, bytes) is Failed,
    ensures
        same_outcome(at_scan(passed, bytes + more), at_scan(passed, bytes)),
{
    let n = garbage(passed, bytes);
    lemma_garbage_of_concatenation(passed, bytes, more);
    lemma_garbage_ends_at_start(passed + n, bytes.skip(n) + more, 0);
}

/// A packet that was found stays found: bytes that follow it do not change it,
/// and none of them is lost.
pub proof fn later_bytes_do_not_change_a_packet(phase: Phase, bytes: Seq<u8>, more: Seq<u8>)
    requires
        progress(phase, bytes) is Packet,
    ensures
        progress(phase, bytes + more) == Progress::Packet(
            progress(phase, bytes)->Packet_0,
            progress(phase, bytes)->Packet_1 + more,
        ),
{
    match phase {
        Phase::Payload(_, _, len) => {
            lemma_payload_is_stable(bytes, more, len);
        },
        Phase::Scan(passed) => {
            lemma_scan_is_stable(passed as int, bytes, more);
        },
        Phase::Header => {
            if bytes[0] != MAGIC {
                assert((bytes + more).skip(1) =~= bytes.skip(1) + more);
                lemma_scan_is_stable(1, bytes.skip(1), more);
            } else {
                lemma_magic_is_stable(bytes, more);
            }
        },
    }
}

proof fn lemma_payload_is_stable(bytes: Seq<u8>, more: Seq<u8>, len: u16)
    requires
        len <= bytes.len(),
    ensures
        (bytes + more).take(len as int) == bytes.take(len as int),
        (bytes + more).skip(len as int) == bytes.skip(len as int) + more,
{
    assert((bytes + more).take(len as int) =~= bytes.take(len as int));
    assert((bytes + more).skip(len as int) =~= bytes.skip(len as int) + more);
}

proof fn lemma_magic_is_stable(bytes: Seq<u8>, more: Seq<u8>)
    requires
        at_magic(bytes) is Packet,
    ensures
        at_magic(bytes + more) == Progress::Packet(
            at_magic(bytes)->Packet_0,
            at_magic(bytes)->Packet_1 + more,
        ),
{
    let rest = bytes.skip(HEADER_LEN as int);
    assert((bytes + more).skip(HEADER_LEN as int) =~= rest + more);
    lemma_payload_is_stable(rest, more, protocol::header_fields(bytes)->Ok_0.2);
}

proof fn lemma_scan_is_stable(passed: int, bytes: Seq<u8>, more: Seq<u8>)
    requires
        at_scan(passed, bytes) is Packet,
    ensures
        at_scan(passed, bytes + more) == Progress::Packet(
            at_scan(passed, bytes)->Packet_0,
            at_scan(passed, bytes)->Packet_1 + more,
        ),
{
    lemma_garbage_of_concatenation(passed, bytes, more);
    lemma_magic_is_stable(bytes.skip(garbage(passed, bytes)), more);
}

/// A packet written to the stream is the packet read from it, whatever follows.
pub proof fn read_gives_back_what_was_written(p: protocol::PacketView, rest: Seq<u8>)
    requires
        p.payload.len() <= 0xFFFF,
    ensures
        progress(Phase::Header, protocol::wire(p) + rest) == Progress::Packet(p, rest),
{
    let w = protocol::wire(p);
    protocol::decode_undoes_encode(p);
    assert((w + rest).skip(HEADER_LEN as int) =~= p.payload + rest);
    assert((p.payload + rest).take(p.payload.len() as int) =~= p.payload);
    assert((p.payload + rest).skip(p.payload.len() as int) =~= rest);
    assert(w.skip(HEADER_LEN as int) =~= p.payload);
}

/// Garbage that the search goes past: up to 64 KiB that do not start with the
/// magic byte, with magic bytes only within the length of a header and only with
/// no known type behind them.
pub open spec fn is_noise(noise: Seq<u8>) -> bool {
    &&& 1 <= noise.len() <= MAX_RESYNC_SCAN
    &&& noise[0] != MAGIC
    &&& forall|i: int|
        1 <= i < noise.len() && #[trigger] noise[i] == MAGIC ==> {
            &&& i < HEADER_LEN
            &&& i + 1 < noise.len() ==> protocol::payload_type(noise[i + 1]) is Err
        }
}

/// Behind noise, reading resumes at the next magic byte.
proof fn lemma_resumes_behind_noise(noise: Seq<u8>, rest: Seq<u8>)
    requires
        is_noise(noise),
        rest.len() >= HEADER_LEN,
        rest[0] == MAGIC,
        noise.len() < HEADER_LEN ==> protocol::payload_type(rest[1]) is Ok,
    ensures
        progress(Phase::Header, noise + rest) == at_magic(rest),
{
    let all = noise + rest;
    let bytes = all.skip(1);
    let n = noise.len() - 1;
    assert forall|i: int| 0 <= i < n implies !may_start(1, bytes, i) by {
        assert(bytes[i] == noise[i + 1]);
        if i + 1 < n {
            assert(bytes[i + 1] == noise[i + 2]);
        } else {
            assert(bytes[i + 1] == MAGIC);
        }
    }
    lemma_garbage_from_later(1, bytes, 0, n);
    assert(bytes.skip(n) =~= rest);
    assert(may_start(1 + n, rest, 0));
}

/// Garbage before a packet is skipped.
pub proof fn resynchronises_after_garbage(
    noise: Seq<u8>,
    p: protocol::PacketView,
    rest: Seq<u8>,
)
    requires
        p.payload.len() <= 0xFFFF,
        is_noise(noise),
    ensures
        progress(Phase::Header, noise + protocol::wire(p) + rest) == Progress::Packet(p, rest),
{
    let packet = protocol::wire(p) + rest;
    assert(noise + protocol::wire(p) + rest =~= noise + packet);
    assert(packet[0] == MAGIC && packet[1] == protocol::type_byte(p.kind));
    lemma_resumes_behind_noise(noise, packet);
    read_gives_back_what_was_written(p, rest);
}

/// A header with the magic byte and a reserved type is an error, where a packet is
/// due and where the search finds it behind at least a header's length of garbage.
pub proof fn reserved_type_is_an_error(noise: Seq<u8>, header: Seq<u8>)
    requires
        noise.len() == 0 || (is_noise(noise) && noise.len() >= HEADER_LEN),
        header.len() >= HEADER_LEN,
        header[0] == MAGIC,
        protocol::payload_type(header[1]) is Err,
    ensures
        progress(Phase::Header, noise + header) == Progress::Failed(
            FramingError::ReservedType,
            header,
        ),
{
    if noise.len() == 0 {
        assert(noise + header =~= header);
    } else {
        lemma_resumes_behind_noise(noise, header);
    }
}

/// The bytes of packets written back to back.
pub open spec fn written(packets: Seq<protocol::PacketView>) -> Seq<u8>
    decreases packets.len(),
{
    if packets.len() == 0 {
        Seq::empty()
    } else {
        protocol::wire(packets[0]) + written(packets.skip(1))
    }
}

/// The packets that reading a stream from a header on gives, one after the
/// other, until it has no complete packet left. `fuel` bounds their number.
pub open spec fn packets_read(bytes: Seq<u8>, fuel: nat) -> Seq<protocol::PacketView>
    decreases fuel,
{
    if fuel == 0 {
        Seq::empty()
    } else {
        match progress(Phase::Header, bytes) {
            Progress::Packet(p, rest) => seq![p] + packets_read(rest, (fuel - 1) as nat),
            _ => Seq::empty(),
        }
    }
}

/// Packets written back to back are read back whole, in order, and nothing
/// besides them.
pub proof fn stream_round_trip(packets: Seq<protocol::PacketView>, fuel: nat)
    requires
        forall|i: int| 0 <= i < packets.len() ==> (#[trigger] packets[i]).payload.len() <= 0xFFFF,
        fuel >= packets.len(),
    ensures
        packets_read(written(packets), fuel) == packets,
    decreases packets.len(),
{
    if packets.len() == 0 {
        assert(packets_read(written(packets), fuel) =~= packets);
    } else {
        let rest = packets.skip(1);
        read_gives_back_what_was_written(packets[0], written(rest));
        stream_round_trip(rest, (fuel - 1) as nat);
        assert(seq![packets[0]] + rest =~= packets);
    }
}

/// A stream that ends between packets is closed; one that ends within a packet tells
/// how much of it came and how much is missing; one that ends during the search
/// found no magic byte.
pub proof fn ends_of_streams_are_told_apart(kind: PayloadType, seq: u16, len: u16, had: nat)
    ensures
        end_of_stream(Phase::Header, 0) == FramingError::Closed,
        end_of_stream(Phase::Scan(1), 0) == FramingError::NoMagic,
        0 < had < 6 ==> (end_of_stream(Phase::Header, had) matches FramingError::Truncated {
            needed,
            had: h,
        } && h == had && needed + h == 6),
        0 < had < len ==> (end_of_stream(Phase::Payload(kind, seq, len), had) matches
            FramingError::Truncated { needed, had: h } && h == had && needed + h == len),
{
}

/// Bytes that are fed wait behind those that were not read yet, and are read in
/// their order: what was fed of a packet in two pieces gives the packet.
pub proof fn fed_packets_are_read<T>(
    s: &mut TcpPacketStream<T>,
    first: &[u8],
    t: &mut TcpPacketStream<T>,
    second: &[u8],
    u: &mut TcpPacketStream<T>,
    p: protocol::PacketView,
    rest: Seq<u8>,
    r: Poll,
)
    requires
        p.payload.len() <= 0xFFFF,
        old(s).at() == Phase::Header,
        old(s).unread() == Seq::<u8>::empty(),
        call_ensures(TcpPacketStream::<T>::feed, (s, first), ()),
        *old(t) == *final(s),
        call_ensures(TcpPacketStream::<T>::feed, (t, second), ()),
        *old(u) == *final(t),
        call_ensures(TcpPacketStream::<T>::next_packet, (u,), r),
        first@ + second@ == protocol::wire(p) + rest,
    ensures
        r matches Poll::Packet(pkt) && pkt@ == p,
        final(u).unread() == rest,
        final(u).at() == Phase::Header,
        final(u).inner() == old(s).inner(),
{
    assert(Seq::<u8>::empty() + first@ + second@ =~= first@ + second@);
    read_gives_back_what_was_written(p, rest);
}

/// Up to 64 KiB of garbage without a magic byte are passed over; with more, the search
/// is given up.
pub proof fn search_ends_after_64_kib(noise: Seq<u8>, p: protocol::PacketView, rest: Seq<u8>)
    requires
        noise.len() >= 1,
        forall|i: int| 0 <= i < noise.len() ==> noise[i] != 0xA7,
        p.payload.len() <= 0xFFFF,
    ensures
        noise.len() <= 65_536 ==> progress(
            Phase::Header,
            noise + protocol::wire(p) + rest,
        ) == Progress::Packet(p, rest),
        noise.len() > 65_536 ==> (progress(Phase::Header, noise) matches Progress::Failed(e, _)
            && e == FramingError::NoMagic),
        6 <= noise.len() <= 65_536 ==> (progress(Phase::Header, noise) matches Progress::Starved(
            ph,
            left,
        ) && left.len() == 0 && ph == Phase::Scan(noise.len() as usize)),
        noise.len() < 6 ==> progress(Phase::Header, noise) == Progress::Starved(
            Phase::Header,
            noise,
        ),
{
    if noise.len() <= 65_536 {
        resynchronises_after_garbage(noise, p, rest);
    }
    if noise.len() >= 6 {
        let tail = noise.skip(1);
        assert forall|i: int| 0 <= i < tail.len() implies !may_start(1, tail, i) by {
            assert(tail[i] == noise[i + 1]);
        }
        lemma_garbage_from_later(1, tail, 0, tail.len() as int);
        assert(tail.skip(tail.len() as int) =~= Seq::<u8>::empty());
    }
}

/// A magic byte among the first five bytes behind the start of the garbage counts only
/// with a known type behind it; from the sixth on it is a header, and a type that is
/// not known is then an error.
pub proof fn early_magic_needs_a_known_type(
    noise: Seq<u8>,
    reserved: u8,
    p: protocol::PacketView,
    rest: Seq<u8>,
    header: Seq<u8>,
)
    requires
        1 <= noise.len() <= 65_536,
        forall|i: int| 0 <= i < noise.len() ==> noise[i] != 0xA7,
        2 < reserved,
        reserved != 0xA7,
        p.payload.len() <= 0xFFFF,
        header.len() >= 6,
        header[0] == 0xA7,
        header[1] > 2,
    ensures
        noise.len() <= 5 ==> progress(
            Phase::Header,
            noise + seq![0xA7u8, reserved] + protocol::wire(p) + rest,
        ) == Progress::Packet(p, rest),
        noise.len() >= 6 ==> progress(Phase::Header, noise + header) == Progress::Failed(
            FramingError::ReservedType,
            header,
        ),
        progress(Phase::Header, header) == Progress::Failed(FramingError::ReservedType, header),
{
    if noise.len() <= 5 {
        let more = noise + seq![0xA7u8, reserved];
        assert(more[noise.len() as int] == 0xA7);
        assert(more[(noise.len() + 1) as int] == reserved);
        assert forall|i: int| 1 <= i < more.len() && #[trigger] more[i] == MAGIC implies {
            &&& i < HEADER_LEN
            &&& i + 1 < more.len() ==> protocol::payload_type(more[i + 1]) is Err
        } by {
            if i < noise.len() {
                assert(more[i] == noise[i]);
            }
        }
        resynchronises_after_garbage(more, p, rest);
    } else {
        reserved_type_is_an_error(noise, header);
    }
    reserved_type_is_an_error(Seq::empty(), header);
    assert(Seq::<u8>::empty() + header =~= header);
}

/// A stream that ends between packets is closed, one that ends within a packet tells
/// what came and what is missing, and both are told as an end.
pub proof fn streams_end_as_they_stand<T>(
    s: &mut TcpPacketStream<T>,
    e: FramingError,
    ended: bool,
    m: String,
)
    requires
        old(s).wf(),
        old(s).is_starved(),
        call_ensures(TcpPacketStream::<T>::finish, (s,), e),
        call_ensures(FramingError::is_end_of_stream, (&e,), ended),
        call_ensures(FramingError::message, (&e,), m),
    ensures
        ({
            let had = old(s).unread().len();
            &&& final(s).at() == Phase::Header
            &&& final(s).unread() == old(s).unread()
            &&& final(s).inner() == old(s).inner()
            &&& had == 0 && !(old(s).at() is Scan) ==> e == FramingError::Closed
            &&& had == 0 && old(s).at() is Scan ==> e == FramingError::NoMagic
            &&& had > 0 && old(s).at() is Header ==> (e matches FramingError::Truncated {
                needed,
                had: h,
            } && h == had && needed + had == 6)
            &&& had > 0 && old(s).at() is Payload ==> (e matches FramingError::Truncated {
                needed,
                had: h,
            } && h == had && needed + had == old(s).at()->Payload_2)
            &&& !ended <==> e == FramingError::NoMagic || e == FramingError::ReservedType
            &&& e == FramingError::Closed ==> m@ == "connection closed by peer"@
            &&& e matches FramingError::Truncated { needed, had: h } ==> m@ == "truncated: needed "@
                + text::decimal(needed as nat) + " bytes, had "@ + text::decimal(h as nat)
                + " before EOF"@
        }),
{
}

/// The other errors of a stream say what was wrong.
pub proof fn stream_errors_say_what_was_wrong(e: FramingError, m: String)
    requires
        call_ensures(FramingError::message, (&e,), m),
    ensures
        e == FramingError::NoMagic ==> m@ == "TcpPacketStream: no magic byte within "@
            + text::decimal(65_536) + " bytes"@,
        e == FramingError::ReservedType ==> m@
            == "TcpPacketStream: reserved packet type in stream"@,
{
}

/// What is wrapped is given back and can be borrowed, and reading starts at a header;
/// the bytes to write for a packet are its wire form.
pub proof fn streams_give_back_what_they_wrap<T>(
    inner: T,
    s: TcpPacketStream<T>,
    borrowed: &T,
    out: T,
    p: &Packet,
    bytes: Vec<u8>,
)
    requires
        call_ensures(TcpPacketStream::<T>::new, (inner,), s),
        call_ensures(TcpPacketStream::<T>::get_ref, (&s,), borrowed),
        call_ensures(TcpPacketStream::<T>::into_inner, (s,), out),
        call_ensures(TcpPacketStream::<T>::frame, (p,), bytes),
    ensures
        *borrowed == inner,
        out == inner,
        s.at() == Phase::Header && s.unread().len() == 0,
        bytes@ == protocol::wire(p@),
        bytes@.len() == 6 + p@.payload.len(),
{
}

/// A reader skips garbage before a packet, tells a reserved type and too much garbage, and
/// otherwise waits for more bytes without losing any that it still needs.
pub proof fn readers_find_the_next_packet<T>(
    s: &mut TcpPacketStream<T>,
    noise: Seq<u8>,
    p: protocol::PacketView,
    rest: Seq<u8>,
    r: Poll,
)
    requires
        old(s).wf(),
        old(s).at() == Phase::Header,
        1 <= noise.len(),
        forall|i: int| 0 <= i < noise.len() ==> noise[i] != 0xA7,
        p.payload.len() <= 0xFFFF,
        call_ensures(TcpPacketStream::<T>::next_packet, (s,), r),
    ensures
        final(s).inner() == old(s).inner(),
        old(s).unread() == protocol::wire(p) + rest ==> {
            &&& r matches Poll::Packet(pkt) && pkt@ == p
            &&& final(s).unread() == rest && final(s).at() == Phase::Header
        },
        noise.len() <= 65_536 && old(s).unread() == noise + protocol::wire(p) + rest ==> {
            &&& r matches Poll::Packet(pkt) && pkt@ == p
            &&& final(s).unread() == rest && final(s).at() == Phase::Header
        },
        noise.len() > 65_536 && old(s).unread() == noise ==> r == Poll::Failed(
            FramingError::NoMagic,
        ),
        old(s).unread().len() < 6 ==> r is Starved && final(s).unread() == old(s).unread(),
        old(s).unread().len() >= 6 && old(s).unread()[0] == 0xA7 && old(s).unread()[1] > 2 ==> r
            == Poll::Failed(FramingError::ReservedType),
        ({
            let u = old(s).unread();
            u.len() >= 6 && u[0] == 0xA7 && u[1] <= 2 && u.len() < 6 + u[4] * 256 + u[5] ==> {
                &&& r is Starved
                &&& final(s).unread() == u.skip(6)
                &&& final(s).at() is Payload
                &&& final(s).at()->Payload_1 == u[2] * 256 + u[3]
                &&& final(s).at()->Payload_2 == u[4] * 256 + u[5]
            }
        }),
{
    read_gives_back_what_was_written(p, rest);
    search_ends_after_64_kib(noise, p, rest);
}

/// A payload that was waited for is the first bytes that come, as many as its header
/// declared.
pub proof fn payloads_are_waited_for<T>(
    s: &mut TcpPacketStream<T>,
    kind: PayloadType,
    seq: u16,
    len: u16,
    r: Poll,
)
    requires
        old(s).wf(),
        old(s).at() == Phase::Payload(kind, seq, len),
        call_ensures(TcpPacketStream::<T>::next_packet, (s,), r),
    ensures
        old(s).unread().len() < len ==> r is Starved && final(s).unread() == old(s).unread()
            && final(s).at() == old(s).at(),
        old(s).unread().len() >= len ==> {
            &&& r matches Poll::Packet(pkt) && pkt@.kind == kind && pkt@.seq == seq
                && pkt@.payload == old(s).unread().take(len as int)
            &&& final(s).unread() == old(s).unread().skip(len as int)
            &&& final(s).at() == Phase::Header
        },
{
}

} // verus!
