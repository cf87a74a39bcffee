//! The loopback tool: its command line, its test packets, what the receiving
//! side verifies, and the delay statistics of the bench.

use vstd::prelude::*;

use crate::filler;
use crate::filler::filled;
use crate::protocol;
use crate::protocol::Packet;
use crate::protocol::PayloadType;
use crate::protocol::HEADER_LEN;
use crate::engine;
use crate::engine::Transport;
use crate::millis;
use crate::sequence;
use crate::sequence::SeqTracker;
use crate::sorting;
use crate::stats::PacketStats;
use crate::stats::COUNTER_LIMIT;
use crate::text;
use crate::text::parse_number;
use crate::text::push_decimal;
use crate::text::same_text;
use crate::text::NumberError;

verus! {

/// Payload size where none is given.
pub const DEFAULT_PAYLOAD: usize = 480;

/// Bytes of the time stamp at the start of a bench payload.
pub const STAMP_LEN: usize = 8;

/// The bench passes if the 99th percentile lies below so many microseconds.
pub const P99_LIMIT_US: u64 = 5_000;

/// A number on the command line.
#[derive(Debug, Clone, Copy, PartialEq, Eq, Structural)]
pub enum Field {
    Port,
    Count,
    PayloadSize,
    IntervalUs,
}

/// Why a command line was refused.
#[derive(Debug, PartialEq, Eq)]
pub enum ArgError {
    /// The command is missing or none of the known ones.
    UnknownCommand,
    /// `send-udp` has too few or too many arguments.
    SendUdpShape,
    /// `send-tcp` has too few or too many arguments.
    SendTcpShape,
    /// `recv-udp` or `recv-tcp` has too few or too many arguments.
    RecvShape,
    /// `bench` has too few or too many arguments.
    BenchShape,
    /// `bench` is asked for another transport than UDP and TCP.
    BenchTransport,
    /// `bench` is asked for a payload without room for the time stamp.
    BenchPayload,
    /// No packets are asked for.
    ZeroCount,
    /// A number does not read as one.
    BadNumber(Field, String, NumberError),
}

/// An argument error as the contracts see it.
pub ghost enum ArgErrorView {
    UnknownCommand,
    SendUdpShape,
    SendTcpShape,
    RecvShape,
    BenchShape,
    BenchTransport,
    BenchPayload,
    ZeroCount,
    BadNumber(Field, Seq<char>, NumberError),
}

impl View for ArgError {
    type V = ArgErrorView;

    open spec fn view(&self) -> ArgErrorView {
        match *self {
            ArgError::UnknownCommand => ArgErrorView::UnknownCommand,
            ArgError::SendUdpShape => ArgErrorView::SendUdpShape,
            ArgError::SendTcpShape => ArgErrorView::SendTcpShape,
            ArgError::RecvShape => ArgErrorView::RecvShape,
            ArgError::BenchShape => ArgErrorView::BenchShape,
            ArgError::BenchTransport => ArgErrorView::BenchTransport,
            ArgError::BenchPayload => ArgErrorView::BenchPayload,
            ArgError::ZeroCount => ArgErrorView::ZeroCount,
            ArgError::BadNumber(field, text, e) => ArgErrorView::BadNumber(field, text@, e),
        }
    }
}

/// The name of a field.
pub open spec fn field_name(f: Field) -> Seq<char> {
    match f {
        Field::Port => "port"@,
        Field::Count => "count"@,
        Field::PayloadSize => "payload_size"@,
        Field::IntervalUs => "interval_us"@,
    }
}

/// The text of an argument error.
pub open spec fn arg_error_text(e: ArgErrorView) -> Seq<char> {
    match e {
        ArgErrorView::UnknownCommand => "unknown or missing command"@,
        ArgErrorView::SendUdpShape =>
            "send-udp expects: <host> <port> <count> [payload_size] [interval_us]"@,
        ArgErrorView::SendTcpShape => "send-tcp expects: <host> <port> <count> [payload_size]"@,
        ArgErrorView::RecvShape => "recv-* expects: <port> <count> [payload_size]"@,
        ArgErrorView::BenchShape => "bench expects: <udp|tcp> <port> <count> [payload_size]"@,
        ArgErrorView::BenchTransport => "bench transport must be \"udp\" or \"tcp\""@,
        ArgErrorView::BenchPayload =>
            "bench payload_size must be >= 8 (8-byte timestamp prefix)"@,
        ArgErrorView::ZeroCount => "count must be >= 1"@,
        ArgErrorView::BadNumber(field, given, why) => "invalid "@ + field_name(field) + " '"@
            + given + (if field == Field::Port {
            "' (0..=65535): "@
        } else {
            "': "@
        }) + text::number_error_text(why),
    }
}

impl Field {
    /// The name of the field.
    pub fn name(self) -> (n: &'static str)
        ensures
            n@ == field_name(self),
    {
        match self {
            Field::Port => "port",
            Field::Count => "count",
            Field::PayloadSize => "payload_size",
            Field::IntervalUs => "interval_us",
        }
    }
}

impl ArgError {
    /// A sentence that says what was wrong.
    pub fn message(&self) -> (m: String)
        ensures
            m@ == arg_error_text(self@),
    {
        let mut m = String::new();
        match self {
            ArgError::UnknownCommand => m.append("unknown or missing command"),
            ArgError::SendUdpShape => m.append(
                "send-udp expects: <host> <port> <count> [payload_size] [interval_us]",
            ),
            ArgError::SendTcpShape => m.append(
                "send-tcp expects: <host> <port> <count> [payload_size]",
            ),
            ArgError::RecvShape => m.append("recv-* expects: <port> <count> [payload_size]"),
            ArgError::BenchShape => m.append(
                "bench expects: <udp|tcp> <port> <count> [payload_size]",
            ),
            ArgError::BenchTransport => m.append("bench transport must be \"udp\" or \"tcp\""),
            ArgError::BenchPayload => m.append(
                "bench payload_size must be >= 8 (8-byte timestamp prefix)",
            ),
            ArgError::ZeroCount => m.append("count must be >= 1"),
            ArgError::BadNumber(field, given, why) => {
                m.append("invalid ");
                m.append(field.name());
                m.append(" '");
                m.append(given.as_str());
                if *field == Field::Port {
                    m.append("' (0..=65535): ");
                } else {
                    m.append("': ");
                }
                m.append(why.message());
            },
        }
        assert(m@ =~= arg_error_text(self@));
        m
    }
}

/// A command of the tool.
#[derive(Debug, PartialEq, Eq)]
pub enum Command {
    SendUdp { host: String, port: u16, count: usize, payload_size: usize, interval_us: u64 },
    RecvUdp { port: u16, count: usize, payload_size: usize },
    SendTcp { host: String, port: u16, count: usize, payload_size: usize },
    RecvTcp { port: u16, count: usize, payload_size: usize },
    Bench { transport: Transport, port: u16, count: usize, payload_size: usize },
}

/// A command as the contracts see it.
pub ghost enum CommandView {
    SendUdp { host: Seq<char>, port: nat, count: nat, payload_size: nat, interval_us: nat },
    RecvUdp { port: nat, count: nat, payload_size: nat },
    SendTcp { host: Seq<char>, port: nat, count: nat, payload_size: nat },
    RecvTcp { port: nat, count: nat, payload_size: nat },
    Bench { transport: Transport, port: nat, count: nat, payload_size: nat },
}

impl View for Command {
    type V = CommandView;

    open spec fn view(&self) -> CommandView {
        match *self {
            Command::SendUdp { host, port, count, payload_size, interval_us } =>
                CommandView::SendUdp {
                host: host@,
                port: port as nat,
                count: count as nat,
                payload_size: payload_size as nat,
                interval_us: interval_us as nat,
            },
            Command::RecvUdp { port, count, payload_size } => CommandView::RecvUdp {
                port: port as nat,
                count: count as nat,
                payload_size: payload_size as nat,
            },
            Command::SendTcp { host, port, count, payload_size } => CommandView::SendTcp {
                host: host@,
                port: port as nat,
                count: count as nat,
                payload_size: payload_size as nat,
            },
            Command::RecvTcp { port, count, payload_size } => CommandView::RecvTcp {
                port: port as nat,
                count: count as nat,
                payload_size: payload_size as nat,
            },
            Command::Bench { transport, port, count, payload_size } => CommandView::Bench {
                transport,
                port: port as nat,
                count: count as nat,
                payload_size: payload_size as nat,
            },
        }
    }
}

/// A number that has to be there.
pub open spec fn number_at(args: Seq<Seq<char>>, i: int, field: Field, max: nat) -> Result<
    nat,
    ArgErrorView,
> {
    match text::number_in(args[i], max) {
        Ok(n) => Ok(n),
        Err(e) => Err(ArgErrorView::BadNumber(field, args[i], e)),
    }
}

/// A number that may be left out.
pub open spec fn number_or(
    args: Seq<Seq<char>>,
    i: int,
    field: Field,
    max: nat,
    default: nat,
) -> Result<nat, ArgErrorView> {
    if i < args.len() {
        number_at(args, i, field, max)
    } else {
        Ok(default)
    }
}

/// The port, the count and the payload size that stand from place `from` on.
/// They are read in this order.
pub open spec fn common_at(args: Seq<Seq<char>>, from: int) -> Result<
    (nat, nat, nat),
    ArgErrorView,
> {
    match number_at(args, from, Field::Port, 0xFFFF) {
        Err(e) => Err(e),
        Ok(port) => match number_at(args, from + 1, Field::Count, usize::MAX as nat) {
            Err(e) => Err(e),
            Ok(count) => match number_or(
                args,
                from + 2,
                Field::PayloadSize,
                usize::MAX as nat,
                DEFAULT_PAYLOAD as nat,
            ) {
                Err(e) => Err(e),
                Ok(size) => Ok((port, count, size)),
            },
        },
    }
}

/// The arguments of `send-udp`.
pub open spec fn send_udp_args(args: Seq<Seq<char>>) -> Result<CommandView, ArgErrorView> {
    if !(3 <= args.len() <= 5) {
        Err(ArgErrorView::SendUdpShape)
    } else {
        match common_at(args, 1) {
            Err(e) => Err(e),
            Ok((port, count, payload_size)) => match number_or(
                args,
                4,
                Field::IntervalUs,
                u64::MAX as nat,
                0,
            ) {
                Err(e) => Err(e),
                Ok(interval_us) => if count == 0 {
                    Err(ArgErrorView::ZeroCount)
                } else {
                    Ok(
                        CommandView::SendUdp {
                            host: args[0],
                            port,
                            count,
                            payload_size,
                            interval_us,
                        },
                    )
                },
            },
        }
    }
}

/// The arguments of `send-tcp`.
pub open spec fn send_tcp_args(args: Seq<Seq<char>>) -> Result<CommandView, ArgErrorView> {
    if !(3 <= args.len() <= 4) {
        Err(ArgErrorView::SendTcpShape)
    } else {
        match common_at(args, 1) {
            Err(e) => Err(e),
            Ok((port, count, payload_size)) => if count == 0 {
                Err(ArgErrorView::ZeroCount)
            } else {
                Ok(CommandView::SendTcp { host: args[0], port, count, payload_size })
            },
        }
    }
}

/// The arguments of the receiving commands.
pub open spec fn recv_args(args: Seq<Seq<char>>) -> Result<(nat, nat, nat), ArgErrorView> {
    if !(2 <= args.len() <= 3) {
        Err(ArgErrorView::RecvShape)
    } else {
        match common_at(args, 0) {
            Err(e) => Err(e),
            Ok((port, count, payload_size)) => if count == 0 {
                Err(ArgErrorView::ZeroCount)
            } else {
                Ok((port, count, payload_size))
            },
        }
    }
}

/// The arguments of `bench`.
pub open spec fn bench_args(args: Seq<Seq<char>>) -> Result<CommandView, ArgErrorView> {
    if !(3 <= args.len() <= 4) {
        Err(ArgErrorView::BenchShape)
    } else if args[0] != "udp"@ && args[0] != "tcp"@ {
        Err(ArgErrorView::BenchTransport)
    } else {
        match common_at(args, 1) {
            Err(e) => Err(e),
            Ok((port, count, payload_size)) => if count == 0 {
                Err(ArgErrorView::ZeroCount)
            } else if payload_size < STAMP_LEN {
                Err(ArgErrorView::BenchPayload)
            } else {
                Ok(
                    CommandView::Bench {
                        transport: if args[0] == "udp"@ {
                            Transport::Udp
                        } else {
                            Transport::Tcp
                        },
                        port,
                        count,
                        payload_size,
                    },
                )
            },
        }
    }
}

/// The command that a command line asks for.
pub open spec fn command_in(args: Seq<Seq<char>>) -> Result<CommandView, ArgErrorView> {
    if args.len() == 0 {
        Err(ArgErrorView::UnknownCommand)
    } else {
        let rest = args.skip(1);
        if args[0] == "send-udp"@ {
            send_udp_args(rest)
        } else if args[0] == "recv-udp"@ {
            match recv_args(rest) {
                Ok((port, count, payload_size)) => Ok(
                    CommandView::RecvUdp { port, count, payload_size },
                ),
                Err(e) => Err(e),
            }
        } else if args[0] == "send-tcp"@ {
            send_tcp_args(rest)
        } else if args[0] == "recv-tcp"@ {
            match recv_args(rest) {
                Ok((port, count, payload_size)) => Ok(
                    CommandView::RecvTcp { port, count, payload_size },
                ),
                Err(e) => Err(e),
            }
        } else if args[0] == "bench"@ {
            bench_args(rest)
        } else {
            Err(ArgErrorView::UnknownCommand)
        }
    }
}

/// The executable and the mathematical outcome of reading a command agree.
pub open spec fn same_command(
    r: Result<Command, ArgError>,
    v: Result<CommandView, ArgErrorView>,
) -> bool {
    match (r, v) {
        (Ok(c), Ok(d)) => c@ == d,
        (Err(e), Err(f)) => e@ == f,
        _ => false,
    }
}

/// Reads a number that has to be there.
fn read_number(text: &String, field: Field, max: u64) -> (r: Result<u64, ArgError>)
    ensures
        match (r, text::number_in(text@, max as nat)) {
            (Ok(a), Ok(b)) => a == b,
            (Err(e), Err(f)) => e@ == ArgErrorView::BadNumber(field, text@, f),
            _ => false,
        },
{
    match parse_number(text.as_str(), max) {
        Ok(n) => Ok(n),
        Err(e) => Err(ArgError::BadNumber(field, text.clone(), e)),
    }
}

/// Reads a number that may be left out.
fn read_optional(
    args: &[String],
    i: usize,
    field: Field,
    max: u64,
    default: u64,
) -> (r: Result<u64, ArgError>)
    ensures
        match (r, number_or(text::texts(args@), i as int, field, max as nat, default as nat)) {
            (Ok(a), Ok(b)) => a == b,
            (Err(e), Err(f)) => e@ == f,
            _ => false,
        },
{
    if i < args.len() {
        read_number(&args[i], field, max)
    } else {
        Ok(default)
    }
}

/// Reads the port, the count and the payload size from place `from` on.
fn read_common(args: &[String], from: usize) -> (r: Result<(u16, usize, usize), ArgError>)
    requires
        from + 2 <= args@.len(),
    ensures
        match (r, common_at(text::texts(args@), from as int)) {
            (Ok((port, count, size)), Ok((p, c, s))) => port == p && count == c && size == s,
            (Err(e), Err(f)) => e@ == f,
            _ => false,
        },
{
    let port: u64 = match read_number(&args[from], Field::Port, 0xFFFF) {
        Ok(n) => n,
        Err(e) => {
            return Err(e);
        },
    };
    let count: u64 = match read_number(&args[from + 1], Field::Count, usize::MAX as u64) {
        Ok(n) => n,
        Err(e) => {
            return Err(e);
        },
    };
    if args.len() > from + 2 {
        match read_number(&args[from + 2], Field::PayloadSize, usize::MAX as u64) {
            Ok(size) => Ok((port as u16, count as usize, size as usize)),
            Err(e) => Err(e),
        }
    } else {
        Ok((port as u16, count as usize, DEFAULT_PAYLOAD))
    }
}

/// Reads the arguments of `send-udp`.
pub fn parse_send_udp(args: &[String]) -> (r: Result<Command, ArgError>)
    ensures
        same_command(r, send_udp_args(text::texts(args@))),
{
    if args.len() < 3 || args.len() > 5 {
        return Err(ArgError::SendUdpShape);
    }
    let (port, count, payload_size) = match read_common(args, 1) {
        Ok(common) => common,
        Err(e) => {
            return Err(e);
        },
    };
    let interval_us: u64 = match read_optional(args, 4, Field::IntervalUs, u64::MAX, 0) {
        Ok(n) => n,
        Err(e) => {
            return Err(e);
        },
    };
    if count == 0 {
        return Err(ArgError::ZeroCount);
    }
    Ok(Command::SendUdp { host: args[0].clone(), port, count, payload_size, interval_us })
}

/// Reads the arguments of `send-tcp`.
pub fn parse_send_tcp(args: &[String]) -> (r: Result<Command, ArgError>)
    ensures
        same_command(r, send_tcp_args(text::texts(args@))),
{
    if args.len() < 3 || args.len() > 4 {
        return Err(ArgError::SendTcpShape);
    }
    let (port, count, payload_size) = match read_common(args, 1) {
        Ok(common) => common,
        Err(e) => {
            return Err(e);
        },
    };
    if count == 0 {
        return Err(ArgError::ZeroCount);
    }
    Ok(Command::SendTcp { host: args[0].clone(), port, count, payload_size })
}

/// Reads the arguments of the receiving commands.
pub fn parse_recv(args: &[String]) -> (r: Result<(u16, usize, usize), ArgError>)
    ensures
        match (r, recv_args(text::texts(args@))) {
            (Ok((port, count, size)), Ok((p, c, s))) => port == p && count == c && size == s,
            (Err(e), Err(f)) => e@ == f,
            _ => false,
        },
{
    if args.len() < 2 || args.len() > 3 {
        return Err(ArgError::RecvShape);
    }
    let (port, count, payload_size) = match read_common(args, 0) {
        Ok(common) => common,
        Err(e) => {
            return Err(e);
        },
    };
    if count == 0 {
        return Err(ArgError::ZeroCount);
    }
    Ok((port, count, payload_size))
}

/// Reads the arguments of `bench`.
pub fn parse_bench(args: &[String]) -> (r: Result<Command, ArgError>)
    ensures
        same_command(r, bench_args(text::texts(args@))),
{
    if args.len() < 3 || args.len() > 4 {
        return Err(ArgError::BenchShape);
    }
    let transport = if same_text(args[0].as_str(), "udp") {
        Transport::Udp
    } else if same_text(args[0].as_str(), "tcp") {
        Transport::Tcp
    } else {
        return Err(ArgError::BenchTransport);
    };
    let (port, count, payload_size) = match read_common(args, 1) {
        Ok(common) => common,
        Err(e) => {
            return Err(e);
        },
    };
    if count == 0 {
        return Err(ArgError::ZeroCount);
    }
    if payload_size < STAMP_LEN {
        return Err(ArgError::BenchPayload);
    }
    Ok(Command::Bench { transport, port, count, payload_size })
}

/// Reads the command line.
pub fn parse_command(args: &[String]) -> (r: Result<Command, ArgError>)
    ensures
        same_command(r, command_in(text::texts(args@))),
{
    if args.len() == 0 {
        return Err(ArgError::UnknownCommand);
    }
    let rest = vstd::slice::slice_subrange(args, 1, args.len());
    assert(text::texts(rest@) =~= text::texts(args@).skip(1));
    let command = args[0].as_str();
    if same_text(command, "send-udp") {
        parse_send_udp(rest)
    } else if same_text(command, "recv-udp") {
        match parse_recv(rest) {
            Ok((port, count, payload_size)) => Ok(Command::RecvUdp { port, count, payload_size }),
            Err(e) => Err(e),
        }
    } else if same_text(command, "send-tcp") {
        parse_send_tcp(rest)
    } else if same_text(command, "recv-tcp") {
        match parse_recv(rest) {
            Ok((port, count, payload_size)) => Ok(Command::RecvTcp { port, count, payload_size }),
            Err(e) => Err(e),
        }
    } else if same_text(command, "bench") {
        parse_bench(rest)
    } else {
        Err(ArgError::UnknownCommand)
    }
}

/// Every accepted command asks for at least one packet, and a bench payload has
/// room for its time stamp.
pub proof fn accepted_commands_make_sense(args: Seq<Seq<char>>)
    ensures
        match command_in(args) {
            Ok(CommandView::SendUdp { port, count, .. }) => count >= 1 && port <= 0xFFFF,
            Ok(CommandView::RecvUdp { port, count, .. }) => count >= 1 && port <= 0xFFFF,
            Ok(CommandView::SendTcp { port, count, .. }) => count >= 1 && port <= 0xFFFF,
            Ok(CommandView::RecvTcp { port, count, .. }) => count >= 1 && port <= 0xFFFF,
            Ok(CommandView::Bench { port, count, payload_size, .. }) => count >= 1 && port <= 0xFFFF
                && payload_size >= STAMP_LEN,
            Err(_) => true,
        },
{
    let rest = args.skip(1);
    if rest.len() > 0 {
        lemma_number_is_bounded(text::without_plus(rest[0]), 0xFFFF);
    }
    if rest.len() > 1 {
        lemma_number_is_bounded(text::without_plus(rest[1]), 0xFFFF);
    }
}

proof fn lemma_number_is_bounded(digits: Seq<char>, max: nat)
    ensures
        text::digits_read(digits, max) matches Ok(n) ==> n <= max,
{
}

/// The type of the packet with a number: PCM and Opus in turn, PCM first.
pub open spec fn kind_of(seq: u16) -> PayloadType {
    if seq % 2 == 0 {
        PayloadType::Pcm
    } else {
        PayloadType::Opus
    }
}

/// The test packet with a number.
pub open spec fn test_packet(seq: u16, payload_size: nat) -> protocol::PacketView {
    protocol::PacketView {
        kind: kind_of(seq),
        seq,
        payload: filler::filler(seq as u32, payload_size),
    }
}

/// The eight bytes of a number, least significant first.
pub open spec fn le64(n: u64) -> Seq<u8> {
    Seq::new(8, |i: int| (n as int / place(i) % 256) as u8)
}

/// The value of the byte at place `i`.
pub open spec fn place(i: int) -> int {
    if i == 0 {
        1
    } else if i == 1 {
        0x100
    } else if i == 2 {
        0x1_0000
    } else if i == 3 {
        0x100_0000
    } else if i == 4 {
        0x1_0000_0000
    } else if i == 5 {
        0x100_0000_0000
    } else if i == 6 {
        0x1_0000_0000_0000
    } else {
        0x100_0000_0000_0000
    }
}

/// The number that eight bytes denote, least significant first.
pub open spec fn from_le64(b: Seq<u8>) -> u64 {
    (b[0] + b[1] * 0x100 + b[2] * 0x1_0000 + b[3] * 0x100_0000 + b[4] * 0x1_0000_0000 + b[5]
        * 0x100_0000_0000 + b[6] * 0x1_0000_0000_0000 + b[7] * 0x100_0000_0000_0000) as u64
}

/// Eight bytes read back as the number they were written from.
pub proof fn le64_round_trip(n: u64)
    ensures
        from_le64(le64(n)) == n,
{
    let b = le64(n);
    assert(b[0] == n % 0x100);
    assert(b[1] == n / 0x100 % 0x100);
    assert(b[2] == n / 0x1_0000 % 0x100);
    assert(b[3] == n / 0x100_0000 % 0x100);
    assert(b[4] == n / 0x1_0000_0000 % 0x100);
    assert(b[5] == n / 0x100_0000_0000 % 0x100);
    assert(b[6] == n / 0x1_0000_0000_0000 % 0x100);
    assert(b[7] == n / 0x100_0000_0000_0000 % 0x100);
    assert(n == n % 0x100 + n / 0x100 % 0x100 * 0x100 + n / 0x1_0000 % 0x100 * 0x1_0000 + n
        / 0x100_0000 % 0x100 * 0x100_0000 + n / 0x1_0000_0000 % 0x100 * 0x1_0000_0000 + n
        / 0x100_0000_0000 % 0x100 * 0x100_0000_0000 + n / 0x1_0000_0000_0000 % 0x100
        * 0x1_0000_0000_0000 + n / 0x100_0000_0000_0000 % 0x100 * 0x100_0000_0000_0000) by (bit_vector);
}

/// The bench packet with a number and a time stamp.
pub open spec fn bench_packet(
    seq: u16,
    stamp_ns: u64,
    payload_size: nat,
) -> protocol::PacketView {
    protocol::PacketView {
        kind: kind_of(seq),
        seq,
        payload: le64(stamp_ns) + filler::filler(seq as u32, (payload_size - STAMP_LEN) as nat),
    }
}

/// The type of the packet with a number.
fn alternating_kind(seq: u16) -> (kind: PayloadType)
    ensures
        kind == kind_of(seq),
{
    if seq % 2 == 0 {
        PayloadType::Pcm
    } else {
        PayloadType::Opus
    }
}

/// The test packet with a number: PCM and Opus in turn, filled from its number.
pub fn gen_packet(seq: u16, payload_size: usize) -> (p: Packet)
    ensures
        p@ == test_packet(seq, payload_size as nat),
{
    Packet { kind: alternating_kind(seq), seq, payload: filled(seq as u32, payload_size) }
}

/// The bench packet with a number: a time stamp in nanoseconds, then filler.
pub fn gen_bench_packet(seq: u16, stamp_ns: u64, payload_size: usize) -> (p: Packet)
    requires
        payload_size >= STAMP_LEN,
    ensures
        p@ == bench_packet(seq, stamp_ns, payload_size as nat),
{
    let mut payload: Vec<u8> = Vec::new();
    payload.push((stamp_ns % 0x100) as u8);
    payload.push((stamp_ns / 0x100 % 0x100) as u8);
    payload.push((stamp_ns / 0x1_0000 % 0x100) as u8);
    payload.push((stamp_ns / 0x100_0000 % 0x100) as u8);
    payload.push((stamp_ns / 0x1_0000_0000 % 0x100) as u8);
    payload.push((stamp_ns / 0x100_0000_0000 % 0x100) as u8);
    payload.push((stamp_ns / 0x1_0000_0000_0000 % 0x100) as u8);
    payload.push((stamp_ns / 0x100_0000_0000_0000 % 0x100) as u8);
    assert(payload@ =~= le64(stamp_ns));
    let mut rest: Vec<u8> = filled(seq as u32, payload_size - STAMP_LEN);
    payload.append(&mut rest);
    Packet { kind: alternating_kind(seq), seq, payload }
}

/// The line that a sender reports: how many packets and bytes it sent.
pub open spec fn sent_text(count: nat, bytes: nat) -> Seq<char> {
    "SENT count="@ + text::decimal(count) + " bytes="@ + text::decimal(bytes)
}

/// The line that a sender reports.
pub fn sent_line(count: usize, payload_size: usize) -> (line: String)
    requires
        count * (HEADER_LEN + payload_size) <= usize::MAX,
        HEADER_LEN + payload_size <= usize::MAX,
    ensures
        line@ == sent_text(count as nat, (count * (HEADER_LEN + payload_size)) as nat),
{
    let bytes: usize = count * (HEADER_LEN + payload_size);
    let mut line = String::new();
    line.append("SENT count=");
    push_decimal(&mut line, count as u64);
    line.append(" bytes=");
    push_decimal(&mut line, bytes as u64);
    assert(line@ =~= sent_text(count as nat, bytes as nat));
    line
}

/// What is wrong with the content of a received test packet, counted: its type,
/// and its payload.
pub open spec fn content_faults(p: protocol::PacketView, payload_size: nat) -> nat {
    let expected = test_packet(p.seq, payload_size);
    (if p.kind == expected.kind {
        0nat
    } else {
        1
    }) + (if p.payload == expected.payload {
        0nat
    } else {
        1
    })
}

/// Statistics with one more packet, which came while `expected` was expected and
/// `last` was the last one.
pub open spec fn stats_with(
    stats: PacketStats,
    expected: u16,
    last: Option<u16>,
    p: protocol::PacketView,
    payload_size: nat,
) -> PacketStats {
    let counted = stats.with_packet(sequence::classify(expected, last, p.seq));
    PacketStats {
        content_errors: (counted.content_errors + content_faults(p, payload_size)) as u64,
        ..counted
    }
}

/// Verifies received test packets: their numbers from 0 on, their types, sizes
/// and contents.
pub struct RecvVerifier {
    tracker: SeqTracker,
    stats: PacketStats,
    payload_size: usize,
}

/// Statistics that show nothing wrong with `count` packets.
pub open spec fn flawless(s: PacketStats, count: nat) -> bool {
    &&& s.received == count
    &&& s.lost == 0
    &&& s.duplicate == 0
    &&& s.out_of_order == 0
    &&& s.malformed == 0
    &&& s.content_errors == 0
}

impl RecvVerifier {
    /// The sequence tracking.
    pub closed spec fn sequence(self) -> SeqTracker {
        self.tracker
    }

    /// The statistics so far.
    pub closed spec fn counters(self) -> PacketStats {
        self.stats
    }

    /// The payload size that packets should have.
    pub closed spec fn expected_size(self) -> usize {
        self.payload_size
    }

    /// A verifier that has seen nothing.
    pub fn new(payload_size: usize) -> (v: Self)
        ensures
            v.expected_size() == payload_size,
            v.counters() == PacketStats::zero(),
            v.sequence().wf(),
            v.sequence().expected_seq() == 0,
            v.sequence().last_seq() is None,
    {
        RecvVerifier { tracker: SeqTracker::new(), stats: PacketStats::default(), payload_size }
    }

    /// Verifies one packet.
    pub fn check(&mut self, pkt: &Packet)
        requires
            old(self).counters().has_room(),
        ensures
            final(self).expected_size() == old(self).expected_size(),
            final(self).sequence().wf(),
            final(self).sequence().last_seq() == Some(pkt@.seq),
            final(self).counters() == stats_with(
                old(self).counters(),
                old(self).sequence().expected_seq(),
                old(self).sequence().last_seq(),
                pkt@,
                old(self).expected_size() as nat,
            ),
    {
        let event = self.tracker.update(pkt.seq);
        self.stats.count_packet(event);
        if pkt.kind != alternating_kind(pkt.seq) {
            self.stats.content_errors = self.stats.content_errors + 1;
        }
        if !holds_filler(pkt.payload.as_slice(), 0, pkt.seq, self.payload_size) {
            self.stats.content_errors = self.stats.content_errors + 1;
        }
        assert(pkt.payload@.skip(0) =~= pkt.payload@);
    }

    /// Takes over the number of malformed datagrams.
    pub fn set_malformed(&mut self, malformed: u64)
        ensures
            final(self).counters() == (PacketStats { malformed, ..old(self).counters() }),
            final(self).sequence() == old(self).sequence(),
            final(self).expected_size() == old(self).expected_size(),
    {
        self.stats.malformed = malformed;
    }

    /// The statistics so far.
    pub fn stats(&self) -> (s: &PacketStats)
        ensures
            *s == self.counters(),
    {
        &self.stats
    }

    /// Whether fewer than `count` packets came in so far.
    pub fn wants_more(&self, count: usize) -> (r: bool)
        ensures
            r == (self.counters().received < count),
    {
        self.stats.received < count as u64
    }

    /// Whether `count` packets came in and nothing was wrong.
    pub fn finished_ok(&self, count: usize) -> (r: bool)
        ensures
            r == flawless(self.counters(), count as nat),
    {
        self.stats.received == count as u64 && self.stats.lost == 0 && self.stats.duplicate == 0
            && self.stats.out_of_order == 0 && self.stats.malformed == 0
            && self.stats.content_errors == 0
    }
}

/// Whether `bytes` from place `from` on is the filler of a number, of `len`
/// bytes.
fn holds_filler(bytes: &[u8], from: usize, seq: u16, len: usize) -> (r: bool)
    requires
        from <= bytes@.len(),
    ensures
        r == (bytes@.skip(from as int) == filler::filler(seq as u32, len as nat)),
{
    let ghost expected = filler::filler(seq as u32, len as nat);
    let total: usize = bytes.len();
    if total - from != len {
        assert(bytes@.skip(from as int).len() != expected.len());
        return false;
    }
    let expect = filled(seq as u32, len);
    let mut i: usize = 0;
    while i < len
        invariant
            i <= len,
            from + len == total,
            total == bytes@.len(),
            expect@ == expected,
            expected == filler::filler(seq as u32, len as nat),
            forall|j: int| 0 <= j < i ==> bytes@[from + j] == expected[j],
        decreases len - i,
    {
        if bytes[from + i] != expect[i] {
            assert(bytes@.skip(from as int)[i as int] != expected[i as int]);
            return false;
        }
        i = i + 1;
    }
    assert(bytes@.skip(from as int) =~= expected);
    true
}

/// The delay of a bench packet received at `now`, and whether its content is
/// wrong.
pub open spec fn bench_verdict(p: protocol::PacketView, payload_size: nat, now: u64) -> (
    u64,
    bool,
) {
    if p.payload.len() != payload_size {
        (0, true)
    } else {
        let stamp = from_le64(p.payload);
        (
            if now > stamp {
                (now - stamp) as u64
            } else {
                0
            },
            p.payload.skip(STAMP_LEN as int) != filler::filler(
                p.seq as u32,
                (payload_size - STAMP_LEN) as nat,
            ),
        )
    }
}

/// Reads eight bytes, least significant first.
fn read_le64(b: &[u8]) -> (n: u64)
    requires
        b@.len() >= 8,
    ensures
        n == from_le64(b@),
{
    b[0] as u64 + b[1] as u64 * 0x100 + b[2] as u64 * 0x1_0000 + b[3] as u64 * 0x100_0000
        + b[4] as u64 * 0x1_0000_0000 + b[5] as u64 * 0x100_0000_0000 + b[6] as u64
        * 0x1_0000_0000_0000 + b[7] as u64 * 0x100_0000_0000_0000
}

/// The delay of a bench packet in nanoseconds, and whether its content is wrong.
pub fn bench_check_packet(pkt: &Packet, payload_size: usize, now: u64) -> (r: (u64, bool))
    requires
        payload_size >= STAMP_LEN,
    ensures
        r == bench_verdict(pkt@, payload_size as nat, now),
{
    if pkt.payload.len() != payload_size {
        return (0, true);
    }
    let stamp: u64 = read_le64(pkt.payload.as_slice());
    let delta: u64 = if now > stamp {
        now - stamp
    } else {
        0
    };
    let good: bool = holds_filler(
        pkt.payload.as_slice(),
        STAMP_LEN,
        pkt.seq,
        payload_size - STAMP_LEN,
    );
    (delta, !good)
}

/// What the receiving side of a bench collects.
#[derive(Debug, PartialEq, Eq)]
pub struct BenchResult {
    /// The delays in nanoseconds, in the order of arrival.
    pub deltas_ns: Vec<u64>,
    /// Packets whose content was wrong.
    pub content_errors: u64,
}

impl BenchResult {
    /// Nothing collected.
    pub fn new() -> (r: Self)
        ensures
            r.deltas_ns@ == Seq::<u64>::empty(),
            r.content_errors == 0,
    {
        BenchResult { deltas_ns: Vec::new(), content_errors: 0 }
    }

    /// Takes in a packet received at `now`.
    pub fn take_in(&mut self, pkt: &Packet, payload_size: usize, now: u64)
        requires
            payload_size >= STAMP_LEN,
            old(self).content_errors < u64::MAX,
        ensures
            ({
                let (delta, bad) = bench_verdict(pkt@, payload_size as nat, now);
                &&& final(self).deltas_ns@ == old(self).deltas_ns@.push(delta)
                &&& final(self).content_errors == old(self).content_errors + (if bad {
                    1int
                } else {
                    0
                })
            }),
    {
        let (delta, bad) = bench_check_packet(pkt, payload_size, now);
        if bad {
            self.content_errors = self.content_errors + 1;
        }
        self.deltas_ns.push(delta);
    }
}

/// A bench packet that arrives as it was sent shows its age and no fault.
pub proof fn bench_measures_the_delay(seq: u16, sent: u64, now: u64, payload_size: nat)
    requires
        payload_size >= STAMP_LEN,
        sent <= now,
    ensures
        bench_verdict(bench_packet(seq, sent, payload_size), payload_size, now) == (
            (now - sent) as u64,
            false,
        ),
{
    let p = bench_packet(seq, sent, payload_size);
    le64_round_trip(sent);
    assert(from_le64(p.payload) == from_le64(le64(sent)));
    assert(p.payload.skip(STAMP_LEN as int) =~= filler::filler(
        seq as u32,
        (payload_size - STAMP_LEN) as nat,
    ));
}

/// A test packet shows no content fault to a verifier of its size.
pub proof fn test_packets_are_faultless(seq: u16, payload_size: nat)
    ensures
        content_faults(test_packet(seq, payload_size), payload_size) == 0,
{
}

/// What a verifier makes of packets: its statistics, the number it expects next
/// and the number it saw last.
pub open spec fn verified(packets: Seq<protocol::PacketView>, payload_size: nat) -> (
    PacketStats,
    u16,
    Option<u16>,
)
    decreases packets.len(),
{
    if packets.len() == 0 {
        (PacketStats::zero(), 0, None)
    } else {
        let (stats, expected, last) = verified(packets.drop_last(), payload_size);
        let p = packets.last();
        (
            stats_with(stats, expected, last, p, payload_size),
            sequence::successor(p.seq),
            Some(p.seq),
        )
    }
}

/// The packets that a sender sends: numbered from 0 on, modulo 2^16.
pub open spec fn sent_packets(count: nat, payload_size: nat) -> Seq<protocol::PacketView> {
    Seq::new(count, |i: int| test_packet((i % 0x1_0000) as u16, payload_size))
}

/// Packets that arrive as they were sent verify without a flaw, also where the
/// numbers wrap around.
pub proof fn lossless_transfer_verifies(count: nat, payload_size: nat)
    requires
        count < COUNTER_LIMIT,
    ensures
        flawless(verified(sent_packets(count, payload_size), payload_size).0, count),
        verified(sent_packets(count, payload_size), payload_size).1 == count % 0x1_0000,
    decreases count,
{
    if count > 0 {
        let packets = sent_packets(count, payload_size);
        lossless_transfer_verifies((count - 1) as nat, payload_size);
        assert(packets.drop_last() =~= sent_packets((count - 1) as nat, payload_size));
    }
}

/// A verifier has room for each of the packets when it comes in.
pub open spec fn can_verify(packets: Seq<protocol::PacketView>, payload_size: nat) -> bool {
    forall|k: int|
        0 <= k < packets.len() ==> (#[trigger] verified(
            packets.take(k),
            payload_size,
        )).0.has_room()
}

/// Only packets that arrive as they were sent verify without a flaw: all of them,
/// in order, each with its type and content.
pub proof fn flawless_transfer_is_lossless(
    packets: Seq<protocol::PacketView>,
    payload_size: nat,
)
    requires
        can_verify(packets, payload_size),
        flawless(verified(packets, payload_size).0, packets.len()),
    ensures
        packets == sent_packets(packets.len(), payload_size),
    decreases packets.len(),
{
    let sent = sent_packets(packets.len(), payload_size);
    if packets.len() == 0 {
        assert(packets =~= sent);
    } else {
        let fewer = packets.drop_last();
        let p = packets.last();
        let n = fewer.len();
        assert(packets.take(n as int) =~= fewer);
        assert(verified(fewer, payload_size).0.has_room());
        assert(can_verify(fewer, payload_size)) by {
            assert forall|k: int| 0 <= k < fewer.len() implies (#[trigger] verified(
                fewer.take(k),
                payload_size,
            )).0.has_room() by {
                assert(fewer.take(k) =~= packets.take(k));
            }
        }
        flawless_transfer_is_lossless(fewer, payload_size);
        lossless_transfer_verifies(n, payload_size);
        assert(p.payload == test_packet(p.seq, payload_size).payload);
        assert(p == test_packet((n % 0x1_0000) as u16, payload_size));
        assert(packets =~= fewer.push(p));
        assert(packets =~= sent);
    }
}

/// What the bench reports, in microseconds.
#[derive(Debug, Clone, Copy, PartialEq, Eq, Structural)]
pub struct BenchSummary {
    pub count: usize,
    pub p50_us: u64,
    pub p95_us: u64,
    pub p99_us: u64,
    pub max_us: u64,
}

/// The place of the `p`-th percentile among `n` sorted values: that of the
/// smallest value with at least `p` percent of the values up to it.
pub open spec fn percentile_place(p: int, n: int) -> int {
    millis::ceil_div(p * n, 100) - 1
}

/// The `p`-th percentile of sorted delays in nanoseconds, in microseconds.
pub open spec fn percentile_us(sorted: Seq<u64>, p: int) -> u64 {
    sorted[percentile_place(p, sorted.len() as int)] / 1000
}

/// The summary of sorted delays.
pub open spec fn summary_of(sorted: Seq<u64>) -> BenchSummary {
    BenchSummary {
        count: sorted.len() as usize,
        p50_us: percentile_us(sorted, 50),
        p95_us: percentile_us(sorted, 95),
        p99_us: percentile_us(sorted, 99),
        max_us: sorted.last() / 1000,
    }
}

/// The `p`-th percentile of sorted delays.
fn percentile(v: &Vec<u64>, p: usize) -> (us: u64)
    requires
        v@.len() > 0,
        1 <= p <= 100,
    ensures
        us == percentile_us(v@, p as int),
        0 <= percentile_place(p as int, v@.len() as int) < v@.len(),
{
    let n: usize = v.len();
    let hundreds: usize = n / 100;
    let rest: usize = n % 100;
    assert(hundreds * p <= hundreds * 100) by (nonlinear_arith)
        requires
            p <= 100,
    ;
    assert(rest * p <= 9900) by (nonlinear_arith)
        requires
            p <= 100,
            rest <= 99,
    ;
    let up: usize = (rest * p + 99) / 100;
    proof {
        assert(p * n == 100 * (hundreds * p) + rest * p) by (nonlinear_arith)
            requires
                n == hundreds * 100 + rest,
        ;
        assert(millis::ceil_div(p * n, 100) == hundreds * p + up);
        assert(up <= rest) by {
            assert(rest * p <= rest * 100) by (nonlinear_arith)
                requires
                    p <= 100,
                    rest >= 0,
            ;
        }
        assert(p * n >= 1) by (nonlinear_arith)
            requires
                p >= 1,
                n >= 1,
        ;
    }
    let place: usize = hundreds * p + up - 1;
    v[place] / 1000
}

/// Summarises the delays of a bench, in nanoseconds; none without delays.
pub fn bench_summary(deltas_ns: &Vec<u64>) -> (r: Option<BenchSummary>)
    ensures
        deltas_ns@.len() == 0 <==> r is None,
        r matches Some(summary) ==> exists|s: Seq<u64>|
            {
                &&& #[trigger] sorting::sorted(s)
                &&& s.to_multiset() == deltas_ns@.to_multiset()
                &&& s.len() == deltas_ns@.len()
                &&& summary == summary_of(s)
            },
{
    if deltas_ns.len() == 0 {
        return None;
    }
    let sorted = sorting::sort(deltas_ns);
    let n: usize = sorted.len();
    let summary = BenchSummary {
        count: n,
        p50_us: percentile(&sorted, 50),
        p95_us: percentile(&sorted, 95),
        p99_us: percentile(&sorted, 99),
        max_us: sorted[n - 1] / 1000,
    };
    assert(summary == summary_of(sorted@));
    Some(summary)
}

impl BenchSummary {
    /// The line of the bench.
    pub open spec fn line(self, t: Transport) -> Seq<char> {
        "BENCH transport="@ + engine::transport_name(t) + " count="@ + text::decimal(
            self.count as nat,
        ) + " p50_us="@ + text::decimal(self.p50_us as nat) + " p95_us="@ + text::decimal(
            self.p95_us as nat,
        ) + " p99_us="@ + text::decimal(self.p99_us as nat) + " max_us="@ + text::decimal(
            self.max_us as nat,
        )
    }

    /// The line of the bench.
    pub fn render(&self, transport: Transport) -> (line: String)
        ensures
            line@ == self.line(transport),
    {
        let mut line = String::new();
        line.append("BENCH transport=");
        line.append(transport.as_str());
        line.append(" count=");
        push_decimal(&mut line, self.count as u64);
        line.append(" p50_us=");
        push_decimal(&mut line, self.p50_us);
        line.append(" p95_us=");
        push_decimal(&mut line, self.p95_us);
        line.append(" p99_us=");
        push_decimal(&mut line, self.p99_us);
        line.append(" max_us=");
        push_decimal(&mut line, self.max_us);
        assert(line@ =~= self.line(transport));
        line
    }

    /// Whether the bench passes.
    pub fn passes(&self) -> (r: bool)
        ensures
            r == (self.p99_us < P99_LIMIT_US),
    {
        self.p99_us < P99_LIMIT_US
    }
}

/// Percentiles never decrease, and none exceeds the maximum.
pub proof fn percentiles_are_ordered(s: Seq<u64>)
    requires
        sorting::sorted(s),
        s.len() > 0,
    ensures
        summary_of(s).p50_us <= summary_of(s).p95_us <= summary_of(s).p99_us <= summary_of(
            s,
        ).max_us,
{
    let n = s.len() as int;
    let a = percentile_place(50, n);
    let b = percentile_place(95, n);
    let c = percentile_place(99, n);
    assert(0 <= a <= b <= c <= n - 1);
    assert(s[a] <= s[b] <= s[c] <= s[n - 1]);
}

/// The line of the bench tells every number under its name.
pub proof fn bench_line_tells_every_number(s: BenchSummary, t: Transport)
    ensures
        text::tells(s.line(t), " count="@, s.count as nat),
        text::tells(s.line(t), " p50_us="@, s.p50_us as nat),
        text::tells(s.line(t), " p95_us="@, s.p95_us as nat),
        text::tells(s.line(t), " p99_us="@, s.p99_us as nat),
        text::tells(s.line(t), " max_us="@, s.max_us as nat),
{
    let line = s.line(t);
    reveal_strlit(" count=");
    reveal_strlit(" p50_us=");
    reveal_strlit(" p95_us=");
    reveal_strlit(" p99_us=");
    reveal_strlit(" max_us=");
    let before0 = "BENCH transport="@ + engine::transport_name(t);
    let before1 = before0 + " count="@ + text::decimal(s.count as nat);
    let before2 = before1 + " p50_us="@ + text::decimal(s.p50_us as nat);
    let before3 = before2 + " p95_us="@ + text::decimal(s.p95_us as nat);
    let before4 = before3 + " p99_us="@ + text::decimal(s.p99_us as nat);
    let after4 = Seq::<char>::empty();
    let after3 = " max_us="@ + text::decimal(s.max_us as nat) + after4;
    let after2 = " p99_us="@ + text::decimal(s.p99_us as nat) + after3;
    let after1 = " p95_us="@ + text::decimal(s.p95_us as nat) + after2;
    let after0 = " p50_us="@ + text::decimal(s.p50_us as nat) + after1;
    assert(line =~= before0 + " count="@ + text::decimal(s.count as nat) + after0);
    text::lemma_tells(line, before0, " count="@, s.count as nat, after0);
    assert(line =~= before1 + " p50_us="@ + text::decimal(s.p50_us as nat) + after1);
    text::lemma_tells(line, before1, " p50_us="@, s.p50_us as nat, after1);
    assert(line =~= before2 + " p95_us="@ + text::decimal(s.p95_us as nat) + after2);
    text::lemma_tells(line, before2, " p95_us="@, s.p95_us as nat, after2);
    assert(line =~= before3 + " p99_us="@ + text::decimal(s.p99_us as nat) + after3);
    text::lemma_tells(line, before3, " p99_us="@, s.p99_us as nat, after3);
    assert(line =~= before4 + " max_us="@ + text::decimal(s.max_us as nat) + after4);
    text::lemma_tells(line, before4, " max_us="@, s.max_us as nat, after4);
}

/// The line of a sender tells the packets and the bytes it sent.
pub proof fn sent_line_tells_every_number(count: nat, bytes: nat)
    ensures
        text::tells(sent_text(count, bytes), "SENT count="@, count),
        text::tells(sent_text(count, bytes), " bytes="@, bytes),
{
    let line = sent_text(count, bytes);
    reveal_strlit("SENT count=");
    reveal_strlit(" bytes=");
    let before0 = Seq::<char>::empty();
    let before1 = before0 + "SENT count="@ + text::decimal(count);
    let after1 = Seq::<char>::empty();
    let after0 = " bytes="@ + text::decimal(bytes) + after1;
    assert(line =~= before0 + "SENT count="@ + text::decimal(count) + after0);
    text::lemma_tells(line, before0, "SENT count="@, count, after0);
    assert(line =~= before1 + " bytes="@ + text::decimal(bytes) + after1);
    text::lemma_tells(line, before1, " bytes="@, bytes, after1);
}

/// The numerals of numbers, as they stand on a command line.
pub open spec fn numerals(numbers: Seq<nat>) -> Seq<Seq<char>> {
    numbers.map_values(|n: nat| text::decimal(n))
}

/// The receiving commands read the port, the count and the payload size, in this
/// order; the payload size may be left out and is 480 then.
pub proof fn receive_commands_are_read(port: nat, count: nat, size: nat)
    requires
        port <= 0xFFFF,
        1 <= count <= usize::MAX,
        size <= usize::MAX,
    ensures
        command_in(seq!["recv-udp"@] + numerals(seq![port, count, size])) == Ok::<
            CommandView,
            ArgErrorView,
        >(CommandView::RecvUdp { port, count, payload_size: size }),
        command_in(seq!["recv-tcp"@] + numerals(seq![port, count, size])) == Ok::<
            CommandView,
            ArgErrorView,
        >(CommandView::RecvTcp { port, count, payload_size: size }),
        command_in(seq!["recv-udp"@] + numerals(seq![port, count])) == Ok::<
            CommandView,
            ArgErrorView,
        >(CommandView::RecvUdp { port, count, payload_size: 480 }),
        command_in(seq!["recv-tcp"@] + numerals(seq![port, count])) == Ok::<
            CommandView,
            ArgErrorView,
        >(CommandView::RecvTcp { port, count, payload_size: 480 }),
{
    lemma_command_names();
    text::numeral_reads_back(port, 0xFFFF);
    text::numeral_reads_back(count, usize::MAX as nat);
    text::numeral_reads_back(size, usize::MAX as nat);
    let all = numerals(seq![port, count, size]);
    let some = numerals(seq![port, count]);
    assert((seq!["recv-udp"@] + all).skip(1) =~= all);
    assert((seq!["recv-tcp"@] + all).skip(1) =~= all);
    assert((seq!["recv-udp"@] + some).skip(1) =~= some);
    assert((seq!["recv-tcp"@] + some).skip(1) =~= some);
    assert(all[0] == text::decimal(port) && all[1] == text::decimal(count) && all[2]
        == text::decimal(size));
    assert(some[0] == text::decimal(port) && some[1] == text::decimal(count));
}

/// The sending commands read the host, the port, the count and the payload size, in
/// this order, and over UDP the interval last; what is left out at the end is 480
/// and 0.
pub proof fn send_commands_are_read(
    host: Seq<char>,
    port: nat,
    count: nat,
    size: nat,
    interval: nat,
)
    requires
        port <= 0xFFFF,
        1 <= count <= usize::MAX,
        size <= usize::MAX,
        interval <= u64::MAX,
    ensures
        command_in(seq!["send-udp"@, host] + numerals(seq![port, count, size, interval])) == Ok::<
            CommandView,
            ArgErrorView,
        >(CommandView::SendUdp { host, port, count, payload_size: size, interval_us: interval }),
        command_in(seq!["send-udp"@, host] + numerals(seq![port, count, size])) == Ok::<
            CommandView,
            ArgErrorView,
        >(CommandView::SendUdp { host, port, count, payload_size: size, interval_us: 0 }),
        command_in(seq!["send-tcp"@, host] + numerals(seq![port, count, size])) == Ok::<
            CommandView,
            ArgErrorView,
        >(CommandView::SendTcp { host, port, count, payload_size: size }),
        command_in(seq!["send-tcp"@, host] + numerals(seq![port, count])) == Ok::<
            CommandView,
            ArgErrorView,
        >(CommandView::SendTcp { host, port, count, payload_size: 480 }),
{
    lemma_command_names();
    text::numeral_reads_back(port, 0xFFFF);
    text::numeral_reads_back(count, usize::MAX as nat);
    text::numeral_reads_back(size, usize::MAX as nat);
    text::numeral_reads_back(interval, u64::MAX as nat);
    let all = numerals(seq![port, count, size, interval]);
    let most = numerals(seq![port, count, size]);
    let some = numerals(seq![port, count]);
    assert((seq!["send-udp"@, host] + all).skip(1) =~= seq![host] + all);
    assert((seq!["send-udp"@, host] + most).skip(1) =~= seq![host] + most);
    assert((seq!["send-tcp"@, host] + most).skip(1) =~= seq![host] + most);
    assert((seq!["send-tcp"@, host] + some).skip(1) =~= seq![host] + some);
    assert(all[0] == text::decimal(port) && all[1] == text::decimal(count) && all[2]
        == text::decimal(size) && all[3] == text::decimal(interval));
    assert(most[0] == text::decimal(port) && most[1] == text::decimal(count) && most[2]
        == text::decimal(size));
    assert(some[0] == text::decimal(port) && some[1] == text::decimal(count));
}

/// The bench reads the transport, the port, the count and the payload size, in this
/// order, and wants room for the time stamp; no other transport is known.
pub proof fn bench_commands_are_read(
    transport: Seq<char>,
    port: nat,
    count: nat,
    size: nat,
)
    requires
        port <= 0xFFFF,
        1 <= count <= usize::MAX,
        size <= usize::MAX,
    ensures
        ({
            let args = numerals(seq![port, count, size]);
            let udp = command_in(seq!["bench"@, "udp"@] + args);
            let tcp = command_in(seq!["bench"@, "tcp"@] + args);
            let other = command_in(seq!["bench"@, transport] + args);
            &&& size >= 8 ==> udp == Ok::<CommandView, ArgErrorView>(
                CommandView::Bench {
                    transport: Transport::Udp,
                    port,
                    count,
                    payload_size: size,
                },
            )
            &&& size >= 8 ==> tcp == Ok::<CommandView, ArgErrorView>(
                CommandView::Bench {
                    transport: Transport::Tcp,
                    port,
                    count,
                    payload_size: size,
                },
            )
            &&& size < 8 ==> udp == Err::<CommandView, ArgErrorView>(ArgErrorView::BenchPayload)
            &&& transport != "udp"@ && transport != "tcp"@ ==> other == Err::<
                CommandView,
                ArgErrorView,
            >(ArgErrorView::BenchTransport)
        }),
{
    lemma_command_names();
    text::numeral_reads_back(port, 0xFFFF);
    text::numeral_reads_back(count, usize::MAX as nat);
    text::numeral_reads_back(size, usize::MAX as nat);
    let all = numerals(seq![port, count, size]);
    assert((seq!["bench"@, "udp"@] + all).skip(1) =~= seq!["udp"@] + all);
    assert((seq!["bench"@, "tcp"@] + all).skip(1) =~= seq!["tcp"@] + all);
    assert((seq!["bench"@, transport] + all).skip(1) =~= seq![transport] + all);
    assert(all[0] == text::decimal(port) && all[1] == text::decimal(count) && all[2]
        == text::decimal(size));
    reveal_strlit("udp");
    reveal_strlit("tcp");
    assert("udp"@[0] != "tcp"@[0]);
}

/// No two commands share a name.
proof fn lemma_command_names()
    ensures
        "send-udp"@ != "recv-udp"@,
        "send-udp"@ != "send-tcp"@,
        "send-udp"@ != "recv-tcp"@,
        "send-udp"@ != "bench"@,
        "recv-udp"@ != "send-tcp"@,
        "recv-udp"@ != "recv-tcp"@,
        "recv-udp"@ != "bench"@,
        "send-tcp"@ != "recv-tcp"@,
        "send-tcp"@ != "bench"@,
        "recv-tcp"@ != "bench"@,
{
    reveal_strlit("send-udp");
    reveal_strlit("recv-udp");
    reveal_strlit("send-tcp");
    reveal_strlit("recv-tcp");
    reveal_strlit("bench");
    assert("send-udp"@[0] == 's' && "send-udp"@[5] == 'u');
    assert("send-tcp"@[0] == 's' && "send-tcp"@[5] == 't');
    assert("recv-udp"@[0] == 'r' && "recv-udp"@[5] == 'u');
    assert("recv-tcp"@[0] == 'r' && "recv-tcp"@[5] == 't');
    assert("bench"@.len() == 5 && "send-udp"@.len() == 8 && "recv-udp"@.len() == 8
        && "send-tcp"@.len() == 8 && "recv-tcp"@.len() == 8);
}

/// The `p`-th percentile is the smallest value with at least `p` percent of the
/// values up to it: its place counts that many, and the place before does not.
pub proof fn percentiles_cover_their_share(s: Seq<u64>, p: int)
    requires
        sorting::sorted(s),
        s.len() > 0,
        1 <= p <= 100,
    ensures
        ({
            let place = percentile_place(p, s.len() as int);
            &&& 0 <= place < s.len()
            &&& 100 * place < p * s.len() <= 100 * (place + 1)
            &&& forall|i: int| 0 <= i <= place ==> #[trigger] s[i] <= s[place]
        }),
        summary_of(s).p50_us == s[percentile_place(50, s.len() as int)] / 1000,
        summary_of(s).p95_us == s[percentile_place(95, s.len() as int)] / 1000,
        summary_of(s).p99_us == s[percentile_place(99, s.len() as int)] / 1000,
        forall|i: int| 0 <= i < s.len() ==> #[trigger] s[i] / 1000 <= summary_of(s).max_us,
        s.len() <= usize::MAX ==> summary_of(s).count == s.len(),
{
    let n = s.len() as int;
    assert(1 <= p * n <= 100 * n) by (nonlinear_arith)
        requires
            1 <= p <= 100,
            n >= 1,
    ;
}

/// The bench passes if the 99th percentile lies below 5 ms.
pub proof fn bench_passes_below_five_milliseconds(s: BenchSummary, r: bool)
    requires
        call_ensures(BenchSummary::passes, (&s,), r),
    ensures
        r <==> s.p99_us < 5000,
{
}

/// A bench packet is faultless exactly if it has the right size and its filler is
/// that of its number; where it is too old or too new, its delay is never negative.
pub proof fn bench_faults_are_seen(p: protocol::PacketView, size: nat, now: u64)
    requires
        size >= 8,
    ensures
        ({
            let (delay, bad) = bench_verdict(p, size, now);
            &&& !bad <==> p.payload.len() == size && p.payload.skip(8) == filler::filler(
                p.seq as u32,
                (size - 8) as nat,
            )
            &&& p.payload.len() == size && from_le64(p.payload) <= now ==> delay + from_le64(
                p.payload,
            ) == now
            &&& p.payload.len() == size && from_le64(p.payload) > now ==> delay == 0
        }),
{
}

/// A test packet is told from every other one by its type and by its payload, and
/// each of the two is a fault of its own.
pub proof fn content_faults_are_seen(p: protocol::PacketView, size: nat)
    ensures
        content_faults(p, size) == 0 <==> p == test_packet(p.seq, size),
        content_faults(p, size) <= 2,
        p.kind != test_packet(p.seq, size).kind ==> content_faults(p, size) >= 1,
        p.payload != test_packet(p.seq, size).payload ==> content_faults(p, size) >= 1,
        p.kind != test_packet(p.seq, size).kind && p.payload != test_packet(p.seq, size).payload
            ==> content_faults(p, size) == 2,
        test_packet(p.seq, size).kind is Pcm <==> p.seq % 2 == 0,
        test_packet(p.seq, size).kind is Opus <==> p.seq % 2 == 1,
        test_packet(p.seq, size).payload.len() == size,
{
}

/// A verifier counts a packet, its number and its faults, and moves on to it.
pub proof fn verifier_counts_faults(v: &mut RecvVerifier, p: &Packet, last: u16, ahead: int)
    requires
        old(v).counters().has_room(),
        old(v).sequence().wf(),
        old(v).sequence().last_seq() == Some(last),
        -32767 <= ahead <= 32768,
        p@.seq == (last + ahead) % 0x1_0000,
        call_ensures(RecvVerifier::check, (v, p), ()),
    ensures
        ({
            let s = old(v).counters();
            let t = final(v).counters();
            &&& t.received - s.received == 1
            &&& t.content_errors - s.content_errors == content_faults(
                p@,
                old(v).expected_size() as nat,
            )
            &&& t.lost - s.lost == (if ahead > 1 {
                ahead - 1
            } else {
                0
            })
            &&& t.duplicate - s.duplicate == (if ahead == 0 {
                1int
            } else {
                0
            })
            &&& t.out_of_order - s.out_of_order == (if ahead < 0 {
                1int
            } else {
                0
            })
            &&& t.malformed == s.malformed
            &&& final(v).sequence().last_seq() == Some(p@.seq)
            &&& final(v).expected_size() == old(v).expected_size()
        }),
{
}

/// A transfer ended well exactly if all packets came and no counter shows anything
/// else; until then more are wanted.
pub proof fn transfer_ends_well(v: &RecvVerifier, count: usize, ok: bool, more: bool)
    requires
        call_ensures(RecvVerifier::finished_ok, (v, count), ok),
        call_ensures(RecvVerifier::wants_more, (v, count), more),
    ensures
        ({
            let s = v.counters();
            &&& ok <==> s.received == count && s.lost == 0 && s.duplicate == 0 && s.out_of_order
                == 0 && s.malformed == 0 && s.content_errors == 0
            &&& more <==> s.received < count
            &&& ok ==> !more
        }),
{
}

/// A bench keeps every delay in the order of arrival and counts the bad packets.
pub proof fn bench_keeps_every_delay(
    r: &mut BenchResult,
    seq: u16,
    sent: u64,
    size: usize,
    p: &Packet,
    now: u64,
)
    requires
        size >= 8,
        sent <= now,
        old(r).content_errors < u64::MAX,
        call_ensures(BenchResult::take_in, (r, p, size, now), ()),
    ensures
        final(r).deltas_ns@.len() == old(r).deltas_ns@.len() + 1,
        final(r).deltas_ns@.take(old(r).deltas_ns@.len() as int) == old(r).deltas_ns@,
        p@ == bench_packet(seq, sent, size as nat) ==> final(r).deltas_ns@.last() == now - sent
            && final(r).content_errors == old(r).content_errors,
        p@.payload.len() != size ==> final(r).content_errors - old(r).content_errors == 1,
{
    bench_measures_the_delay(seq, sent, now, size as nat);
    assert(final(r).deltas_ns@.take(old(r).deltas_ns@.len() as int) =~= old(r).deltas_ns@);
}

/// A generated packet is the one that verifies: its own number, type and filler.
pub proof fn generated_packets_verify(
    seq: u16,
    size: usize,
    stamp: u64,
    p: Packet,
    q: Packet,
)
    requires
        size >= 8,
        call_ensures(gen_packet, (seq, size), p),
        call_ensures(gen_bench_packet, (seq, stamp, size), q),
    ensures
        content_faults(p@, size as nat) == 0,
        p@.seq == seq && q@.seq == seq,
        p@.payload.len() == size && q@.payload.len() == size,
        !bench_verdict(q@, size as nat, stamp).1,
        bench_verdict(q@, size as nat, stamp).0 == 0,
        from_le64(q@.payload) == stamp,
        q@.kind == p@.kind,
{
    bench_measures_the_delay(seq, stamp, stamp, size as nat);
    le64_round_trip(stamp);
    assert(from_le64(q@.payload) == from_le64(le64(stamp)));
}

/// No packets asked for is no command, and neither is a command with too few or too
/// many arguments, or with another name.
pub proof fn senseless_commands_are_refused(args: Seq<Seq<char>>, port: nat)
    requires
        port <= 0xFFFF,
    ensures
        command_in(seq!["recv-udp"@] + numerals(seq![port, 0])) == Err::<CommandView, ArgErrorView>(
            ArgErrorView::ZeroCount,
        ),
        args.len() == 0 ==> command_in(args) == Err::<CommandView, ArgErrorView>(
            ArgErrorView::UnknownCommand,
        ),
        args.len() > 0 && args[0] == "recv-udp"@ && (args.len() < 3 || args.len() > 4)
            ==> command_in(args) == Err::<CommandView, ArgErrorView>(ArgErrorView::RecvShape),
        args.len() > 0 && args[0] == "recv-tcp"@ && (args.len() < 3 || args.len() > 4)
            ==> command_in(args) == Err::<CommandView, ArgErrorView>(ArgErrorView::RecvShape),
        args.len() > 0 && args[0] == "send-udp"@ && (args.len() < 4 || args.len() > 6)
            ==> command_in(args) == Err::<CommandView, ArgErrorView>(ArgErrorView::SendUdpShape),
        args.len() > 0 && args[0] == "send-tcp"@ && (args.len() < 4 || args.len() > 5)
            ==> command_in(args) == Err::<CommandView, ArgErrorView>(ArgErrorView::SendTcpShape),
        args.len() > 0 && args[0] == "bench"@ && (args.len() < 4 || args.len() > 5)
            ==> command_in(args) == Err::<CommandView, ArgErrorView>(ArgErrorView::BenchShape),
{
    lemma_command_names();
    text::numeral_reads_back(port, 0xFFFF);
    text::numeral_reads_back(0, usize::MAX as nat);
    let some = numerals(seq![port, 0]);
    assert((seq!["recv-udp"@] + some).skip(1) =~= some);
    assert(some[0] == text::decimal(port) && some[1] == text::decimal(0));
}

/// A time stamp is written least significant byte first: its first byte is what is left
/// of division by 256, and the next ones are the bytes of the quotient.
pub proof fn stamps_start_with_the_low_byte(n: u64, i: int)
    requires
        0 <= i < 7,
    ensures
        le64(n).len() == 8,
        le64(n)[0] == n % 256,
        le64(n)[i + 1] == le64(n / 256)[i],
        from_le64(le64(n)) == n,
{
    le64_round_trip(n);
    assert(place(i + 1) == 256 * place(i));
    vstd::arithmetic::div_mod::lemma_div_denominator(n as int, 256, place(i));
}

/// An argument that is no number is named with its field and its text, the first such
/// argument where there are several.
pub proof fn bad_numbers_are_named(
    host: Seq<char>,
    port: nat,
    count: nat,
    size: nat,
    bad: Seq<char>,
    e: NumberError,
)
    requires
        port <= 0xFFFF,
        count <= usize::MAX,
        size <= usize::MAX,
        text::number_in(bad, 0xFFFF) == Err::<nat, NumberError>(e),
        text::number_in(bad, usize::MAX as nat) == Err::<nat, NumberError>(e),
        text::number_in(bad, u64::MAX as nat) == Err::<nat, NumberError>(e),
    ensures
        command_in(seq!["recv-udp"@, bad, bad]) == Err::<CommandView, ArgErrorView>(
            ArgErrorView::BadNumber(Field::Port, bad, e),
        ),
        command_in(seq!["recv-tcp"@, text::decimal(port), bad]) == Err::<
            CommandView,
            ArgErrorView,
        >(ArgErrorView::BadNumber(Field::Count, bad, e)),
        command_in(seq!["recv-udp"@, text::decimal(port), text::decimal(count), bad]) == Err::<
            CommandView,
            ArgErrorView,
        >(ArgErrorView::BadNumber(Field::PayloadSize, bad, e)),
        command_in(
            seq![
                "send-udp"@,
                host,
                text::decimal(port),
                text::decimal(count),
                text::decimal(size),
                bad,
            ],
        ) == Err::<CommandView, ArgErrorView>(
            ArgErrorView::BadNumber(Field::IntervalUs, bad, e),
        ),
        command_in(seq!["send-tcp"@, host, bad, text::decimal(count)]) == Err::<
            CommandView,
            ArgErrorView,
        >(ArgErrorView::BadNumber(Field::Port, bad, e)),
        command_in(seq!["bench"@, "tcp"@, text::decimal(port), bad]) == Err::<
            CommandView,
            ArgErrorView,
        >(ArgErrorView::BadNumber(Field::Count, bad, e)),
{
    lemma_command_names();
    text::numeral_reads_back(port, 0xFFFF);
    text::numeral_reads_back(count, usize::MAX as nat);
    text::numeral_reads_back(size, usize::MAX as nat);
    let a = seq!["recv-udp"@, bad, bad];
    assert(a.skip(1) =~= seq![bad, bad]);
    let b = seq!["recv-tcp"@, text::decimal(port), bad];
    assert(b.skip(1) =~= seq![text::decimal(port), bad]);
    let c = seq!["recv-udp"@, text::decimal(port), text::decimal(count), bad];
    assert(c.skip(1) =~= seq![text::decimal(port), text::decimal(count), bad]);
    let d = seq![
        "send-udp"@,
        host,
        text::decimal(port),
        text::decimal(count),
        text::decimal(size),
        bad,
    ];
    assert(d.skip(1) =~= seq![
        host,
        text::decimal(port),
        text::decimal(count),
        text::decimal(size),
        bad,
    ]);
    let f = seq!["send-tcp"@, host, bad, text::decimal(count)];
    assert(f.skip(1) =~= seq![host, bad, text::decimal(count)]);
    let g = seq!["bench"@, "tcp"@, text::decimal(port), bad];
    assert(g.skip(1) =~= seq!["tcp"@, text::decimal(port), bad]);
}

/// A command line is read as the command it spells, with its numbers in their places.
pub proof fn command_lines_are_read(
    args: &[String],
    r: Result<Command, ArgError>,
    host: Seq<char>,
    port: nat,
    count: nat,
    size: nat,
    interval: nat,
)
    requires
        port <= 0xFFFF,
        1 <= count <= usize::MAX,
        8 <= size <= usize::MAX,
        interval <= u64::MAX,
        call_ensures(parse_command, (args,), r),
    ensures
        ({
            let given = text::texts(args@);
            let three = numerals(seq![port, count, size]);
            let four = numerals(seq![port, count, size, interval]);
            &&& given == seq!["recv-udp"@] + three ==> (r matches Ok(
                Command::RecvUdp { port: p, count: c, payload_size: s },
            ) && p == port && c == count && s == size)
            &&& given == seq!["recv-tcp"@] + three ==> (r matches Ok(
                Command::RecvTcp { port: p, count: c, payload_size: s },
            ) && p == port && c == count && s == size)
            &&& given == seq!["send-tcp"@, host] + three ==> (r matches Ok(
                Command::SendTcp { host: h, port: p, count: c, payload_size: s },
            ) && h@ == host && p == port && c == count && s == size)
            &&& given == seq!["send-udp"@, host] + four ==> (r matches Ok(
                Command::SendUdp { host: h, port: p, count: c, payload_size: s, interval_us: i },
            ) && h@ == host && p == port && c == count && s == size && i == interval)
            &&& given == seq!["bench"@, "udp"@] + three ==> (r matches Ok(
                Command::Bench { transport, port: p, count: c, payload_size: s },
            ) && transport is Udp && p == port && c == count && s == size)
            &&& given == seq!["bench"@, "tcp"@] + three ==> (r matches Ok(
                Command::Bench { transport, port: p, count: c, payload_size: s },
            ) && transport is Tcp && p == port && c == count && s == size)
            &&& given.len() == 0 ==> (r matches Err(e) && e is UnknownCommand)
        }),
{
    receive_commands_are_read(port, count, size);
    send_commands_are_read(host, port, count, size, interval);
    bench_commands_are_read(host, port, count, size);
}

/// What is left out at the end of a command line is 480 bytes of payload and no
/// interval.
pub proof fn left_out_numbers_have_their_defaults(host: Seq<char>, port: nat, count: nat)
    requires
        port <= 0xFFFF,
        1 <= count <= usize::MAX,
    ensures
        command_in(seq!["send-udp"@, host] + numerals(seq![port, count])) == Ok::<
            CommandView,
            ArgErrorView,
        >(CommandView::SendUdp { host, port, count, payload_size: 480, interval_us: 0 }),
        command_in(seq!["bench"@, "udp"@] + numerals(seq![port, count])) == Ok::<
            CommandView,
            ArgErrorView,
        >(CommandView::Bench { transport: Transport::Udp, port, count, payload_size: 480 }),
{
    lemma_command_names();
    text::numeral_reads_back(port, 0xFFFF);
    text::numeral_reads_back(count, usize::MAX as nat);
    let some = numerals(seq![port, count]);
    assert((seq!["send-udp"@, host] + some).skip(1) =~= seq![host] + some);
    assert((seq!["bench"@, "udp"@] + some).skip(1) =~= seq!["udp"@] + some);
    assert(some[0] == text::decimal(port) && some[1] == text::decimal(count));
}

/// A refused number is told with its field, its text and the reason, a port with its
/// range too.
pub proof fn refused_numbers_are_told(
    e: &ArgError,
    field: Field,
    given: String,
    why: NumberError,
    m: String,
    reason: &'static str,
)
    requires
        *e == ArgError::BadNumber(field, given, why),
        call_ensures(ArgError::message, (e,), m),
        call_ensures(NumberError::message, (why,), reason),
    ensures
        field is Port ==> m@ == "invalid "@ + "port"@ + " '"@ + given@ + "' (0..=65535): "@
            + reason@,
        field is Count ==> m@ == "invalid "@ + "count"@ + " '"@ + given@ + "': "@ + reason@,
        field is PayloadSize ==> m@ == "invalid "@ + "payload_size"@ + " '"@ + given@ + "': "@
            + reason@,
        field is IntervalUs ==> m@ == "invalid "@ + "interval_us"@ + " '"@ + given@ + "': "@
            + reason@,
        why is Empty ==> reason@ == "cannot parse integer from empty string"@,
        why is InvalidDigit ==> reason@ == "invalid digit found in string"@,
        why is TooLarge ==> reason@ == "number too large to fit in target type"@,
{
}

/// A refused command is told with what it expects.
pub proof fn refused_commands_are_told(e: &ArgError, m: String)
    requires
        call_ensures(ArgError::message, (e,), m),
    ensures
        *e is UnknownCommand ==> m@ == "unknown or missing command"@,
        *e is SendUdpShape ==> m@
            == "send-udp expects: <host> <port> <count> [payload_size] [interval_us]"@,
        *e is SendTcpShape ==> m@ == "send-tcp expects: <host> <port> <count> [payload_size]"@,
        *e is RecvShape ==> m@ == "recv-* expects: <port> <count> [payload_size]"@,
        *e is BenchShape ==> m@ == "bench expects: <udp|tcp> <port> <count> [payload_size]"@,
        *e is BenchTransport ==> m@ == "bench transport must be \"udp\" or \"tcp\""@,
        *e is BenchPayload ==> m@ == "bench payload_size must be >= 8 (8-byte timestamp prefix)"@,
        *e is ZeroCount ==> m@ == "count must be >= 1"@,
{
}

/// The lines of the tool tell its numbers: the packets and bytes that were sent, 6 bytes
/// of header with each payload, and the percentiles of the bench.
pub proof fn tool_lines_tell_their_numbers(
    count: usize,
    size: usize,
    sent: String,
    s: &BenchSummary,
    t: Transport,
    line: String,
)
    requires
        count * (6 + size) <= usize::MAX,
        call_ensures(sent_line, (count, size), sent),
        call_ensures(BenchSummary::render, (s, t), line),
    ensures
        text::tells(sent@, "SENT count="@, count as nat),
        text::tells(sent@, " bytes="@, (count * (6 + size)) as nat),
        text::tells(line@, " count="@, s.count as nat),
        text::tells(line@, " p50_us="@, s.p50_us as nat),
        text::tells(line@, " p95_us="@, s.p95_us as nat),
        text::tells(line@, " p99_us="@, s.p99_us as nat),
        text::tells(line@, " max_us="@, s.max_us as nat),
{
    sent_line_tells_every_number(count as nat, (count * (6 + size)) as nat);
    bench_line_tells_every_number(*s, t);
}

/// The summary of a bench lies within its delays: nothing is summarised without any, the
/// largest is the maximum, and the percentiles rise up to it.
pub proof fn summaries_lie_within_the_delays(d: &Vec<u64>, r: Option<BenchSummary>)
    requires
        call_ensures(bench_summary, (d,), r),
    ensures
        r is None <==> d@.len() == 0,
        r matches Some(s) ==> {
            &&& s.count == d@.len()
            &&& s.p50_us <= s.p95_us <= s.p99_us <= s.max_us
            &&& forall|i: int| 0 <= i < d@.len() ==> #[trigger] d@[i] / 1000 <= s.max_us
            &&& exists|i: int| 0 <= i < d@.len() && #[trigger] d@[i] / 1000 == s.max_us
            &&& exists|i: int| 0 <= i < d@.len() && #[trigger] d@[i] / 1000 == s.p50_us
        },
{
    if d@.len() > 0 {
        let summary = r->0;
        let s = choose|s: Seq<u64>|
            {
                &&& #[trigger] sorting::sorted(s)
                &&& s.to_multiset() == d@.to_multiset()
                &&& s.len() == d@.len()
                &&& summary == summary_of(s)
            };
        assert(d.len() == d@.len());
        percentiles_are_ordered(s);
        percentiles_cover_their_share(s, 50);
        broadcast use vstd::seq_lib::group_to_multiset_ensures;

        assert forall|i: int| 0 <= i < d@.len() implies #[trigger] d@[i] / 1000
            <= summary.max_us by {
            assert(d@.to_multiset().contains(d@[i]));
            assert(s.contains(d@[i]));
            let k = choose|k: int| 0 <= k < s.len() && s[k] == d@[i];
            assert(s[k] <= s.last());
        }
        let top = s.last();
        assert(s.contains(top));
        assert(d@.to_multiset().contains(top));
        assert(d@.contains(top));
        let half = s[percentile_place(50, s.len() as int)];
        assert(s.contains(half));
        assert(d@.to_multiset().contains(half));
        assert(d@.contains(half));
        let i = choose|i: int| 0 <= i < d@.len() && d@[i] == top;
        assert(d@[i] / 1000 == summary.max_us);
        let j = choose|j: int| 0 <= j < d@.len() && d@[j] == half;
        assert(d@[j] / 1000 == summary.p50_us);
    }
}

/// A verifier starts from nothing and takes over how many datagrams were malformed.
pub proof fn verifiers_start_from_nothing(
    size: usize,
    v: RecvVerifier,
    w: &mut RecvVerifier,
    malformed: u64,
)
    requires
        call_ensures(RecvVerifier::new, (size,), v),
        call_ensures(RecvVerifier::set_malformed, (w, malformed), ()),
    ensures
        v.expected_size() == size,
        v.counters().received == 0 && v.counters().lost == 0 && v.counters().duplicate == 0,
        v.counters().out_of_order == 0 && v.counters().malformed == 0,
        v.counters().content_errors == 0,
        v.sequence().last_seq() is None,
        final(w).counters().malformed == malformed,
        final(w).counters().received == old(w).counters().received,
        final(w).counters().lost == old(w).counters().lost,
        final(w).counters().duplicate == old(w).counters().duplicate,
        final(w).counters().out_of_order == old(w).counters().out_of_order,
        final(w).counters().content_errors == old(w).counters().content_errors,
        final(w).sequence() == old(w).sequence(),
{
}

/// A bench starts with nothing, and a packet of it is judged by its size, its stamp and
/// its filler.
pub proof fn bench_packets_are_judged(
    fresh: BenchResult,
    p: &Packet,
    size: usize,
    now: u64,
    r: (u64, bool),
)
    requires
        size >= 8,
        call_ensures(BenchResult::new, (), fresh),
        call_ensures(bench_check_packet, (p, size, now), r),
    ensures
        fresh.deltas_ns@.len() == 0 && fresh.content_errors == 0,
        p@.payload.len() != size ==> r.1 && r.0 == 0,
        p@.payload.len() == size && from_le64(p@.payload) <= now ==> r.0 + from_le64(
            p@.payload,
        ) == now,
        p@.payload.len() == size && from_le64(p@.payload) > now ==> r.0 == 0,
        !r.1 <==> p@.payload.len() == size && p@.payload.skip(8) == filler::filler(
            p@.seq as u32,
            (size - 8) as nat,
        ),
{
    bench_faults_are_seen(p@, size as nat, now);
}

/// The line of the bench begins with its transport.
pub proof fn bench_lines_name_the_transport(s: &BenchSummary, t: Transport, line: String)
    requires
        call_ensures(BenchSummary::render, (s, t), line),
    ensures
        t is Udp ==> line@.take(20) == "BENCH transport=udp "@,
        t is Tcp ==> line@.take(20) == "BENCH transport=tcp "@,
{
    reveal_strlit("BENCH transport=");
    reveal_strlit("udp");
    reveal_strlit("tcp");
    reveal_strlit(" count=");
    reveal_strlit("BENCH transport=udp ");
    reveal_strlit("BENCH transport=tcp ");
    let head = "BENCH transport="@ + engine::transport_name(t) + " count="@;
    assert(line@.take(20) =~= head.take(20));
    if t is Udp {
        assert(head.take(20) =~= "BENCH transport=udp "@);
    } else {
        assert(head.take(20) =~= "BENCH transport=tcp "@);
    }
}

/// The summary tells the values at the places of the percentiles among the sorted delays,
/// in whole microseconds: the smallest place with that share of the delays up to it.
pub proof fn summaries_tell_the_percentiles(
    d: &Vec<u64>,
    r: Option<BenchSummary>,
    s: Seq<u64>,
    half: int,
    most: int,
    nearly: int,
)
    requires
        call_ensures(bench_summary, (d,), r),
        d@.len() > 0,
        sorting::sorted(s),
        s.to_multiset() == d@.to_multiset(),
        100 * half < 50 * d@.len() <= 100 * (half + 1),
        100 * most < 95 * d@.len() <= 100 * (most + 1),
        100 * nearly < 99 * d@.len() <= 100 * (nearly + 1),
    ensures
        r is Some,
        r->0.count == d@.len(),
        r->0.p50_us == s[half] / 1000,
        r->0.p95_us == s[most] / 1000,
        r->0.p99_us == s[nearly] / 1000,
        r->0.max_us == s[d@.len() - 1] / 1000,
{
    let summary = r->0;
    let t = choose|t: Seq<u64>|
        {
            &&& #[trigger] sorting::sorted(t)
            &&& t.to_multiset() == d@.to_multiset()
            &&& t.len() == d@.len()
            &&& summary == summary_of(t)
        };
    sorting::sorted_order_is_unique(s, t);
    assert(d.len() == d@.len());
}

} // verus!
