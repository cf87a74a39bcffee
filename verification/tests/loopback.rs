use openay_mic::engine::Transport;
use openay_mic::loopback::{
    bench_check_packet, bench_summary, gen_bench_packet, gen_packet, parse_bench, parse_command,
    parse_recv, parse_send_tcp, parse_send_udp, sent_line, ArgError, BenchResult, Command,
    RecvVerifier, DEFAULT_PAYLOAD,
};
use openay_mic::protocol::{decode, encode, PayloadType};
use openay_mic::sorting::sort;
use openay_mic::text::{eq_ignore_case, parse_number, push_decimal, push_large_decimal, NumberError};

fn args(line: &str) -> Vec<String> {
    line.split_whitespace().map(|s| s.to_string()).collect()
}

fn refusal(line: &str) -> String {
    match parse_command(&args(line)) {
        Ok(c) => panic!("{line:?} was accepted as {c:?}"),
        Err(e) => e.message(),
    }
}

#[test]
fn commands_are_parsed() {
    assert_eq!(
        parse_command(&args("send-udp host 5000 10")),
        Ok(Command::SendUdp {
            host: "host".to_string(),
            port: 5000,
            count: 10,
            payload_size: DEFAULT_PAYLOAD,
            interval_us: 0,
        })
    );
    assert_eq!(
        parse_send_udp(&args("host 5000 10 64 250")),
        Ok(Command::SendUdp {
            host: "host".to_string(),
            port: 5000,
            count: 10,
            payload_size: 64,
            interval_us: 250,
        })
    );
    assert_eq!(
        parse_send_tcp(&args("::1 +7 1")),
        Ok(Command::SendTcp {
            host: "::1".to_string(),
            port: 7,
            count: 1,
            payload_size: DEFAULT_PAYLOAD,
        })
    );
    assert_eq!(parse_recv(&args("9 3 12")), Ok((9, 3, 12)));
    assert_eq!(
        parse_command(&args("recv-tcp 9 3")),
        Ok(Command::RecvTcp { port: 9, count: 3, payload_size: DEFAULT_PAYLOAD })
    );
    assert_eq!(
        parse_command(&args("recv-udp 9 3")),
        Ok(Command::RecvUdp { port: 9, count: 3, payload_size: DEFAULT_PAYLOAD })
    );
    assert_eq!(
        parse_bench(&args("tcp 9 3 8")),
        Ok(Command::Bench { transport: Transport::Tcp, port: 9, count: 3, payload_size: 8 })
    );
}

#[test]
fn refused_commands_say_why() {
    assert_eq!(refusal(""), "unknown or missing command");
    assert_eq!(refusal("dance"), "unknown or missing command");
    assert_eq!(
        refusal("send-udp host 5000"),
        "send-udp expects: <host> <port> <count> [payload_size] [interval_us]"
    );
    assert_eq!(
        refusal("send-tcp host 5000 1 2 3"),
        "send-tcp expects: <host> <port> <count> [payload_size]"
    );
    assert_eq!(
        refusal("recv-udp 5000"),
        "recv-* expects: <port> <count> [payload_size]"
    );
    assert_eq!(
        refusal("bench udp 5000"),
        "bench expects: <udp|tcp> <port> <count> [payload_size]"
    );
    assert_eq!(
        refusal("bench sctp 5000 1"),
        "bench transport must be \"udp\" or \"tcp\""
    );
    assert_eq!(
        refusal("bench udp 5000 1 7"),
        "bench payload_size must be >= 8 (8-byte timestamp prefix)"
    );
    assert_eq!(refusal("recv-udp 5000 0"), "count must be >= 1");
    assert_eq!(
        refusal("recv-udp 65536 1"),
        "invalid port '65536' (0..=65535): number too large to fit in target type"
    );
    assert_eq!(
        refusal("recv-udp 1 x"),
        "invalid count 'x': invalid digit found in string"
    );
    assert!(matches!(
        parse_command(&args("recv-udp 1 1 -2")),
        Err(ArgError::BadNumber(..))
    ));
    assert_eq!(
        parse_command(&["recv-udp".to_string(), String::new(), "1".to_string()])
            .unwrap_err()
            .message(),
        "invalid port '' (0..=65535): cannot parse integer from empty string"
    );
}

#[test]
fn numbers_read_as_std_reads_them() {
    for s in ["0", "007", "+12", "65535", "65536", "", "+", "-", "-1", "1_0", " 1", "999999", "a"] {
        assert_eq!(
            parse_number(s, 65_535).ok(),
            s.parse::<u16>().ok().map(u64::from),
            "{s:?}"
        );
    }
    assert_eq!(parse_number("", 9), Err(NumberError::Empty));
    assert_eq!(parse_number("x", 9), Err(NumberError::InvalidDigit));
    assert_eq!(parse_number("10", 9), Err(NumberError::TooLarge));
    assert_eq!(
        parse_number("18446744073709551615", u64::MAX),
        Ok(u64::MAX)
    );
    let mut text = String::from("n=");
    push_decimal(&mut text, 0);
    push_decimal(&mut text, u64::MAX);
    push_large_decimal(&mut text, u128::MAX);
    assert_eq!(text, format!("n=0{}{}", u64::MAX, u128::MAX));
    assert!(eq_ignore_case("TrUe", "true"));
    assert!(!eq_ignore_case("ÄB", "äb"), "only ASCII letters fold");
}

#[test]
fn test_packets_verify() {
    let mut v = RecvVerifier::new(100);
    for seq in 0..500u16 {
        assert!(v.wants_more(500));
        let p = decode(&encode(&gen_packet(seq, 100))).unwrap();
        v.check(&p);
    }
    assert!(v.finished_ok(500));
    assert!(!v.wants_more(500));
    assert!(!v.finished_ok(501));
    assert_eq!(
        v.stats().render(),
        "RECV ok=500 lost=0 dup=0 ooo=0 malformed=0 content_errors=0"
    );
    v.set_malformed(1);
    assert!(!v.finished_ok(500));
}

#[test]
fn only_a_faultless_transfer_verifies() {
    let ok = |packets: Vec<openay_mic::protocol::Packet>| {
        let count = packets.len();
        let mut v = RecvVerifier::new(20);
        for p in &packets {
            v.check(p);
        }
        v.finished_ok(count)
    };
    let sent = || (0..10u16).map(|seq| gen_packet(seq, 20)).collect::<Vec<_>>();
    assert!(ok(sent()));
    for i in 0..10 {
        let mut packets = sent();
        packets[i].payload[3] ^= 1;
        assert!(!ok(packets));
        let mut packets = sent();
        packets[i].seq = 77;
        assert!(!ok(packets));
        let mut packets = sent();
        packets.swap(i, (i + 1) % 10);
        assert!(!ok(packets));
        let mut packets = sent();
        packets[i].kind = PayloadType::Control;
        assert!(!ok(packets));
    }
}

#[test]
fn faults_in_test_packets_count() {
    let mut v = RecvVerifier::new(100);
    let mut p = gen_packet(0, 100);
    p.payload[50] ^= 1;
    v.check(&p);
    assert_eq!(v.stats().content_errors, 1);
    let mut p = gen_packet(1, 100);
    p.kind = PayloadType::Control;
    v.check(&p);
    assert_eq!(v.stats().content_errors, 2);
    let mut p = gen_packet(3, 99);
    p.kind = PayloadType::Pcm;
    v.check(&p);
    assert_eq!(v.stats().content_errors, 4, "both type and content are wrong");
    assert_eq!(v.stats().lost, 1);
}

#[test]
fn bench_packets_show_their_age() {
    let p = gen_bench_packet(7, 1_000, 20);
    assert_eq!(p.payload.len(), 20);
    assert_eq!(p.payload[..8], 1_000u64.to_le_bytes());
    assert_eq!(bench_check_packet(&p, 20, 1_750), (750, false));
    assert_eq!(bench_check_packet(&p, 20, 10), (0, false), "clocks never run backwards");
    assert_eq!(bench_check_packet(&p, 21, 1_750), (0, true));
    let mut bad = gen_bench_packet(7, 1_000, 20);
    bad.payload[19] ^= 0x80;
    assert_eq!(bench_check_packet(&bad, 20, 1_750), (750, true));
    let mut r = BenchResult::new();
    r.take_in(&p, 20, 3_000);
    r.take_in(&bad, 20, 4_000);
    assert_eq!(r.deltas_ns, vec![2_000, 3_000]);
    assert_eq!(r.content_errors, 1);
}

#[test]
fn bench_line_and_limit() {
    assert!(bench_summary(&Vec::new()).is_none());
    let deltas: Vec<u64> = (1..=1000u64).rev().map(|i| i * 1_500).collect();
    let s = bench_summary(&deltas).unwrap();
    assert_eq!(
        s.render(Transport::Udp),
        "BENCH transport=udp count=1000 p50_us=750 p95_us=1425 p99_us=1485 max_us=1500"
    );
    assert!(s.passes());
    let slow = bench_summary(&vec![5_000_000]).unwrap();
    assert_eq!((slow.p50_us, slow.p99_us, slow.max_us), (5_000, 5_000, 5_000));
    assert!(!slow.passes(), "the limit itself does not pass");
    assert_eq!(sent_line(10, 480), "SENT count=10 bytes=4860");
}

#[test]
fn sorting_agrees_with_std() {
    let mut state = 12_345u64;
    for n in 0..80usize {
        let v: Vec<u64> = (0..n)
            .map(|_| {
                state = state.wrapping_mul(6364136223846793005).wrapping_add(1);
                (state >> 33) % 50
            })
            .collect();
        let mut expected = v.clone();
        expected.sort();
        assert_eq!(sort(&v), expected);
    }
}
