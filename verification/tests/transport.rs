use openay_mic::filler::{filled, fill_xorshift};
use openay_mic::protocol::{encode, Packet, PayloadType};
use openay_mic::sequence::{SeqEvent, SeqTracker};
use openay_mic::stats::PacketStats;
use openay_mic::tcp::{FramingError, Poll, TcpPacketStream};
use openay_mic::udp::UdpReceiver;

fn gen_packet(seq: u16, payload_size: usize) -> Packet {
    let kind = if seq % 2 == 0 { PayloadType::Pcm } else { PayloadType::Opus };
    let mut payload = vec![0u8; payload_size];
    fill_xorshift(&mut payload, seq as u32);
    Packet { kind, seq, payload }
}

fn assert_packet_matches(pkt: &Packet, seq: u16, payload_size: usize) {
    let expected_kind = if seq % 2 == 0 { PayloadType::Pcm } else { PayloadType::Opus };
    assert_eq!(pkt.kind, expected_kind, "kind mismatch at seq {seq}");
    assert_eq!(pkt.seq, seq, "seq mismatch");
    assert_eq!(pkt.payload.len(), payload_size, "payload length mismatch");
    let mut expect = vec![0u8; payload_size];
    fill_xorshift(&mut expect, seq as u32);
    assert_eq!(pkt.payload, expect, "payload content mismatch at seq {seq}");
}

/// Feeds `bytes` in pieces of `chunk` bytes and collects what comes out.
fn read_all(bytes: &[u8], chunk: usize) -> (Vec<Packet>, Option<FramingError>) {
    let mut rx = TcpPacketStream::new(());
    let mut packets = Vec::new();
    for piece in bytes.chunks(chunk) {
        rx.feed(piece);
        loop {
            match rx.next_packet() {
                Poll::Packet(p) => packets.push(p),
                Poll::Failed(e) => return (packets, Some(e)),
                Poll::Starved => break,
            }
        }
    }
    let end = rx.finish();
    (packets, Some(end))
}

#[test]
fn in_order_run() {
    let mut t = SeqTracker::new();
    for seq in 0..1000u16 {
        assert_eq!(t.update(seq), SeqEvent::InOrder, "seq {seq}");
    }
}

#[test]
fn injected_gap() {
    let mut t = SeqTracker::new();
    for seq in 0..10u16 {
        assert_eq!(t.update(seq), SeqEvent::InOrder);
    }
    assert_eq!(t.update(14), SeqEvent::Gap(4));
    assert_eq!(t.update(15), SeqEvent::InOrder);
    assert!(!matches!(t.update(16), SeqEvent::Gap(_)));
}

#[test]
fn duplicate() {
    let mut t = SeqTracker::new();
    for seq in 0..5u16 {
        assert_eq!(t.update(seq), SeqEvent::InOrder);
    }
    assert_eq!(t.update(4), SeqEvent::Duplicate);
    assert_eq!(t.update(5), SeqEvent::InOrder);
}

#[test]
fn reorder() {
    let mut t = SeqTracker::new();
    for seq in 0..10u16 {
        assert_eq!(t.update(seq), SeqEvent::InOrder);
    }
    assert_eq!(t.update(8), SeqEvent::Reorder);
    assert_eq!(t.update(3), SeqEvent::Reorder);
}

#[test]
fn wraparound_in_order() {
    let mut t = SeqTracker::new();
    for seq in 0u16..=0xFFFD {
        assert_eq!(t.update(seq), SeqEvent::InOrder, "seq {seq}");
    }
    for seq in [0xFFFEu16, 0xFFFF, 0x0000, 0x0001] {
        assert_eq!(t.update(seq), SeqEvent::InOrder, "seq {seq}");
    }
    assert_eq!(t.update(0x0001), SeqEvent::Duplicate);
}

#[test]
fn gap_across_wraparound() {
    let mut t = SeqTracker::new();
    for seq in 0u16..=0xFFFE {
        assert_eq!(t.update(seq), SeqEvent::InOrder);
    }
    assert_eq!(t.update(0x0003), SeqEvent::Gap(4));
}

#[test]
fn first_packet_may_show_a_gap() {
    let mut t = SeqTracker::default();
    assert_eq!(t.expected(), 0);
    assert_eq!(t.last(), None);
    assert_eq!(t.update(32767), SeqEvent::Gap(32767));
    assert_eq!(t.last(), Some(32767));
    assert_eq!(t.expected(), 32768);
    let mut t = SeqTracker::new();
    assert_eq!(t.update(32768), SeqEvent::Reorder);
}

#[test]
fn seed_one_first_four_bytes() {
    let mut buf = [0u8; 4];
    fill_xorshift(&mut buf, 1);
    assert_eq!(buf, [0x21, 0x01, 0xC5, 0x4F]);
}

#[test]
fn seed_zero_is_zeroes() {
    let mut buf = vec![0xFFu8; 16];
    fill_xorshift(&mut buf, 0);
    assert!(buf.iter().all(|&b| b == 0));
}

#[test]
fn deterministic_repeat() {
    let mut a = vec![0u8; 960];
    let mut b = vec![0u8; 960];
    fill_xorshift(&mut a, 12345);
    fill_xorshift(&mut b, 12345);
    assert_eq!(a, b);
    let mut c = vec![0u8; 960];
    fill_xorshift(&mut c, 12346);
    assert_ne!(a, c);
}

#[test]
fn shorter_filler_is_a_prefix() {
    assert_eq!(filled(77, 100)[..40], filled(77, 40)[..]);
}

#[test]
fn render_exact_line() {
    let s = PacketStats {
        received: 1000,
        lost: 2,
        duplicate: 1,
        out_of_order: 3,
        malformed: 4,
        content_errors: 0,
    };
    assert_eq!(
        s.render(),
        "RECV ok=1000 lost=2 dup=1 ooo=3 malformed=4 content_errors=0"
    );
}

#[test]
fn stats_count_each_event() {
    let mut s = PacketStats::default();
    assert!(s.counters_have_room());
    s.count_packet(SeqEvent::InOrder);
    s.count_packet(SeqEvent::Gap(7));
    s.count_packet(SeqEvent::Duplicate);
    s.count_packet(SeqEvent::Reorder);
    assert_eq!((s.received, s.lost, s.duplicate, s.out_of_order), (4, 7, 1, 1));
    s.lost = u64::MAX;
    assert!(!s.counters_have_room());
}

#[test]
fn send_and_receive_single_packet() {
    let pkt = Packet { kind: PayloadType::Pcm, seq: 42, payload: b"hello".to_vec() };
    let wire = TcpPacketStream::<()>::frame(&pkt);
    let (got, _) = read_all(&wire, 4096);
    assert_eq!(got, vec![pkt]);
}

#[test]
fn resync_on_bad_magic() {
    let garbage = [0xFFu8, 0x00, 0xA7, 0xAA, 0xBB, 0xCC, 0xDD];
    let pkt = Packet { kind: PayloadType::Opus, seq: 100, payload: vec![0x01, 0x02] };
    let mut bytes = garbage.to_vec();
    bytes.extend_from_slice(&encode(&pkt));
    for chunk in [1, 2, 3, 7, 4096] {
        let (got, _) = read_all(&bytes, chunk);
        assert_eq!(got.first(), Some(&pkt), "chunk {chunk}");
    }
}

#[test]
fn udp_loopback_1000_packets() {
    let mut rx = UdpReceiver::new();
    for seq in 0..1000u16 {
        let pkt = rx.on_datagram(&encode(&gen_packet(seq, 480))).unwrap();
        assert_packet_matches(&pkt, seq, 480);
    }
    let stats = rx.stats();
    assert_eq!(stats.received, 1000);
    assert_eq!(stats.lost, 0);
    assert_eq!(stats.duplicate, 0);
    assert_eq!(stats.out_of_order, 0);
    assert_eq!(stats.malformed, 0);
}

#[test]
fn udp_malformed_datagrams_are_counted_not_fatal() {
    let mut rx = UdpReceiver::new();
    assert!(rx.on_datagram(&[0x00, 0x01, 0x02, 0x03, 0x04]).is_none());
    assert!(rx.on_datagram(&[0xA7, 0x00, 0x00, 0x01, 0x00, 0x04, 0xDE, 0xAD]).is_none());
    assert!(rx.on_datagram(&[0xA7, 0x7F, 0x00, 0x00, 0x00, 0x00]).is_none());
    for seq in 0..5u16 {
        let pkt = rx.on_datagram(&encode(&gen_packet(seq, 64))).unwrap();
        assert_packet_matches(&pkt, seq, 64);
    }
    let stats = rx.stats();
    assert_eq!(stats.malformed, 3, "malformed datagrams must be counted");
    assert_eq!(stats.received, 5);
    assert_eq!(stats.lost, 0);
    rx.stats_mut().content_errors += 2;
    assert_eq!(rx.stats().content_errors, 2);
}

#[test]
fn waiting_ends_at_the_deadline() {
    assert_eq!(UdpReceiver::time_left(100, 40), Some(60));
    assert_eq!(UdpReceiver::time_left(100, 100), None);
    assert_eq!(UdpReceiver::time_left(100, 101), None);
}

#[test]
fn tcp_loopback_1000_packets() {
    let mut bytes = Vec::new();
    for seq in 0..1000u16 {
        bytes.extend_from_slice(&encode(&gen_packet(seq, 480)));
    }
    let (got, end) = read_all(&bytes, 4096);
    assert_eq!(got.len(), 1000);
    for (seq, pkt) in got.iter().enumerate() {
        assert_packet_matches(pkt, seq as u16, 480);
    }
    assert_eq!(end, Some(FramingError::Closed));
}

#[test]
fn tcp_resync_after_garbage_prefix() {
    let garbage: Vec<u8> = (0..17u8).map(|i| i.wrapping_mul(37) ^ 0x5A).collect();
    let mut bytes = garbage;
    bytes.extend_from_slice(&encode(&gen_packet(9, 100)));
    let (got, _) = read_all(&bytes, 4096);
    assert_packet_matches(&got[0], 9, 100);
}

#[test]
fn tcp_two_packets_back_to_back() {
    let seqs = [0u16, 1, 2, 0xFFFE, 0xFFFF, 0x0000];
    let mut bytes = Vec::new();
    for seq in seqs {
        bytes.extend_from_slice(&encode(&gen_packet(seq, 960)));
    }
    let (got, _) = read_all(&bytes, 100);
    assert_eq!(got.len(), seqs.len());
    for (pkt, seq) in got.iter().zip(seqs) {
        assert_packet_matches(pkt, seq, 960);
    }
}

#[test]
fn framing_errors_and_their_texts() {
    let (_, e) = read_all(&[0xA7, 0x09, 0, 0, 0, 0], 4096);
    assert_eq!(e, Some(FramingError::ReservedType));
    assert_eq!(
        e.unwrap().message(),
        "TcpPacketStream: reserved packet type in stream"
    );

    let (_, e) = read_all(&[0xA7, 0x00, 0], 4096);
    let e = e.unwrap();
    assert_eq!(e, FramingError::Truncated { needed: 3, had: 3 });
    assert_eq!(e.message(), "truncated: needed 3 bytes, had 3 before EOF");
    assert!(e.is_end_of_stream());

    let mut wire = encode(&gen_packet(3, 10));
    wire.truncate(6 + 4);
    let (_, e) = read_all(&wire, 4096);
    assert_eq!(e, Some(FramingError::Truncated { needed: 6, had: 4 }));

    let (_, e) = read_all(&encode(&gen_packet(3, 10))[..6], 4096);
    let e = e.unwrap();
    assert_eq!(e, FramingError::Closed);
    assert_eq!(e.message(), "connection closed by peer");

    let (_, e) = read_all(&[0u8; 20], 4096);
    let e = e.unwrap();
    assert_eq!(e, FramingError::NoMagic);
    assert_eq!(e.message(), "TcpPacketStream: no magic byte within 65536 bytes");
    assert!(!e.is_end_of_stream());
}

#[test]
fn resync_window_is_64_kib() {
    let pkt = gen_packet(1, 4);
    let mut bytes = vec![0u8; 65536];
    bytes.extend_from_slice(&encode(&pkt));
    for chunk in [1, 4096, 65536, bytes.len()] {
        let (got, end) = read_all(&bytes, chunk);
        assert_eq!(got, vec![gen_packet(1, 4)], "chunk {chunk}");
        assert_eq!(end, Some(FramingError::Closed));
    }

    let mut bytes = vec![0u8; 65537];
    bytes.extend_from_slice(&encode(&pkt));
    for chunk in [1, 4096, 65537, bytes.len()] {
        let (got, end) = read_all(&bytes, chunk);
        assert_eq!(got, vec![], "chunk {chunk}");
        assert_eq!(end, Some(FramingError::NoMagic));
    }

    let mut rx = TcpPacketStream::new(7u8);
    rx.feed(&vec![0u8; 65536]);
    assert!(matches!(rx.next_packet(), Poll::Starved));
    rx.feed(&[0]);
    assert!(matches!(rx.next_packet(), Poll::Failed(FramingError::NoMagic)));
    assert_eq!(*rx.get_ref(), 7);
    *rx.get_mut() = 8;
    assert_eq!(rx.into_inner(), 8);
}

#[test]
fn resync_after_a_few_bytes_of_garbage() {
    let (got, end) = read_all(&[0x00, 0xA7, 0x00, 0x00, 0x01, 0x00, 0x00], 4096);
    assert_eq!(got, vec![Packet { kind: PayloadType::Pcm, seq: 1, payload: vec![] }]);
    assert_eq!(end, Some(FramingError::Closed));

    let pkt = gen_packet(7, 20);
    for noise in 1..40usize {
        let mut bytes = vec![0x11u8; noise];
        bytes.extend_from_slice(&encode(&pkt));
        for chunk in [1, 2, 5, 6, 4096] {
            let (got, _) = read_all(&bytes, chunk);
            assert_eq!(got, vec![gen_packet(7, 20)], "{noise} bytes, chunk {chunk}");
        }
    }
}

#[test]
fn resync_and_magic_bytes_with_a_reserved_type() {
    let pkt = gen_packet(7, 20);
    for noise in [
        &[0x00, 0xA7][..],
        &[0x00, 0xA7, 0xA7],
        &[0x00, 0xA7, 0x03, 0xA7, 0xFF, 0xA7],
        &[0x00, 0x01, 0x02, 0x03, 0x04, 0xA7, 0x09],
    ] {
        let mut bytes = noise.to_vec();
        bytes.extend_from_slice(&encode(&pkt));
        for chunk in [1, 2, 3, 4096] {
            let (got, _) = read_all(&bytes, chunk);
            assert_eq!(got, vec![gen_packet(7, 20)], "{noise:?}, chunk {chunk}");
        }
    }

    let (got, end) = read_all(&[0xA7, 0x03, 0xA7, 0x00, 0, 1, 0, 0], 4096);
    assert_eq!(got, vec![]);
    assert_eq!(end, Some(FramingError::ReservedType), "a packet was due there");

    for noise in [6usize, 7, 1000] {
        let mut bytes = vec![0u8; noise];
        bytes.extend_from_slice(&[0xA7, 0xFF, 0, 0, 0, 0, 0, 0]);
        bytes.extend_from_slice(&encode(&pkt));
        for chunk in [1, 2, 3, 4096] {
            let (got, end) = read_all(&bytes, chunk);
            assert_eq!(got, vec![]);
            assert_eq!(end, Some(FramingError::ReservedType), "{noise} bytes, chunk {chunk}");
        }
    }

    let (_, end) = read_all(&[0, 0, 0, 0, 0, 0xA7], 4096);
    assert_eq!(end, Some(FramingError::Truncated { needed: 5, had: 1 }));
    let (_, end) = read_all(&[0, 0, 0, 0, 0, 0, 0xA7], 4096);
    assert_eq!(end, Some(FramingError::Truncated { needed: 5, had: 1 }));
    let (_, end) = read_all(&[0, 0, 0, 0, 0, 0, 0xA7, 0x02, 0x01], 4096);
    assert_eq!(end, Some(FramingError::Truncated { needed: 3, had: 3 }));
}
