use openay_mic::protocol::{
    decode, encode, payload_len_from_header, DecodeError, Packet, PayloadType, HEADER_LEN, MAGIC,
};

#[test]
fn roundtrip_payload_sizes_and_seq_wraparound() {
    let sizes = [0usize, 1, 255, 256, 960, 1400, 65535];
    let seqs = [0u16, 1, 2, 0x7FFF, 0x8000, 0xFFFE, 0xFFFF];
    for size in sizes {
        for seq in seqs {
            let payload: Vec<u8> = (0..size).map(|i| (i as u8).wrapping_mul(31)).collect();
            let packet = Packet { kind: PayloadType::Pcm, seq, payload: payload.clone() };
            let wire = encode(&packet);
            assert_eq!(wire.len(), HEADER_LEN + size);
            assert_eq!(wire[0], MAGIC);
            assert_eq!(decode(&wire), Ok(packet), "roundtrip size={size} seq={seq}");
        }
    }
    let run = [0xFFFEu16, 0xFFFF, 0x0000, 0x0001];
    let mut expected = 0xFFFEu16;
    for seq in run {
        assert_eq!(expected, seq, "test setup");
        let wire = encode(&Packet { kind: PayloadType::Opus, seq, payload: vec![0xAB; 10] });
        assert_eq!(decode(&wire).unwrap().seq, seq);
        expected = expected.wrapping_add(1);
    }
}

#[test]
fn decode_rejects_trailing_bytes() {
    let packet =
        Packet { kind: PayloadType::Pcm, seq: 7, payload: vec![0xDE, 0xAD, 0xBE, 0xEF] };
    let mut wire = encode(&packet);
    wire.push(0x00);
    assert_eq!(decode(&wire), Err(DecodeError::Truncated));
    wire.pop();
    wire.pop();
    assert_eq!(decode(&wire), Err(DecodeError::Truncated));
}

#[test]
fn try_from_payload_type() {
    assert_eq!(PayloadType::try_from(0), Ok(PayloadType::Pcm));
    assert_eq!(PayloadType::try_from(1), Ok(PayloadType::Opus));
    assert_eq!(PayloadType::try_from(2), Ok(PayloadType::Control));
    assert_eq!(PayloadType::try_from(3), Err(DecodeError::ReservedType));
    assert_eq!(PayloadType::try_from(0xFF), Err(DecodeError::ReservedType));
}

#[test]
fn type_bytes_of_all_types() {
    assert_eq!(u8::from(PayloadType::Pcm), 0);
    assert_eq!(u8::from(PayloadType::Opus), 1);
    assert_eq!(u8::from(PayloadType::Control), 2);
}

#[test]
fn wire_bytes_are_big_endian() {
    let packet = Packet { kind: PayloadType::Control, seq: 0x1234, payload: vec![9, 8, 7] };
    assert_eq!(encode(&packet), vec![0xA7, 2, 0x12, 0x34, 0, 3, 9, 8, 7]);
}

#[test]
fn length_field_wraps_for_oversized_payloads() {
    let packet = Packet { kind: PayloadType::Pcm, seq: 0, payload: vec![0; 65536 + 5] };
    let wire = encode(&packet);
    assert_eq!(&wire[4..6], &[0, 5]);
    assert_eq!(decode(&wire), Err(DecodeError::Truncated));
}

#[test]
fn decode_errors_in_their_order() {
    assert_eq!(decode(&[]), Err(DecodeError::Truncated));
    assert_eq!(decode(&[0x00, 0x01, 0x02, 0x03, 0x04]), Err(DecodeError::Truncated));
    assert_eq!(decode(&[0x00, 0x07, 0, 0, 0, 0]), Err(DecodeError::BadMagic));
    assert_eq!(decode(&[0xA7, 0x03, 0, 0, 0, 9]), Err(DecodeError::ReservedType));
    assert_eq!(decode(&[0xA7, 0x00, 0, 0, 0, 9]), Err(DecodeError::Truncated));
    assert_eq!(DecodeError::BadMagic.message(), "bad magic byte (expected 0xA7)");
    assert_eq!(DecodeError::Truncated.message(), "truncated packet (header or payload)");
    assert_eq!(DecodeError::ReservedType.message(), "reserved packet type");
}

#[test]
fn payload_length_from_headers() {
    assert_eq!(payload_len_from_header(&[0xA7, 0, 0, 0, 0x12, 0x34]), Ok(0x1234));
    assert_eq!(payload_len_from_header(&[0xA6, 0, 0, 0, 0, 0]), Err(DecodeError::BadMagic));
    assert_eq!(payload_len_from_header(&[0xA7, 9, 0, 0, 0, 0]), Err(DecodeError::ReservedType));
}
