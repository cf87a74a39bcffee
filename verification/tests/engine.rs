use openay_mic::codec::{CodecError, OpusCodec, DEFAULT_BITRATE, FRAME_SAMPLES};
use openay_mic::depth::DepthParams;
use openay_mic::engine::{
    is_done, plan, playback_error, CodecMode, ConfigError, EngineCommand, EngineConfig,
    EngineEvent, EnginePlan, EngineState, Ip, NetOutcome, PlaybackReport, Transport,
    NANOS_PER_SEC,
};
use openay_mic::ingest::{Ingest, IngestError, Malformed};
use openay_mic::jitter::{JitterBuffer, MAX_PREBUFFER_MS, MIN_PREBUFFER_MS};
use openay_mic::millis::Millis;
use openay_mic::playback::Playback;
use openay_mic::protocol::{decode, encode, DecodeError, Packet, PayloadType};
use openay_mic::run::{stats_due, underrun_episode_line, Reports, Run};

fn ms(n: u32) -> Millis {
    Millis::whole(n)
}

fn ingest() -> (Ingest, JitterBuffer<i16>) {
    (Ingest::new(None, true), JitterBuffer::new(8192))
}

fn feed(
    i: &mut Ingest,
    jitter: &mut JitterBuffer<i16>,
    kind: PayloadType,
    seq: u16,
    payload: &[u8],
) -> Result<Option<String>, IngestError> {
    i.ingest_packet(jitter, kind, seq, payload, None)
}

fn pcm_bytes(samples: &[i16]) -> Vec<u8> {
    let mut out = Vec::with_capacity(samples.len() * 2);
    for s in samples {
        out.extend_from_slice(&s.to_le_bytes());
    }
    out
}

fn pop_floats(jitter: &mut JitterBuffer<i16>, n: usize) -> Vec<f32> {
    let mut out = vec![0i16; n];
    assert_eq!(jitter.pop(&mut out), n);
    out.iter().map(|s| f32::from(*s) / 32768.0).collect()
}

#[test]
fn pcm_conversion_known_values() {
    let (mut i, mut jitter) = ingest();
    let payload = pcm_bytes(&[-32768, 32767, 0, 1, -1]);
    feed(&mut i, &mut jitter, PayloadType::Pcm, 0, &payload).unwrap();
    let out = pop_floats(&mut jitter, 5);
    assert_eq!(out[0], -1.0, "negative full scale");
    assert!((out[1] - 32767.0 / 32768.0).abs() < 1e-6, "got {}", out[1]);
    assert_eq!(out[2], 0.0);
    assert!((out[3] - 1.0 / 32768.0).abs() < 1e-7, "got {}", out[3]);
    assert!((out[4] - (-1.0 / 32768.0)).abs() < 1e-7, "got {}", out[4]);
}

#[test]
fn pcm_odd_payload_is_malformed() {
    let (mut i, mut jitter) = ingest();
    assert!(matches!(
        feed(&mut i, &mut jitter, PayloadType::Pcm, 0, &[0x00, 0x01, 0x02]),
        Err(IngestError::MalformedPayload(_))
    ));
    assert_eq!(i.malformed, 1);
    assert_eq!(jitter.available(), 0);
    assert_eq!(Malformed::OddPcm.message(), "PCM payload length is not even");
}

#[test]
fn seq_gap_duplicate_reorder_counted() {
    let (mut i, mut jitter) = ingest();
    let silence = pcm_bytes(&[0i16; 48]);
    for seq in 0..10u16 {
        feed(&mut i, &mut jitter, PayloadType::Pcm, seq, &silence).unwrap();
    }
    assert_eq!(i.lost, 0);
    assert_eq!(i.received, 10);

    feed(&mut i, &mut jitter, PayloadType::Pcm, 14, &silence).unwrap();
    assert_eq!(i.lost, 4);
    feed(&mut i, &mut jitter, PayloadType::Pcm, 14, &silence).unwrap();
    assert_eq!(i.duplicate, 1);
    feed(&mut i, &mut jitter, PayloadType::Pcm, 13, &silence).unwrap();
    assert_eq!(i.out_of_order, 1);
    feed(&mut i, &mut jitter, PayloadType::Pcm, 16, &silence).unwrap();
    assert_eq!(i.received, 14);
    assert_eq!(jitter.available(), 14 * 48, "all silence frames ingested");
}

#[test]
fn control_packet_skips_audio_but_counts() {
    let (mut i, mut jitter) = ingest();
    feed(&mut i, &mut jitter, PayloadType::Control, 0, b"{\"bye\":true}").unwrap();
    assert_eq!(i.received, 1);
    assert_eq!(jitter.available(), 0, "no audio from control packets");
    let silence = pcm_bytes(&[0i16; 48]);
    feed(&mut i, &mut jitter, PayloadType::Pcm, 1, &silence).unwrap();
    assert_eq!(i.lost, 0);
    assert_eq!(jitter.available(), 48);
}

#[test]
fn strict_codec_mode_rejects_other_type() {
    let mut jitter = JitterBuffer::new(8192);
    let mut i = Ingest::new(Some(PayloadType::Opus), true);
    let pcm = pcm_bytes(&[0i16; 48]);
    assert!(matches!(
        feed(&mut i, &mut jitter, PayloadType::Pcm, 0, &pcm),
        Err(IngestError::UnexpectedType)
    ));
    assert_eq!(i.malformed, 1);
    assert_eq!(jitter.available(), 0);
    assert!(matches!(
        feed(&mut i, &mut jitter, PayloadType::Control, 1, b"{}"),
        Err(IngestError::UnexpectedType)
    ));
    assert_eq!((i.received, i.malformed), (2, 2));
}

#[test]
fn wire_packet_roundtrip() {
    let pkt = Packet {
        kind: PayloadType::Pcm,
        seq: 7,
        payload: pcm_bytes(&[12345, -12345, 0, 32767, -32768]),
    };
    let wire = encode(&pkt);
    let decoded = decode(&wire).unwrap();
    let (mut i, mut jitter) = ingest();
    feed(&mut i, &mut jitter, decoded.kind, decoded.seq, &decoded.payload).unwrap();
    let out = pop_floats(&mut jitter, 5);
    assert!((out[0] - 12345.0 / 32768.0).abs() < 1e-5);
    assert!((out[1] - (-12345.0 / 32768.0)).abs() < 1e-5);
    assert_eq!(out[4], -1.0);
}

#[test]
fn overrun_increments_counter_and_is_not_fatal() {
    let mut jitter = JitterBuffer::new(1024);
    let mut i = Ingest::new(None, true);
    let big = pcm_bytes(&[1000i16; 1024]);
    feed(&mut i, &mut jitter, PayloadType::Pcm, 0, &big).unwrap();
    assert_eq!(jitter.available(), 1024);
    feed(&mut i, &mut jitter, PayloadType::Pcm, 1, &big).unwrap();
    assert_eq!(jitter.overruns(), 1);
    assert_eq!(jitter.available(), 1024, "block dropped whole");
    feed(&mut i, &mut jitter, PayloadType::Pcm, 2, &pcm_bytes(&[0i16; 2])).unwrap();
    assert_eq!(jitter.overruns(), 2);
}

#[test]
fn opus_frames_depend_on_the_decoder() {
    let (mut i, mut jitter) = ingest();
    assert!(i.needs_decoder(PayloadType::Opus));
    assert!(!i.needs_decoder(PayloadType::Pcm));
    let frame = vec![5i16; FRAME_SAMPLES];
    i.ingest_packet(&mut jitter, PayloadType::Opus, 0, &[1, 2], Some(frame.clone())).unwrap();
    let mut out = vec![0i16; FRAME_SAMPLES];
    assert_eq!(jitter.pop(&mut out), FRAME_SAMPLES);
    assert_eq!(out, frame);
    let refused = i.ingest_packet(&mut jitter, PayloadType::Opus, 1, &[1, 2], None);
    assert!(matches!(refused, Err(IngestError::OpusDecode)));
    assert_eq!(i.malformed, 1);

    let mut deaf = Ingest::new(None, false);
    assert!(!deaf.needs_decoder(PayloadType::Opus));
    let refused = deaf.ingest_packet(&mut jitter, PayloadType::Opus, 0, &[1, 2], None);
    assert!(matches!(
        refused,
        Err(IngestError::MalformedPayload(Malformed::NoDecoder))
    ));
    assert_eq!(Malformed::NoDecoder.message(), "Opus decoder unavailable");
    deaf.note_malformed();
    assert_eq!(deaf.malformed, 2);
    assert!(deaf.counters_have_room());
}

#[test]
fn overruns_are_reported_now_and_then() {
    let mut jitter = JitterBuffer::new(1024);
    let mut i = Ingest::new(None, false);
    let big = pcm_bytes(&[0i16; 1025]);
    let mut lines = Vec::new();
    for seq in 0..2001u16 {
        if let Some(line) = feed(&mut i, &mut jitter, PayloadType::Pcm, seq, &big).unwrap() {
            lines.push(line);
        }
    }
    assert_eq!(jitter.overruns(), 2001);
    assert_eq!(lines.len(), 3);
    assert_eq!(
        lines[0],
        "openay-server: jitter buffer overrun, dropped whole block (total overruns=1)"
    );
}

#[test]
fn bitrate_setter_clamps_range() {
    let mut codec = OpusCodec::new();
    assert_eq!(codec.bitrate(), DEFAULT_BITRATE);
    codec.set_bitrate(16_000, Ok(())).unwrap();
    assert_eq!(codec.bitrate(), 16_000);
    codec.set_bitrate(96_000, Ok(())).unwrap();
    assert_eq!(codec.bitrate(), 96_000);
    assert!(matches!(
        codec.set_bitrate(15_999, Ok(())),
        Err(CodecError::BadBitrate(_))
    ));
    assert!(matches!(
        codec.set_bitrate(96_001, Ok(())),
        Err(CodecError::BadBitrate(_))
    ));
    assert!(matches!(OpusCodec::admit_bitrate(15_999), Err(CodecError::BadBitrate(15_999))));
    assert!(matches!(
        codec.set_bitrate(50_000, Err("no".to_string())),
        Err(CodecError::Opus(_))
    ));
    assert_eq!(codec.bitrate(), 96_000, "a refused rate changes nothing");
}

#[test]
fn frame_size_enforced() {
    assert!(matches!(
        OpusCodec::encode(&[0i16; 479], Vec::new(), Ok(0)),
        Err(CodecError::BadFrameSize { .. })
    ));
    assert!(matches!(
        OpusCodec::admit_frame(&[0i16; 481]),
        Err(CodecError::BadFrameSize { .. })
    ));
    assert!(matches!(OpusCodec::admit_packet(&[]), Err(CodecError::EmptyPacket)));
    assert!(matches!(
        OpusCodec::decode(&[], Vec::new(), Ok(0)),
        Err(CodecError::EmptyPacket)
    ));
}

#[test]
fn coded_bytes_and_samples_are_cut_to_length() {
    let coded = OpusCodec::encode(&[0i16; 480], vec![1, 2, 3, 4], Ok(3));
    assert!(matches!(coded, Ok(bytes) if bytes == vec![1, 2, 3]));
    let decoded = OpusCodec::decode(&[9], vec![5i16; 480], Ok(480));
    assert!(matches!(decoded, Ok(samples) if samples.len() == 480));
    assert!(matches!(
        OpusCodec::decode(&[9], vec![5i16; 480], Err("bad".to_string())),
        Err(CodecError::Opus(_))
    ));
}

#[test]
fn codec_errors_have_texts() {
    assert_eq!(CodecError::Opus("x".to_string()).message(), "opus error: x");
    assert_eq!(
        CodecError::BadFrameSize { expected: 480, got: 479 }.message(),
        "bad frame size: expected 480 samples, got 479"
    );
    assert_eq!(
        CodecError::BadBitrate(15_999).message(),
        "bitrate 15999 bps outside supported range 16000..=96000"
    );
    assert_eq!(CodecError::EmptyPacket.message(), "empty opus packet");
}

#[test]
fn validated_rejects_port_zero() {
    let cfg = EngineConfig { port: 0, ..EngineConfig::default() };
    assert_eq!(cfg.validated(), Err(ConfigError::InvalidPort(0)));
    assert_eq!(
        ConfigError::InvalidPort(0).message(),
        "invalid port 0: must be in 1..=65535"
    );
}

#[test]
fn validated_accepts_port_range() {
    for port in [1u16, 1024, 41_700, 65_535] {
        let cfg = EngineConfig { port, ..EngineConfig::default() };
        assert_eq!(cfg.validated().unwrap().port, port);
    }
}

#[test]
fn validated_clamps_target_ms() {
    for (input, expected) in [
        (ms(3), ms(MIN_PREBUFFER_MS)),
        (ms(10), ms(10)),
        (ms(500), ms(MAX_PREBUFFER_MS)),
        (Millis::micros(-1000), ms(MIN_PREBUFFER_MS)),
    ] {
        let cfg = EngineConfig { target_ms: input, ..EngineConfig::default() };
        assert_eq!(cfg.validated().unwrap().target_ms, expected);
    }
}

#[test]
fn validated_preserves_other_fields() {
    let cfg = EngineConfig {
        transport: Transport::Tcp,
        bind: Ip::V4(0x7F00_0001),
        port: 4321,
        codec: CodecMode::Pcm,
        target_ms: ms(17),
        capacity_ms: ms(200),
    };
    let v = cfg.validated().unwrap();
    assert_eq!(v, cfg, "already-valid config passes through unchanged");
}

#[test]
fn codec_mode_round_trip_helpers() {
    assert_eq!(CodecMode::Auto.only(), None);
    assert_eq!(CodecMode::Pcm.only(), Some(PayloadType::Pcm));
    assert_eq!(CodecMode::Opus.only(), Some(PayloadType::Opus));
    assert_eq!(Transport::Udp.as_str(), "udp");
    assert_eq!(Transport::Tcp.as_str(), "tcp");
    assert_eq!(CodecMode::Auto.as_str(), "auto");
    assert_eq!(CodecMode::Pcm.as_str(), "pcm");
    assert_eq!(CodecMode::Opus.as_str(), "opus");
    assert_eq!(Transport::default(), Transport::Udp);
    assert_eq!(CodecMode::default(), CodecMode::Auto);
}

#[test]
fn default_config_matches_cli_defaults() {
    let cfg = EngineConfig::default();
    assert_eq!(cfg.transport, Transport::Udp);
    assert_eq!(cfg.bind, Ip::V4(0));
    assert_eq!(cfg.port, 41_700);
    assert_eq!(cfg.codec, CodecMode::Auto);
    assert_eq!(cfg.target_ms, ms(10));
    assert_eq!(cfg.capacity_ms, ms(100));
    assert!(cfg.validated().is_ok());
    assert!(cfg.has_possible_capacity());
}

#[test]
fn underrun_episode_line_format_and_throttle() {
    let mut jb = JitterBuffer::new(1024);
    let target = 576;
    let mut last_underruns = jb.underruns();
    let mut last_log = None;
    assert_eq!(
        underrun_episode_line(&jb, target, &mut last_underruns, &mut last_log, 0),
        None,
        "no increase: no line"
    );
    jb.note_underrun();
    jb.note_underrun();
    let line = underrun_episode_line(&jb, target, &mut last_underruns, &mut last_log, 1)
        .expect("an increase logs");
    assert_eq!(
        line,
        "openay-server: UNDERRUN episodes=+2 total=2 effective_target_ms=12.0 fill_ms=0.0"
    );
    jb.note_underrun();
    assert_eq!(
        underrun_episode_line(&jb, target, &mut last_underruns, &mut last_log, 2),
        None,
        "a second increase within 5 s is throttled"
    );
    assert_eq!(last_underruns, 3, "the counter advances even when throttled");
    jb.note_underrun();
    let later = 1 + 5 * NANOS_PER_SEC;
    let line = underrun_episode_line(&jb, target, &mut last_underruns, &mut last_log, later);
    assert_eq!(
        line.as_deref(),
        Some("openay-server: UNDERRUN episodes=+1 total=4 effective_target_ms=12.0 fill_ms=0.0")
    );
}

#[test]
fn status_reports_config_target_as_effective_while_stopped() {
    let cfg = EngineConfig { target_ms: ms(17), ..EngineConfig::default() };
    let state = EngineState::new(Some(cfg), DepthParams::default());
    let s = state.status(None, 0);
    assert!(!s.running);
    assert_eq!(s.effective_target_ms, ms(17));
}

#[test]
fn start_seeds_effective_target_with_config() {
    let cfg = EngineConfig {
        transport: Transport::Udp,
        bind: Ip::V4(0x7F00_0001),
        port: 41_701,
        codec: CodecMode::Auto,
        target_ms: ms(12),
        capacity_ms: ms(100),
    };
    let mut state = EngineState::new(Some(cfg), DepthParams::default());
    let (checked, mut run) = match state.prepare(cfg, true) {
        Ok(started) => started,
        Err(_) => panic!("a valid configuration starts"),
    };
    state.publish(checked, 7);
    let s = state.status(Some(&mut run), 7);
    assert!(s.running);
    assert_eq!(s.effective_target_ms, ms(12));
    assert_eq!(run.target_samples, 576);
    assert_eq!(run.buffer.capacity(), 8192);
}

/// A run from its start to its end, as its owner sees it.
#[test]
fn engine_run_from_start_to_stop() {
    let cfg = EngineConfig { port: 41_702, ..EngineConfig::default() };
    let mut state = EngineState::new(None, DepthParams::default());
    assert!(!state.running());
    assert_eq!(state.status(None, 99).port, 41_700, "defaults are shown");

    let (checked, mut run) = match state.prepare(cfg, false) {
        Ok(started) => started,
        Err(_) => panic!("a valid configuration starts"),
    };
    state.publish(checked, 10 * NANOS_PER_SEC);
    for seq in [0u16, 1, 2, 5, 5] {
        let packet = Packet {
            kind: PayloadType::Pcm,
            seq,
            payload: pcm_bytes(&[-32768i16; 480]),
        };
        assert_eq!(run.on_datagram(decode(&encode(&packet)), None), None);
    }
    run.on_datagram(Err(DecodeError::BadMagic), None);
    let mut out = vec![7i16; 1500];
    assert_eq!(run.process(&mut out), 1024, "one quantum at most");
    assert!(out[..1024].iter().all(|s| *s == -32768));
    assert!(out[1024..].iter().all(|s| *s == 7));

    let s = state.status(Some(&mut run), 13 * NANOS_PER_SEC + 5);
    assert!(s.running);
    assert_eq!((s.received, s.lost, s.dup, s.ooo, s.malformed), (5, 2, 1, 0, 1));
    assert_eq!(s.level_peak, 65_535);
    assert_eq!(s.uptime_secs, 3);
    assert_eq!(s.fill_ms, Millis::of_samples(5 * 480 - 1024));
    let s = state.status(Some(&mut run), 13 * NANOS_PER_SEC);
    assert_eq!(s.level_peak, 0, "a look takes the peak");

    let line = run.stats_line(Transport::Udp);
    assert_eq!(
        line,
        "SRV transport=udp received=5 lost=2 dup=1 ooo=0 malformed=1 \
         overruns=0 underruns=0 fill_ms=28.7"
    );
    state.stop(NetOutcome::Line(line.clone()));
    let s = state.status(Some(&mut run), 20 * NANOS_PER_SEC);
    assert!(!s.running);
    assert_eq!((s.received, s.lost, s.dup, s.malformed, s.uptime_secs), (0, 0, 0, 0, 0));
    assert_eq!(s.port, 41_702, "the configuration of the run is still shown");
    assert_eq!(state.take_stats_line(), Some(line));
    assert_eq!(state.take_stats_line(), None, "the line is there once");
}

#[test]
fn failed_start_leaves_an_error_and_no_line() {
    let mut state = EngineState::new(None, DepthParams::default());
    state.stop(NetOutcome::Line("SRV old".to_string()));
    let bad = EngineConfig { port: 0, ..EngineConfig::default() };
    let refused = match state.prepare(bad, true) {
        Ok(_) => panic!("port 0 must be refused"),
        Err(e) => e,
    };
    state.fail(refused.message());
    assert_eq!(state.take_stats_line(), None);
    assert_eq!(
        state.last_error().as_deref(),
        Some("invalid port 0: must be in 1..=65535")
    );
    state.stop(NetOutcome::Panicked("boom".to_string()));
    assert_eq!(state.last_error().as_deref(), Some("network task panicked: boom"));
    state.stop(NetOutcome::Failed("binding UDP".to_string()));
    assert_eq!(state.last_error().as_deref(), Some("binding UDP"));
    state.set_error("other".to_string());
    assert_eq!(state.last_error().as_deref(), Some("other"));
    assert_eq!(state.depth_params(), DepthParams::default());
}

#[test]
fn command_loop_keeps_one_run() {
    let cfg = EngineConfig::default();
    assert_eq!(
        plan(true, EngineEvent::Command(EngineCommand::Start(cfg))),
        EnginePlan { stop: true, start: Some(cfg), leave: false }
    );
    assert_eq!(
        plan(false, EngineEvent::Command(EngineCommand::Stop)),
        EnginePlan { stop: false, start: None, leave: false }
    );
    assert_eq!(
        plan(true, EngineEvent::Closed),
        EnginePlan { stop: true, start: None, leave: true }
    );
    assert!(plan(true, EngineEvent::Tick(true)).stop);
    assert!(!plan(true, EngineEvent::Tick(false)).stop);
    assert!(!plan(false, EngineEvent::Tick(true)).stop);
    assert!(is_done(false, true, false), "the network task ended by itself");
    assert!(!is_done(true, true, false), "playback still winds down");
    assert!(is_done(true, true, true));
    assert!(!is_done(true, false, true));
}

#[test]
fn playback_reports_become_errors() {
    assert_eq!(playback_error(true, PlaybackReport::Lost), None);
    assert_eq!(
        playback_error(false, PlaybackReport::Failed("no core".to_string())).as_deref(),
        Some("PipeWire setup failed: no core")
    );
    assert_eq!(
        playback_error(false, PlaybackReport::Exited).as_deref(),
        Some("PipeWire thread exited unexpectedly")
    );
    assert_eq!(
        playback_error(false, PlaybackReport::Lost).as_deref(),
        Some("PipeWire setup channel closed unexpectedly")
    );
}

#[test]
fn playback_waits_for_the_prebuffer_and_notes_underruns() {
    let mut buffer = JitterBuffer::new(1024);
    let mut p = Playback::new();
    let mut out = [9i16; 100];
    buffer.push(&[1000i16; 50]);
    assert_eq!(p.process(&mut buffer, 60, &mut out), 100);
    assert!(out.iter().all(|s| *s == 0), "prebuffering is silent");
    assert_eq!(buffer.available(), 50);
    buffer.push(&[-2000i16; 10]);
    p.process(&mut buffer, 60, &mut out);
    assert!(p.streaming);
    assert_eq!((out[0], out[49], out[50], out[59], out[60]), (1000, 1000, -2000, -2000, 0));
    assert_eq!(p.take_peak(), 3999);
    assert_eq!(buffer.underruns(), 0, "a short read is no underrun");
    p.process(&mut buffer, 60, &mut out);
    assert_eq!(buffer.underruns(), 1);
    assert!(!p.streaming);
    p.process(&mut buffer, 60, &mut out);
    assert_eq!(buffer.underruns(), 1, "an underrun counts once");
    p.process(&mut buffer, 0, &mut []);
    assert_eq!(buffer.underruns(), 1, "no room, no underrun");
}

#[test]
fn lines_are_due_every_five_seconds() {
    assert!(!stats_due(10, 10 + 5 * NANOS_PER_SEC - 1));
    assert!(stats_due(10, 10 + 5 * NANOS_PER_SEC));
    assert!(!stats_due(10, 3));
}

#[test]
fn port_zero_is_refused_whatever_the_capacity() {
    let mut state = EngineState::new(None, DepthParams::default());
    let bad = EngineConfig {
        port: 0,
        capacity_ms: Millis { ticks: i64::MAX },
        ..EngineConfig::default()
    };
    match state.prepare(bad, true) {
        Ok(_) => panic!("port 0 has to be refused"),
        Err(e) => assert_eq!(e, ConfigError::InvalidPort(0)),
    }
}

#[test]
fn reports_come_when_they_are_due() {
    let mut run = Run::new(&EngineConfig::default(), false);
    let mut reports = Reports::new(Transport::Tcp, run.buffer.underruns(), 100);
    assert_eq!(reports.look(&run, 101), (None, None));
    run.buffer.note_underrun();
    let (underruns, stats) = reports.look(&run, 102);
    assert_eq!(
        underruns.as_deref(),
        Some("openay-server: UNDERRUN episodes=+1 total=1 effective_target_ms=10.0 fill_ms=0.0")
    );
    assert_eq!(stats, None);
    run.buffer.note_underrun();
    assert_eq!(reports.look(&run, 99 + 5 * NANOS_PER_SEC), (None, None));
    run.buffer.note_underrun();
    let (underruns, stats) = reports.look(&run, 100 + 5 * NANOS_PER_SEC);
    assert_eq!(underruns, None, "two nanoseconds too early");
    assert_eq!(
        stats.as_deref(),
        Some(
            "SRV transport=tcp received=0 lost=0 dup=0 ooo=0 malformed=0 overruns=0 \
             underruns=3 fill_ms=0.0"
        )
    );
    run.buffer.note_underrun();
    let (underruns, stats) = reports.look(&run, 102 + 5 * NANOS_PER_SEC);
    assert_eq!(
        underruns.as_deref(),
        Some("openay-server: UNDERRUN episodes=+1 total=4 effective_target_ms=10.0 fill_ms=0.0")
    );
    assert_eq!(stats, None);
}

#[test]
fn fill_is_told_in_tenths() {
    let text = |samples: u32| {
        let mut s = String::new();
        Millis::of_samples(samples).push_tenths(&mut s);
        s
    };
    assert_eq!(text(0), "0.0");
    assert_eq!(text(480), "10.0");
    assert_eq!(text(1376), "28.7");
    assert_eq!(text(2), "0.0");
    assert_eq!(text(3), "0.1");
    for samples in 0..1000u32 {
        assert_eq!(text(samples), format!("{:.1}", f64::from(samples) / 48.0));
    }
    let mut s = String::new();
    Millis::micros(-250).push_tenths(&mut s);
    assert_eq!(s, "-0.2");
    assert_eq!(ms(10).samples_to_cover(), 480);
    assert_eq!(Millis::micros(10_001).samples_to_cover(), 481);
    assert_eq!(Millis::micros(10_001).samples_within(), 480);
    assert_eq!(Millis::micros(-5).samples_within(), 0);
    assert_eq!(ms(7).clamp(ms(8), ms(9)), ms(8));
}
