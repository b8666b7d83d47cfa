use pulseaudio::protocol::{Command, LatencyParams};
use volcano::input::{
    monitor_sources, record_buffer, Inputs, MonitorSelection, MonitorSelector, SampleFormat,
    SourceInfo,
};
use volcano::pulseaudio::{
    classify_packet, command_packet_ok, decode_samples, finish_packet, negotiate_version,
    PacketStep, PulseAudioError, RawSample, RecordOutcome, StopReason,
};
use volcano::visualiser::{frame_setup, CavaError, VisualiserError};
use volcano::channel::Channel;
use volcano::input::RecorderError;

fn source(name: &str, rate: u32, channels: u8) -> SourceInfo {
    SourceInfo {
        index: rate + channels as u32,
        name: name.to_string(),
        format: SampleFormat::S16Le,
        sample_rate: rate,
        channels,
    }
}

#[test]
fn only_monitor_sources_are_kept() {
    let all = vec![
        source("alsa_input.mic", 48000, 1),
        source("alsa_output.speakers.monitor", 48000, 2),
        source("monitor", 44100, 2),
        source("hdmi.monitor", 44100, 2),
    ];
    let kept = monitor_sources(all);
    let names: Vec<&str> = kept.iter().map(|s| s.name.as_str()).collect();
    assert_eq!(names, vec!["alsa_output.speakers.monitor", "hdmi.monitor"]);
}

#[test]
fn selection_takes_first_match() {
    let monitors = vec![source("a.monitor", 48000, 2), source("b.monitor", 44100, 1)];
    assert!(MonitorSelection::First.select(&monitors[1]));
    assert!(!MonitorSelection::ByName("a.monitor".to_string()).select(&monitors[1]));
    let first = Inputs::pulseaudio_selected((), &monitors, &MonitorSelection::First, 256);
    assert_eq!(first.source().name, "a.monitor");
    let by_name =
        Inputs::pulseaudio_selected(7u8, &monitors, &MonitorSelection::ByName("b.monitor".to_string()), 64);
    assert_eq!(by_name.sample_rate(), 44100);
    assert_eq!(by_name.channels(), 1);
    match by_name {
        Inputs::PulseAudio { client, latency, .. } => {
            assert_eq!(client, 7u8);
            assert_eq!(latency, 64);
        }
    }
}

#[test]
fn frame_size_counts_all_channels() {
    let monitors = vec![source("a.monitor", 48000, 2)];
    let input = Inputs::pulseaudio_selected((), &monitors, &MonitorSelection::First, 256);
    assert_eq!(input.frame_size(60), 1600);
    assert_eq!(input.frame_size(7), 13714);
}

#[test]
fn record_buffer_sizes() {
    let b = record_buffer(256);
    assert_eq!(b.fragment_size, 256);
    assert_eq!(b.max_length, 1024);
    assert_eq!(b.target_length, 256);
    assert_eq!(b.pre_buffering, 0);
    assert_eq!(b.minimum_request_length, 256);
}

#[test]
fn decode_s16_samples() {
    let d = decode_samples(SampleFormat::S16Le, &[0x01, 0x00, 0xff, 0xff, 0x00, 0x80, 0x07]);
    assert_eq!(d.samples, vec![RawSample::I16(1), RawSample::I16(-1), RawSample::I16(i16::MIN)]);
    assert!(d.partial);
}

#[test]
fn decode_32_bit_samples() {
    let d = decode_samples(SampleFormat::S32Le, &[0, 0, 0, 0x80, 0x01, 0x02, 0x03, 0x04]);
    assert_eq!(d.samples, vec![RawSample::I32(i32::MIN), RawSample::I32(0x04030201)]);
    assert!(!d.partial);
    let f = decode_samples(SampleFormat::Float32Le, &[0, 0, 0x80, 0x3f]);
    match f.samples[0] {
        RawSample::F32Bits(bits) => assert_eq!(f32::from_bits(bits), 1.0f32),
        _ => panic!("expected a float sample"),
    }
    let empty = decode_samples(SampleFormat::Unsupported, &[]);
    assert!(empty.samples.is_empty() && !empty.partial);
}

#[test]
fn packets_are_classified() {
    assert_eq!(classify_packet(Some((u32::MAX, 10)), 100), Ok(PacketStep::Command(10)));
    assert_eq!(
        classify_packet(Some((u32::MAX, 101)), 100),
        Err(StopReason::CommandTooLarge(101))
    );
    assert_eq!(classify_packet(Some((3, 100)), 100), Ok(PacketStep::Data(100)));
    assert_eq!(classify_packet(Some((3, 101)), 100), Err(StopReason::DataTooLarge(101)));
    assert_eq!(classify_packet(None, 100), Err(StopReason::HeaderUnreadable));
}

#[test]
fn version_is_the_lower_one() {
    assert_eq!(negotiate_version(35, 32), 32);
    assert_eq!(negotiate_version(35, 36), 35);
}

#[test]
fn error_messages() {
    assert_eq!(CavaError::InitializationFailed.message(), "Cava initialization failed");
    assert_eq!(PulseAudioError::Connection.message(), "Failed to connect to PulseAudio server");
    let rec = RecorderError::from(PulseAudioError::Connection);
    assert_eq!(rec.message(), "PulseAudio error: Failed to connect to PulseAudio server");
    assert_eq!(
        VisualiserError::from(rec).message(),
        "Input error: PulseAudio error: Failed to connect to PulseAudio server"
    );
    let failed = PulseAudioError::Command { sent: "Auth".to_string(), received: "Timeout".to_string() };
    assert_eq!(failed.message(), "Error executing PulseAudio command Auth: Timeout");
    assert_eq!(
        RecorderError::from(failed).message(),
        "PulseAudio error: Error executing PulseAudio command Auth: Timeout"
    );
    assert_eq!(
        VisualiserError::from(CavaError::InitializationFailed).message(),
        "Cava error: Cava initialization failed"
    );
}

#[test]
fn frame_setup_sizes() {
    let s = frame_setup(Channel::Left, 20, 60, 1600, 2);
    assert_eq!(s.ring_capacity, 6400);
    assert_eq!(s.analyser_bars, 40);
    assert_eq!(s.output_len, 40);
    assert_eq!(s.interval_ns, 16_666_666);
    assert_eq!(frame_setup(Channel::Stereo, 20, 60, 1600, 2).analyser_bars, 20);
}

#[test]
fn decoding_returns_the_encoded_samples() {
    let v16: Vec<i16> = vec![0, 1, -1, i16::MAX, i16::MIN, -12345];
    let bytes: Vec<u8> = v16.iter().flat_map(|s| s.to_le_bytes()).collect();
    let d = decode_samples(SampleFormat::S16Le, &bytes);
    assert_eq!(d.samples, v16.iter().map(|&s| RawSample::I16(s)).collect::<Vec<_>>());
    assert!(!d.partial);

    let v32: Vec<i32> = vec![0, -1, i32::MAX, i32::MIN, 123456789];
    let bytes: Vec<u8> = v32.iter().flat_map(|s| s.to_le_bytes()).collect();
    let d = decode_samples(SampleFormat::S32Le, &bytes);
    assert_eq!(d.samples, v32.iter().map(|&s| RawSample::I32(s)).collect::<Vec<_>>());
    assert!(!d.partial);
}

fn encoded(command: &pulseaudio::protocol::Command) -> Vec<u8> {
    let mut buf = std::io::Cursor::new(Vec::new());
    command
        .write_tag_prefixed(7, &mut buf, pulseaudio::protocol::MAX_VERSION)
        .unwrap();
    buf.into_inner()
}

#[test]
fn command_packets_must_decode_exactly() {
    let v = pulseaudio::protocol::MAX_VERSION;
    let exit = encoded(&pulseaudio::protocol::Command::Exit);
    assert!(command_packet_ok(&exit, v));
    let killed = encoded(&pulseaudio::protocol::Command::RecordStreamKilled(3));
    assert!(command_packet_ok(&killed, v));
    let mut trailing = exit.clone();
    trailing.push(0);
    assert!(!command_packet_ok(&trailing, v));
    assert!(!command_packet_ok(&exit[..exit.len() - 1], v));
    assert!(!command_packet_ok(&[], v));
}

#[test]
fn selection_functions_choose_the_source() {
    let monitors = vec![source("a.monitor", 48000, 2), source("speakers.monitor", 44100, 1)];
    let chosen = Inputs::pulseaudio((), &monitors, |m: &SourceInfo| m.name.len() > 10, 256);
    assert_eq!(chosen.source().name, "speakers.monitor");
    let any = Inputs::pulseaudio((), &monitors, |_: &SourceInfo| true, 256);
    assert_eq!(any.source().name, "a.monitor");
}

#[test]
fn latency_queries_with_overflowing_timestamps_end_the_recording() {
    let v = pulseaudio::protocol::MAX_VERSION;
    let now = std::time::UNIX_EPOCH + std::time::Duration::new(1000, 999_000);
    let query = encoded(&Command::GetRecordLatency(LatencyParams { channel: 2, now }));
    assert_eq!(query.len(), 24);
    assert_eq!((query[0], query[5], query[10], query[15]), (b'L', b'L', b'L', b'T'));
    assert_eq!(&query[1..5], &57u32.to_be_bytes());
    assert_eq!(&query[20..24], &999u32.to_be_bytes());
    assert!(command_packet_ok(&query, v));
    let mut bad = query.clone();
    bad[20..24].copy_from_slice(&4_294_968u32.to_be_bytes());
    assert!(!command_packet_ok(&bad, v));
    let mut edge = query.clone();
    edge[20..24].copy_from_slice(&4_294_967u32.to_be_bytes());
    assert!(command_packet_ok(&edge, v));
    let playback = encoded(&Command::GetPlaybackLatency(LatencyParams { channel: 1, now }));
    let mut bad = playback.clone();
    bad[20..24].copy_from_slice(&u32::MAX.to_be_bytes());
    assert!(!command_packet_ok(&bad, v));
}

#[test]
fn packets_finish_with_a_decision() {
    let v = pulseaudio::protocol::MAX_VERSION;
    let exit = encoded(&pulseaudio::protocol::Command::Exit);
    assert!(matches!(
        finish_packet(PacketStep::Command(0), Some(&exit), SampleFormat::S16Le, v),
        RecordOutcome::Continue
    ));
    assert!(matches!(
        finish_packet(PacketStep::Command(0), Some(&[1, 2, 3]), SampleFormat::S16Le, v),
        RecordOutcome::Stop(StopReason::CommandMalformed)
    ));
    assert!(matches!(
        finish_packet(PacketStep::Data(4), None, SampleFormat::S16Le, v),
        RecordOutcome::Stop(StopReason::PayloadUnreadable)
    ));
    match finish_packet(PacketStep::Data(3), Some(&[2, 0, 9]), SampleFormat::S16Le, v) {
        RecordOutcome::Push(d) => {
            assert_eq!(d.samples, vec![RawSample::I16(2)]);
            assert!(d.partial);
        }
        other => panic!("expected samples, got {:?}", other),
    }
}
