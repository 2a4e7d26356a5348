use loopmaster::fifo::{AudioFifo, AudioFifoConsumer, AudioFifoProducer};
use loopmaster::decibels::Decibels;
use loopmaster::routing::{
    BusId, BusSpec, EndpointId, RouteGraph, SendId, SendSpec, SinkId, SinkKind, SinkSpec,
    SourceId, SourceKind, SourceSpec,
};
use loopmaster::vban::bridge::{
    accept_packet, check_bridge, open_streams, sink_bridges, source_bridges, NetworkBridgeError,
    NetworkIoHandles, VbanSourceBridge, VbanStream,
};
use loopmaster::vban::jitter::{
    frame_is_newer, frame_offset, VBanJitterBuffer, VBanJitterError,
};
use loopmaster::vban::packet::{
    max_samples_per_channel, sample_rate_to_index, VBanBitFormat, VBanHeader, VBanPacketError,
    VBanProtocol, VBanStreamConfig, SAMPLE_RATE_INDEX_TO_HZ, VBAN_FRAME_WINDOW, VBAN_HEADER_SIZE,
    VBAN_MAGIC, VBAN_STREAM_NAME_SIZE,
};
use loopmaster::vban::receive::{parse_packet, VBanReceiveError, VBanReceiver};
use loopmaster::vban::wire::{payload_bytes, signed_sample, VBanSendError, VBanSender};

struct Random(u64);

impl Random {
    fn next(&mut self) -> u64 {
        self.0 = self.0.wrapping_mul(6_364_136_223_846_793_005).wrapping_add(1_442_695_040_888_963_407);
        self.0 >> 33
    }

    fn below(&mut self, limit: u64) -> u64 {
        self.next() % limit
    }
}

fn header(sr: u8, nbs: u8, nbc: u8, bit: u8, name: &str, frame: u32) -> VBanHeader {
    let mut stream_name = [0u8; VBAN_STREAM_NAME_SIZE];
    stream_name[..name.len()].copy_from_slice(name.as_bytes());
    VBanHeader {
        format_sr: sr,
        format_nbs: nbs,
        format_nbc: nbc,
        format_bit: bit,
        stream_name,
        nu_frame: frame,
    }
}

fn encode(h: &VBanHeader) -> [u8; VBAN_HEADER_SIZE] {
    let mut out = [0u8; VBAN_HEADER_SIZE];
    h.encode_into(&mut out);
    out
}

/// Audio PCM at 48 kHz.
const SR_48K: u8 = 0b0000_0011;

#[test]
fn round_trips_stereo_48k_pcm_header() {
    let h = header(SR_48K, 255, 1, 0b0000_0001, "Stream1", 42);
    let bytes = encode(&h);
    assert_eq!(bytes[0..4], VBAN_MAGIC);
    let decoded = VBanHeader::decode(&bytes).unwrap();
    assert_eq!(decoded, h);
    assert_eq!(decoded.sample_rate_hz().unwrap(), 48_000);
    assert_eq!(decoded.samples_per_channel(), 256);
    assert_eq!(decoded.channels(), 2);
    assert_eq!(decoded.bit_format().unwrap(), VBanBitFormat::Int16);
    assert_eq!(decoded.stream_name_str().unwrap(), "Stream1");
}

#[test]
fn rejects_short_packet_before_magic_check() {
    let err = VBanHeader::decode(&[0u8; 10]).unwrap_err();
    assert_eq!(
        err,
        VBanPacketError::PacketTooShort { expected: VBAN_HEADER_SIZE, actual: 10 }
    );
}

#[test]
fn rejects_invalid_magic() {
    let mut bytes = [0u8; VBAN_HEADER_SIZE];
    bytes[0..4].copy_from_slice(b"XXXX");
    assert_eq!(
        VBanHeader::decode(&bytes).unwrap_err(),
        VBanPacketError::InvalidMagic
    );
}

#[test]
fn rejects_unsupported_protocol_type() {
    let bytes = encode(&header(SR_48K | 0b0100_0000, 0, 1, 0b0000_0001, "S", 0));
    let decoded = VBanHeader::decode(&bytes);
    assert!(matches!(
        decoded,
        Err(VBanPacketError::UnsupportedProtocol { protocol_type: 0b010 })
    ));
}

#[test]
fn covers_all_twenty_sample_rate_indices() {
    let expected = [
        6_000, 12_000, 24_000, 48_000, 96_000, 192_000, 384_000, 8_000, 16_000, 32_000, 64_000,
        128_000, 256_000, 11_025, 22_050, 44_100, 88_200, 176_400, 352_800, 705_600,
    ];
    for (index, hz) in expected.iter().enumerate() {
        let h = header(SR_48K, 0, 0, 0b0000_0001, "S", 0);
        let mut bytes = encode(&h);
        bytes[4] = VBanProtocol::Audio.code() << 5 | index as u8;
        let decoded = VBanHeader::decode(&bytes).unwrap();
        assert_eq!(decoded.sample_rate_hz().unwrap(), *hz);
        assert_eq!(sample_rate_to_index(*hz), Some(index as u8));
    }
}

#[test]
fn covers_all_supported_bit_depths() {
    let cases = [
        (0x01, VBanBitFormat::Int16, 2),
        (0x02, VBanBitFormat::Int24, 3),
        (0x03, VBanBitFormat::Int32, 4),
        (0x04, VBanBitFormat::Float32, 4),
    ];
    for (bit_index, bit_format, bytes_per) in cases {
        let h = header(SR_48K, 0, 1, bit_index, "S", 0);
        let decoded = VBanHeader::decode(&encode(&h)).unwrap();
        assert_eq!(decoded.bit_format().unwrap(), bit_format);
        assert_eq!(bit_format.bytes_per_sample(), bytes_per);
        assert_eq!(bit_format.index(), bit_index);
    }
}

#[test]
fn rejects_invalid_bit_format() {
    let h = header(SR_48K, 0, 1, 0b0000_0110, "S", 0);
    assert!(matches!(
        VBanHeader::decode(&encode(&h)).unwrap().bit_format(),
        Err(VBanPacketError::InvalidBitFormatIndex { index: 6 })
    ));
}

#[test]
fn rejects_reserved_sample_rate_indices_20_to_31() {
    for index in 20u8..=31 {
        let mut bytes = encode(&header(SR_48K, 0, 0, 0b0000_0001, "S", 0));
        bytes[4] = VBanProtocol::Audio.code() << 5 | index;
        let decoded = VBanHeader::decode(&bytes).unwrap();
        assert!(matches!(
            decoded.sample_rate_hz(),
            Err(VBanPacketError::InvalidSampleRateIndex { index: idx }) if idx == index
        ));
    }
}

#[test]
fn stream_name_truncates_at_first_nul() {
    let h = header(SR_48K, 0, 0, 0b0000_0001, "Stream1", 0);
    assert_eq!(h.stream_name_str().unwrap(), "Stream1");
    let bad = header(SR_48K, 0, 0, 0b0000_0001, "\u{1F600}", 0);
    assert!(matches!(
        bad.stream_name_str(),
        Err(VBanPacketError::InvalidStreamName { .. })
    ));
}

#[test]
fn stream_config_validates_name_and_sample_rate() {
    assert!(VBanStreamConfig::new(String::new(), 48_000, 2, VBanBitFormat::Int16).is_err());
    assert!(VBanStreamConfig::new("x".repeat(17), 48_000, 2, VBanBitFormat::Int16).is_err());
    assert!(VBanStreamConfig::new("OK".into(), 44_100, 2, VBanBitFormat::Float32).is_ok());
    assert!(VBanStreamConfig::new("OK".into(), 41_000, 2, VBanBitFormat::Int16).is_err());
}

#[test]
fn max_samples_per_channel_is_bounded() {
    assert_eq!(max_samples_per_channel(2, 4), Some(179));
    assert_eq!(max_samples_per_channel(2, 2), Some(256));
    assert_eq!(max_samples_per_channel(usize::MAX, 2), None);
    assert_eq!(max_samples_per_channel(0, 2), None);
}

#[test]
fn payload_length_is_total_minus_header() {
    assert_eq!(VBanHeader::payload_len(VBAN_HEADER_SIZE + 100), 100);
    assert_eq!(VBanHeader::payload_len(0), 0);
}

#[test]
fn arbitrary_header_round_trips() {
    let mut random = Random(1);
    for _ in 0..512 {
        let sample_rate_index = random.below(20) as u8;
        let nbs = random.below(256) as u8;
        let nbc = random.below(256) as u8;
        let bit_index = random.below(5) as u8;
        let frame = random.below(1 << 32) as u32 ^ (random.next() as u32) << 1;
        let mut name_bytes = [0u8; VBAN_STREAM_NAME_SIZE];
        name_bytes[..3].copy_from_slice(b"abc");
        let h = VBanHeader {
            format_sr: VBanProtocol::Audio.code() << 5 | sample_rate_index,
            format_nbs: nbs,
            format_nbc: nbc,
            format_bit: bit_index,
            stream_name: name_bytes,
            nu_frame: frame,
        };
        let mut out = [0u8; VBAN_HEADER_SIZE];
        h.encode_into(&mut out);
        let decoded = VBanHeader::decode(&out).unwrap();
        assert_eq!(&decoded, &h);
        assert_eq!(
            decoded.sample_rate_hz().unwrap(),
            SAMPLE_RATE_INDEX_TO_HZ[sample_rate_index as usize]
        );
    }
}

#[test]
fn arbitrary_truncated_packets_are_rejected() {
    let mut random = Random(2);
    for length in 0..VBAN_HEADER_SIZE {
        for _ in 0..8 {
            let packet: Vec<u8> = (0..length).map(|_| random.below(256) as u8).collect();
            assert!(matches!(
                VBanHeader::decode(&packet),
                Err(VBanPacketError::PacketTooShort { .. })
            ));
        }
    }
}

#[test]
fn arbitrary_bad_magic_is_rejected() {
    let mut random = Random(3);
    for _ in 0..512 {
        let mut packet = [0u8; VBAN_HEADER_SIZE];
        for byte in packet[..4].iter_mut() {
            *byte = random.below(256) as u8;
        }
        if packet[..4] == VBAN_MAGIC {
            assert!(VBanHeader::decode(&packet).is_ok());
        } else {
            assert_eq!(VBanHeader::decode(&packet), Err(VBanPacketError::InvalidMagic));
        }
    }
}

fn frame(samples: usize, value: f32) -> Vec<f32> {
    vec![value; samples]
}

#[test]
fn rejects_empty_samples() {
    let mut buf: VBanJitterBuffer<f32> = VBanJitterBuffer::new();
    assert_eq!(buf.push(1, &[]).unwrap_err(), VBanJitterError::EmptySamples);
}

#[test]
fn pops_frames_in_ascending_order() {
    let mut buf = VBanJitterBuffer::new();
    buf.push(1, &frame(4, 1.0)).unwrap();
    buf.push(3, &frame(4, 3.0)).unwrap();
    buf.push(2, &frame(4, 2.0)).unwrap();
    assert_eq!(buf.fill_level(), 3);
    assert_eq!(buf.pop_next().unwrap(), frame(4, 1.0));
    assert_eq!(buf.pop_next().unwrap(), frame(4, 2.0));
    assert_eq!(buf.pop_next().unwrap(), frame(4, 3.0));
    assert_eq!(buf.pop_next(), None);
}

#[test]
fn supports_variable_length_frames() {
    let mut buf = VBanJitterBuffer::new();
    buf.push(1, &frame(256, 1.0)).unwrap();
    buf.push(2, &frame(44, 2.0)).unwrap();
    buf.push(3, &frame(44, 3.0)).unwrap();
    assert_eq!(buf.frame_samples(), 256);
    assert_eq!(buf.pop_next().unwrap(), frame(256, 1.0));
    assert_eq!(buf.pop_next().unwrap(), frame(44, 2.0));
    assert_eq!(buf.pop_next().unwrap(), frame(44, 3.0));
    assert_eq!(buf.pop_next(), None);
}

#[test]
fn duplicate_frame_is_ignored() {
    let mut buf = VBanJitterBuffer::new();
    buf.push(5, &frame(2, 1.0)).unwrap();
    buf.push(5, &frame(2, 9.0)).unwrap();
    assert_eq!(buf.fill_level(), 1);
    assert_eq!(buf.pop_next().unwrap(), frame(2, 1.0));
    assert_eq!(buf.stats().received, 1);
}

#[test]
fn counts_lost_frames_on_gap() {
    let mut buf = VBanJitterBuffer::new();
    buf.push(10, &frame(2, 1.0)).unwrap();
    buf.push(14, &frame(2, 2.0)).unwrap();
    assert_eq!(buf.stats().lost, 3);
    assert_eq!(buf.stats().discontinuities, 1);
    assert_eq!(buf.pop_next().unwrap(), frame(2, 1.0));
    assert_eq!(buf.pop_next().unwrap(), frame(2, 2.0));
}

#[test]
fn counts_reordered_frames() {
    let mut buf = VBanJitterBuffer::new();
    buf.push(3, &frame(2, 1.0)).unwrap();
    buf.push(1, &frame(2, 2.0)).unwrap();
    assert!(buf.stats().reordered >= 1);
}

#[test]
fn handles_u32_frame_wraparound() {
    let mut buf = VBanJitterBuffer::new();
    let near_max = u32::MAX - 1;
    buf.push(near_max, &frame(2, 1.0)).unwrap();
    buf.push(u32::MAX, &frame(2, 2.0)).unwrap();
    buf.push(0, &frame(2, 3.0)).unwrap();
    assert_eq!(buf.pop_next().unwrap(), frame(2, 1.0));
    assert_eq!(buf.pop_next().unwrap(), frame(2, 2.0));
    assert_eq!(buf.pop_next().unwrap(), frame(2, 3.0));
    assert_eq!(buf.pop_next(), None);
}

#[test]
fn drops_frames_far_behind_emitted_pointer() {
    let mut buf = VBanJitterBuffer::new();
    buf.push(100, &frame(2, 1.0)).unwrap();
    buf.pop_next().unwrap();
    let far_old = 100u32.wrapping_sub(600);
    buf.push(far_old, &frame(2, 9.0)).unwrap();
    assert_eq!(buf.fill_level(), 0);
    assert_eq!(buf.stats().dropped_old, 1);
}

#[test]
fn keeps_new_frames_after_emission_pointer_advances() {
    let mut buf = VBanJitterBuffer::new();
    buf.push(100, &frame(2, 1.0)).unwrap();
    assert_eq!(buf.pop_next().unwrap(), frame(2, 1.0));
    buf.push(200, &frame(2, 2.0)).unwrap();
    assert_eq!(buf.fill_level(), 1);
    assert_eq!(buf.stats().dropped_old, 0);
    assert_eq!(buf.pop_next().unwrap(), frame(2, 2.0));
}

#[test]
fn reset_clears_state_and_stats() {
    let mut buf = VBanJitterBuffer::new();
    buf.push(1, &frame(2, 1.0)).unwrap();
    buf.push(5, &frame(2, 2.0)).unwrap();
    buf.reset();
    assert_eq!(buf.fill_level(), 0);
    assert_eq!(buf.frame_samples(), 0);
    assert_eq!(buf.stats().lost, 0);
    assert_eq!(buf.pop_next(), None);
}

#[test]
fn arbitrary_out_of_order_stream_keeps_bounded_and_ordered() {
    let mut random = Random(4);
    for _ in 0..64 {
        let count = 1 + random.below(199);
        let frames: Vec<u32> = (0..count).map(|_| random.below(500) as u32).collect();
        let sample_len = 1 + random.below(16) as usize;
        let mut buf = VBanJitterBuffer::new();
        let mut prev_emitted: Option<u32> = None;
        for f in &frames {
            let _ = buf.push(*f, &vec![0.5f32; sample_len]);
            if buf.fill_level() > VBAN_FRAME_WINDOW as usize {
                buf.trim_old();
            }
            if let Some(samples) = buf.pop_next() {
                assert_eq!(samples.len(), sample_len);
                assert!(samples.iter().all(|s| s.is_finite()));
                if let Some(prev) = prev_emitted {
                    assert!(frame_offset(buf.last_emitted().unwrap(), prev) > 0);
                }
                prev_emitted = buf.last_emitted();
            }
        }
        assert!(buf.stats().received <= frames.len() as u64);
        assert!(buf.fill_level() <= VBAN_FRAME_WINDOW as usize);
    }
}

#[test]
fn a_frame_behind_a_jump_is_no_jump() {
    let mut buf = VBanJitterBuffer::new();
    buf.push(0, &[0.5f32]).unwrap();
    buf.push(1000, &[0.5]).unwrap();
    assert_eq!(buf.stats().discontinuities, 1);
    assert_eq!(buf.stats().lost, 512);
    buf.push(1001, &[0.5]).unwrap();
    assert_eq!(buf.stats().discontinuities, 1);
    assert_eq!(buf.stats().lost, 512);
    assert_eq!(buf.stats().received, 3);
}

#[test]
fn the_oldest_frame_goes_first() {
    let mut buf = VBanJitterBuffer::new();
    buf.push(3, &[3.0f32]).unwrap();
    buf.push(1, &[1.0]).unwrap();
    assert_eq!(buf.pop_next(), Some(vec![1.0]));
    assert_eq!(buf.pop_next(), Some(vec![3.0]));
    assert_eq!(buf.pop_next(), None);
    let mut wrapped = VBanJitterBuffer::new();
    wrapped.push(1, &[1.0f32]).unwrap();
    wrapped.push(u32::MAX, &[0.5]).unwrap();
    assert_eq!(wrapped.pop_next(), Some(vec![0.5]));
    assert_eq!(wrapped.pop_next(), Some(vec![1.0]));
}

#[test]
fn output_advances_with_what_first_arrived() {
    let mut buf = VBanJitterBuffer::new();
    buf.push(u32::MAX, &[0.0f32]).unwrap();
    assert_eq!(buf.pop_next(), Some(vec![0.0]));
    buf.push(1, &[1.0]).unwrap();
    buf.push(1, &[9.0]).unwrap();
    buf.push(u32::MAX - 1, &[8.0]).unwrap();
    assert_eq!(buf.pop_next(), Some(vec![1.0]));
    assert_eq!(buf.last_emitted(), Some(1));
    assert_eq!(buf.fill_level(), 0);
}

#[test]
fn no_more_frames_wait_than_the_window_has() {
    let window = VBAN_FRAME_WINDOW;
    let mut buf = VBanJitterBuffer::new();
    for n in 0..window + 10 {
        buf.push(n, &[n as f32]).unwrap();
        assert!(buf.fill_level() <= window as usize);
    }
    assert_eq!(buf.fill_level(), window as usize);
    assert_eq!(buf.stats().dropped_old, 10);
    assert_eq!(buf.stats().received, u64::from(window) + 10);
    assert_eq!(buf.pop_next(), Some(vec![10.0]));
}

#[test]
fn frame_numbers_are_ordered_round_the_end() {
    assert_eq!(frame_offset(0, u32::MAX), 1);
    assert_eq!(frame_offset(u32::MAX, 0), -1);
    assert_eq!(frame_offset(7, 7), 0);
    assert!(frame_is_newer(0, u32::MAX));
    assert!(!frame_is_newer(7, 7));
}

fn quantise(sample: f32, format: VBanBitFormat) -> u32 {
    let clamped = sample.clamp(-1.0, 1.0);
    match format {
        VBanBitFormat::Int16 => ((clamped * 32767.0) as i16) as u16 as u32,
        VBanBitFormat::Int24 => ((clamped * 8_388_607.0) as i32) as u32,
        VBanBitFormat::Int32 => ((clamped * 2_147_483_647.0) as i32) as u32,
        VBanBitFormat::Float32 => sample.to_bits(),
    }
}

fn dequantise(number: u32, format: VBanBitFormat) -> f32 {
    match format {
        VBanBitFormat::Int16 => signed_sample(format, number) as f32 / 32767.0,
        VBanBitFormat::Int24 => signed_sample(format, number) as f32 / 8_388_607.0,
        VBanBitFormat::Int32 => signed_sample(format, number) as f32 / 2_147_483_647.0,
        VBanBitFormat::Float32 => f32::from_bits(number),
    }
}

fn round_trip(bit_format: VBanBitFormat, channels: usize, sample_rate: u32, frames: usize) {
    let frame_samples = frames * channels;
    let mut receiver = VBanReceiver::new();
    let samples: Vec<f32> = (0..frame_samples)
        .map(|i| (i as f32 / frame_samples as f32) * 0.8 - 0.4)
        .collect();
    let mut sender = VBanSender::new();
    let packets = sender
        .frame_packets("Test", sample_rate, channels, bit_format, &samples, &quantise)
        .unwrap();
    sender.mark_sent("Test", packets.len());
    assert!(!packets.is_empty());
    for packet in &packets {
        receiver.accept_packet(packet, &dequantise);
    }
    assert_eq!(receiver.stats().received, packets.len() as u64);
    let mut out: Vec<f32> = Vec::new();
    while let Some(frame) = receiver.pop_next() {
        out.extend_from_slice(&frame);
    }
    assert_eq!(out.len(), samples.len());
    match bit_format {
        VBanBitFormat::Float32 => {
            assert!(out.iter().zip(&samples).all(|(a, b)| (a - b).abs() < 1e-6));
        }
        _ => {
            let tolerance = 2.0 / (1u64 << (bit_format.bytes_per_sample() * 8 - 1)) as f64;
            assert!(out
                .iter()
                .zip(&samples)
                .all(|(a, b)| (a - b).abs() < tolerance as f32));
        }
    }
}

#[test]
fn round_trip_float32_stereo_48k() {
    round_trip(VBanBitFormat::Float32, 2, 48_000, 128);
}

#[test]
fn round_trip_int16_stereo_48k() {
    round_trip(VBanBitFormat::Int16, 2, 48_000, 128);
}

#[test]
fn round_trip_int24_stereo_48k() {
    round_trip(VBanBitFormat::Int24, 2, 48_000, 128);
}

#[test]
fn rejects_invalid_magic_counts_stat() {
    let mut receiver: VBanReceiver<f32> = VBanReceiver::new();
    let garbage = [0x58u8; 64];
    receiver.accept_packet(&garbage, &dequantise);
    assert!(receiver.stats().bad_magic >= 1);
    assert_eq!(receiver.stats().received, 0);
    receiver.accept_packet(&[0x56, 0x42], &dequantise);
    assert_eq!(receiver.stats().packet_too_short, 1);
}

#[test]
fn round_trip_float32_random_dims() {
    for channels in 1usize..=4 {
        for frames in 1usize..=64 {
            let frame_samples = frames * channels;
            let mut receiver = VBanReceiver::new();
            let samples: Vec<f32> = (0..frame_samples)
                .map(|i| ((i % 97) as f32 / 97.0) - 0.5)
                .collect();
            let sender = VBanSender::new();
            let packets = sender
                .frame_packets("T", 48_000, channels, VBanBitFormat::Float32, &samples, &quantise)
                .unwrap();
            for packet in &packets {
                receiver.accept_packet(packet, &dequantise);
            }
            let mut out = Vec::new();
            while let Some(frame) = receiver.pop_next() {
                out.extend_from_slice(&frame);
            }
            assert_eq!(out.len(), samples.len());
            assert!(out.iter().zip(&samples).all(|(a, b)| (a - b).abs() < 1e-5));
        }
    }
}

#[test]
fn rejects_invalid_inputs() {
    let sender = VBanSender::new();
    assert_eq!(
        sender.frame_packets("S", 48_000, 2, VBanBitFormat::Int16, &[0.0, 0.0, 0.0], &quantise),
        Err(VBanSendError::InvalidSampleCount(3))
    );
    assert!(matches!(
        sender.frame_packets("", 48_000, 2, VBanBitFormat::Int16, &[0.0, 0.0], &quantise),
        Err(VBanSendError::InvalidStreamName(_))
    ));
    assert_eq!(
        sender.frame_packets("S", 48_000, 0, VBanBitFormat::Int16, &[0.0], &quantise),
        Err(VBanSendError::ZeroChannels)
    );
    assert_eq!(
        sender.frame_packets("S", 12345, 2, VBanBitFormat::Int16, &[0.0, 0.0], &quantise),
        Err(VBanSendError::UnsupportedSampleRate(12345))
    );
}

#[test]
fn rejects_excessive_channels_without_looping() {
    let sender = VBanSender::new();
    let samples = vec![0.0f32; 500];
    let result =
        sender.frame_packets("S", 48_000, 500, VBanBitFormat::Float32, &samples, &quantise);
    assert!(matches!(result, Err(VBanSendError::InvalidPacketCapacity)));
    let wide = |channels: usize| {
        let samples = vec![0.0; channels];
        sender.frame_packets("S", 48_000, channels, VBanBitFormat::Int16, &samples, &quantise)
    };
    assert_eq!(wide(256).unwrap()[0][6], 255);
    assert_eq!(wide(257), Err(VBanSendError::InvalidPacketCapacity));
}

#[test]
fn splits_large_frame_and_increments_frame_number() {
    let mut sender = VBanSender::new();
    let samples = vec![0.25f32; 300 * 2];
    let packets = sender
        .frame_packets("Split", 48_000, 2, VBanBitFormat::Int16, &samples, &quantise)
        .unwrap();
    assert_eq!(packets.len(), 2);
    sender.mark_sent("Split", packets.len());
    for packet in &packets {
        assert_eq!(&packet[0..4], &VBAN_MAGIC);
        assert!(packet.len() >= VBAN_HEADER_SIZE);
    }
    let h0 = VBanHeader::decode(&packets[0]).unwrap();
    let h1 = VBanHeader::decode(&packets[1]).unwrap();
    assert_eq!(h0.nu_frame.wrapping_add(1), h1.nu_frame);
    assert_eq!(h0.samples_per_channel(), 256);
    assert_eq!(h1.samples_per_channel(), 44);

    let next = sender
        .frame_packets("Split", 48_000, 2, VBanBitFormat::Int16, &samples, &quantise)
        .unwrap();
    assert_eq!(VBanHeader::decode(&next[0]).unwrap().nu_frame, h1.nu_frame.wrapping_add(1));
    let other = sender
        .frame_packets("Other", 48_000, 2, VBanBitFormat::Int16, &samples, &quantise)
        .unwrap();
    assert_eq!(VBanHeader::decode(&other[0]).unwrap().nu_frame, h0.nu_frame);
}

#[test]
fn a_packet_of_another_length_is_an_error() {
    let sender = VBanSender::new();
    let packets = sender
        .frame_packets("S", 48_000, 2, VBanBitFormat::Int16, &[0.5f32; 8], &quantise)
        .unwrap();
    let mut packet = packets[0].clone();
    assert_eq!(parse_packet(&packet).unwrap().numbers.len(), 8);
    packet.pop();
    assert!(matches!(
        parse_packet(&packet),
        Err(VBanReceiveError::InvalidLength { expected: 16, actual: 15 })
    ));
}

const CHANNELS: usize = 2;
const FRAMES: usize = 64;
const BLOCK_SAMPLES: usize = FRAMES * CHANNELS;

fn dequantise_bits(number: u32, format: VBanBitFormat) -> u32 {
    dequantise(number, format).to_bits()
}

fn quantise_bits(sample: u32, format: VBanBitFormat) -> u32 {
    quantise(f32::from_bits(sample), format)
}

fn fifo(frames: usize) -> (AudioFifoProducer, AudioFifoConsumer) {
    AudioFifo::split(frames, CHANNELS).ok().unwrap()
}

#[test]
fn bridge_relays_audio_between_network_and_fifo() {
    let (source_producer, mut source_consumer) = fifo(FRAMES * 8);
    let (mut sink_producer, mut sink_consumer) = fifo(FRAMES * 8);
    let mut streams = vec![VbanStream::new(VbanSourceBridge {
        producer: source_producer,
        stream_name: "In".to_owned(),
    })];
    let (other_producer, mut other_consumer) = fifo(FRAMES * 8);
    streams.push(VbanStream::new(VbanSourceBridge {
        producer: other_producer,
        stream_name: "Aux".to_owned(),
    }));

    let test_samples: Vec<f32> = (0..BLOCK_SAMPLES)
        .map(|i| ((i % 17) as f32 / 17.0) - 0.5)
        .collect();
    let sender = VBanSender::new();
    for packet in sender
        .frame_packets("In", 48_000, CHANNELS, VBanBitFormat::Float32, &test_samples, &quantise)
        .unwrap()
    {
        assert_eq!(accept_packet(&mut streams, &packet, &dequantise_bits), Some(0));
    }
    for packet in sender
        .frame_packets("Else", 48_000, CHANNELS, VBanBitFormat::Float32, &test_samples, &quantise)
        .unwrap()
    {
        assert_eq!(accept_packet(&mut streams, &packet, &dequantise_bits), None);
    }
    streams[0].drain(BLOCK_SAMPLES);
    streams[1].drain(BLOCK_SAMPLES);
    let mut received = vec![0u32; BLOCK_SAMPLES];
    assert_eq!(other_consumer.pop_interleaved(&mut received).unwrap().frames(), 0);
    assert_eq!(source_consumer.pop_interleaved(&mut received).unwrap().frames(), FRAMES);
    assert!(received
        .iter()
        .zip(&test_samples)
        .all(|(a, b)| (f32::from_bits(*a) - b).abs() < 1e-5));

    let outbound: Vec<u32> = test_samples.iter().map(|sample| sample.to_bits()).collect();
    sink_producer.push_interleaved(&outbound).unwrap();
    let mut block = vec![0u32; BLOCK_SAMPLES];
    assert_eq!(sink_consumer.pop_interleaved(&mut block).unwrap().frames(), FRAMES);
    let mut back_receiver = VBanReceiver::new();
    for packet in sender
        .frame_packets("Out", 48_000, CHANNELS, VBanBitFormat::Float32, &block, &quantise_bits)
        .unwrap()
    {
        back_receiver.accept_packet(&packet, &dequantise);
    }
    let mut echoed: Vec<f32> = Vec::new();
    while let Some(frame) = back_receiver.pop_next() {
        echoed.extend_from_slice(&frame);
    }
    assert_eq!(echoed, test_samples);
}

#[test]
fn the_last_queue_of_a_name_is_filled() {
    let bridge = |name: &str, producer: AudioFifoProducer| VbanSourceBridge {
        producer,
        stream_name: name.to_owned(),
    };
    let (first, mut first_consumer) = fifo(FRAMES * 2);
    let (second, mut second_consumer) = fifo(FRAMES * 2);
    let mut streams = open_streams(vec![bridge("In", first), bridge("In", second)]);
    assert_eq!(streams.len(), 1);
    assert_eq!(streams[0].name(), "In");
    let samples = vec![0.25f32; BLOCK_SAMPLES];
    let packets = VBanSender::new()
        .frame_packets("Else", 48_000, CHANNELS, VBanBitFormat::Float32, &samples, &quantise)
        .unwrap();
    for packet in packets {
        assert_eq!(accept_packet(&mut streams, &packet, &dequantise_bits), Some(0));
    }
    streams[0].drain(BLOCK_SAMPLES);
    let mut received = vec![0u32; BLOCK_SAMPLES];
    assert_eq!(first_consumer.pop_interleaved(&mut received).unwrap().frames(), 0);
    assert!(second_consumer.pop_interleaved(&mut received).unwrap().frames() > 0);
    assert_eq!(f32::from_bits(received[0]), 0.25);
    let (third, _) = fifo(FRAMES);
    let (fourth, _) = fifo(FRAMES);
    assert_eq!(open_streams(vec![bridge("A", third), bridge("B", fourth)]).len(), 2);
}

#[test]
fn from_handles_builds_bridge_from_graph() {
    let graph = RouteGraph {
        sources: vec![SourceSpec {
            id: SourceId("net-in".into()),
            kind: SourceKind::Vban,
            endpoint_id: None,
            process_id: None,
            executable_path: None,
            stream_name: Some("In".into()),
            display_name: "网络输入".into(),
        }],
        buses: vec![BusSpec { id: BusId("mix".into()), display_name: "Mix".into() }],
        sinks: vec![SinkSpec {
            id: SinkId("net-out".into()),
            endpoint_id: EndpointId("vban".into()),
            display_name: "网络输出".into(),
            kind: SinkKind::Vban,
            stream_name: Some("Out".into()),
            remote_addr: Some("127.0.0.1:6999".into()),
        }],
        sends: vec![
            SendSpec::SourceToBus {
                id: SendId("s1".into()),
                source_id: SourceId("net-in".into()),
                bus_id: BusId("mix".into()),
                gain_db: Decibels { bits: 0 },
                muted: false,
                enabled: true,
                channel_map: Vec::new(),
            },
            SendSpec::BusToSink {
                id: SendId("s2".into()),
                bus_id: BusId("mix".into()),
                sink_id: SinkId("net-out".into()),
                gain_db: Decibels { bits: 0 },
                muted: false,
                enabled: true,
                channel_map: Vec::new(),
            },
        ],
    };
    graph.validate().unwrap();

    let (source_producer, _source_consumer) = fifo(480 * 8);
    let (_sink_producer, sink_consumer) = fifo(480 * 8);
    let handles = NetworkIoHandles {
        vban_source_producers: vec![(SourceId("net-in".into()), source_producer)],
        vban_sink_consumers: vec![(SinkId("net-out".into()), sink_consumer)],
    };
    let sources = source_bridges(&graph, handles.vban_source_producers);
    let sinks = sink_bridges(&graph, handles.vban_sink_consumers);
    assert_eq!(sources.len(), 1);
    assert_eq!(sources[0].stream_name, "In");
    assert_eq!(sinks.len(), 1);
    assert_eq!(sinks[0].stream_name, "Out");
    assert_eq!(sinks[0].target, "127.0.0.1:6999");
    assert_eq!(sinks[0].sample_rate, 48_000);
    assert_eq!(sinks[0].block_frames, 480);
    assert!(check_bridge(sources.len(), sinks.len()).is_ok());
    assert!(matches!(check_bridge(0, 0), Err(NetworkBridgeError::NoSources)));
}

#[test]
fn a_payload_holds_every_byte_of_its_samples() {
    assert_eq!(payload_bytes(VBanBitFormat::Int16, 64), 128);
    assert_eq!(payload_bytes(VBanBitFormat::Int24, 64), 192);
    assert_eq!(payload_bytes(VBanBitFormat::Float32, 64), 256);
}
