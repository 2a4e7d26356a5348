//! Where everything stands in a packet, and what becomes of the packets of a stream.

use crate::fifo::{AudioFifoConsumer, AudioFifoProducer};
use crate::routing::laws::law_first_of_an_identifier_is_found;
use crate::routing::{GraphModel, SinkId, SinkKind, SourceId, SourceKind};
use crate::runtime::capture::block_written;
use crate::vban::bridge::{
    after_order, as_block, block_taken, bridged_sinks, bridged_sources, drained, has_target,
    is_order, is_target, named_frame, SinkBridgeModel, SourceBridgeModel, VbanStream,
};
use crate::vban::jitter::{frame_distance, JitterModel};
use crate::vban::packet::{
    header_bytes, packet_samples, sample_bytes, stream_fault, trimmed_name,
    VBanBitFormat, SAMPLE_RATE_INDEX_TO_HZ,
};
use crate::vban::receive::{counted_packet, parsed_packet, FrameModel, ReceiveFault, VBanReceiveStats};
use crate::vban::wire::{
    signed_value, wire_sample, wire_samples, wrapped, BlockSettings,
};
use vstd::prelude::*;
use vstd::utf8::encode_utf8;

verus! {

/// The bytes of a sample by its format: two, three or four.
pub open spec fn width(format: VBanBitFormat) -> int {
    match format {
        VBanBitFormat::Int16 => 2,
        VBanBitFormat::Int24 => 3,
        VBanBitFormat::Int32 => 4,
        VBanBitFormat::Float32 => 4,
    }
}

/// A number whose formats are told apart by in a header.
pub open spec fn number_of(format: VBanBitFormat) -> int {
    match format {
        VBanBitFormat::Int16 => 1,
        VBanBitFormat::Int24 => 2,
        VBanBitFormat::Int32 => 3,
        VBanBitFormat::Float32 => 4,
    }
}

/// The number that `bytes` bytes from a place on make, the least significant first.
pub open spec fn number_at(packet: Seq<u8>, at: int, bytes: int) -> int
    decreases bytes,
{
    if bytes <= 0 {
        0
    } else {
        packet[at] + 256 * number_at(packet, at + 1, bytes - 1)
    }
}

/// Sample rates double along three rows: from 6000 Hz, from 8000 Hz and from 11025 Hz.
pub proof fn law_sample_rates_double(i: int)
    ensures
        SAMPLE_RATE_INDEX_TO_HZ@[0] == 6_000,
        SAMPLE_RATE_INDEX_TO_HZ@[7] == 8_000,
        SAMPLE_RATE_INDEX_TO_HZ@[13] == 11_025,
        0 < i < 20 && i != 7 && i != 13 ==> SAMPLE_RATE_INDEX_TO_HZ@[i] == 2
            * SAMPLE_RATE_INDEX_TO_HZ@[i - 1],
{
}

/// As many frames go into a packet as its 1436 bytes hold, and no more than 256.
pub proof fn law_packets_are_as_full_as_they_can_be(channels: nat, bytes: nat)
    requires
        channels * bytes <= usize::MAX,
    ensures
        match packet_samples(channels, bytes) {
            Some(frames) => {
                &&& channels * bytes > 0
                &&& frames * (channels * bytes) <= 1436
                &&& frames <= 256
                &&& frames == 256 || (frames + 1) * (channels * bytes) > 1436
            },
            None => channels * bytes == 0,
        },
{
    let frame = (channels * bytes) as int;
    if frame > 0 {
        let q = 1436int / frame;
        vstd::arithmetic::div_mod::lemma_fundamental_div_mod(1436, frame);
        assert(q * frame <= 1436 && (q + 1) * frame > 1436 && 0 <= q <= 1436) by (nonlinear_arith)
            requires
                1436 == frame * q + 1436int % frame,
                0 <= 1436int % frame < frame,
                frame > 0,
        ;
        if q > 256 {
            assert(256 * frame <= q * frame) by (nonlinear_arith)
                requires
                    q > 256,
                    frame > 0,
            ;
        }
    }
}

proof fn lemma_number_of_sample(packet: Seq<u8>, at: int, format: VBanBitFormat, number: u32)
    requires
        0 <= at,
        at + width(format) <= packet.len(),
        packet.subrange(at, at + width(format)) == wire_sample(format, number),
    ensures
        number_at(packet, at, width(format)) == match format {
            VBanBitFormat::Int16 => number as int % 0x1_0000,
            VBanBitFormat::Int24 => number as int % 0x100_0000,
            _ => number as int,
        },
{
    reveal_with_fuel(number_at, 5);
    let part = packet.subrange(at, at + width(format));
    let sent = wire_sample(format, number);
    assert(part[0] == packet[at] && part[1] == packet[at + 1]);
    assert(sent[0] == part[0] && sent[1] == part[1]);
    if width(format) > 2 {
        assert(part[2] == packet[at + 2] && sent[2] == part[2]);
    }
    if width(format) > 3 {
        assert(part[3] == packet[at + 3] && sent[3] == part[3]);
    }
    let n = number as int;
    assert(n == n % 0x100 + 0x100 * (n / 0x100));
    assert(n / 0x100 == (n / 0x100) % 0x100 + 0x100 * (n / 0x1_0000));
    assert(n / 0x1_0000 == (n / 0x1_0000) % 0x100 + 0x100 * (n / 0x100_0000));
}

/// A packet holds the letters VBAN, the sample rate, the frames and the channels less one each,
/// the sample format, the name filled up with zeros, the frame counter, and behind these 28
/// bytes the samples of its frames, all numbers with the least significant byte first. It is
/// never longer than 1464 bytes.
pub proof fn law_packet_layout(
    settings: BlockSettings,
    numbers: Seq<u32>,
    i: int,
    first: u32,
    k: int,
)
    requires
        settings.fault(numbers.len()) is None,
        0 <= i < settings.packet_count((numbers.len() as int / settings.channels as int) as nat),
    ensures
        ({
            let packet = settings.packet(numbers, i, first);
            let frames = settings.frames_of(
                (numbers.len() as int / settings.channels as int) as nat,
                i,
            );
            let name = encode_utf8(settings.stream_name);
            let wide = width(settings.bit_format);
            let from = i * settings.packet_frames() * settings.channels;
            &&& packet.len() == 28 + frames * settings.channels * wide
            &&& packet.len() <= 1464
            &&& packet[0] == 0x56 && packet[1] == 0x42 && packet[2] == 0x41 && packet[3] == 0x4e
            &&& packet[4] < 20 && SAMPLE_RATE_INDEX_TO_HZ@[packet[4] as int]
                == settings.sample_rate
            &&& packet[5] == frames - 1
            &&& packet[6] == settings.channels - 1
            &&& packet[7] == number_of(settings.bit_format)
            &&& 0 <= k < 16 ==> packet[8 + k] == if k < name.len() {
                name[k]
            } else {
                0
            }
            &&& number_at(packet, 24, 4) == (first + i) % 0x1_0000_0000
            &&& 0 <= k < frames * settings.channels ==> number_at(packet, 28 + k * wide, wide)
                == match settings.bit_format {
                VBanBitFormat::Int16 => numbers[from + k] as int % 0x1_0000,
                VBanBitFormat::Int24 => numbers[from + k] as int % 0x100_0000,
                _ => numbers[from + k] as int,
            }
        }),
{
    let packet = settings.packet(numbers, i, first);
    let total = (numbers.len() as int / settings.channels as int) as nat;
    let frames = settings.frames_of(total, i);
    let wide = width(settings.bit_format);
    let from = i * settings.packet_frames() * settings.channels;
    let ch = settings.channels as int;
    crate::vban::wire::lemma_packet_bounds(settings, numbers.len(), i);
    crate::vban::wire::lemma_known_rate(settings);
    let part = numbers.subrange(from, from + frames * ch);
    let payload = wire_samples(settings.bit_format, part);
    crate::vban::wire::lemma_wire_samples_len(settings.bit_format, part);
    let header = settings.header(frames, wrapped(first + i));
    assert(packet == header_bytes(header) + payload);
    assert(header_bytes(header).len() == 28);
    assert(sample_bytes(settings.bit_format) == wide);
    law_packets_are_as_full_as_they_can_be(settings.channels, sample_bytes(settings.bit_format));
    assert((i + 1) * settings.packet_frames() == i * settings.packet_frames()
        + settings.packet_frames()) by (nonlinear_arith);
    assert(frames * ch * wide <= 1436) by (nonlinear_arith)
        requires
            0 <= frames <= settings.packet_frames(),
            settings.packet_frames() * (settings.channels * sample_bytes(settings.bit_format))
                <= 1436,
            sample_bytes(settings.bit_format) == wide,
            ch == settings.channels,
    ;
    let n = wrapped(first + i) as int;
    reveal_with_fuel(number_at, 5);
    assert(n == n % 0x100 + 0x100 * (n / 0x100));
    assert(n / 0x100 == (n / 0x100) % 0x100 + 0x100 * (n / 0x1_0000));
    assert(n / 0x1_0000 == (n / 0x1_0000) % 0x100 + 0x100 * (n / 0x100_0000));
    assert(number_at(packet, 24, 4) == n);
    if 0 <= k < frames * ch {
        crate::vban::wire::lemma_wire_samples_at(settings.bit_format, part, k);
        let at = k * wide;
        assert(packet.subrange(28 + at, 28 + at + wide) =~= payload.subrange(at, at + wide));
        lemma_number_of_sample(packet, 28 + at, settings.bit_format, part[k]);
    }
}

/// The packets of a block carry all of its frames, each once and in order: every packet starts
/// where the one before ended, none is empty, and the last one ends with the block.
pub proof fn law_packets_cover_the_block(settings: BlockSettings, samples: nat, i: int)
    requires
        settings.fault(samples) is None,
        0 <= i < settings.packet_count((samples as int / settings.channels as int) as nat),
    ensures
        ({
            let frames = (samples as int / settings.channels as int) as nat;
            let packets = settings.packet_count(frames);
            let full = settings.packet_frames();
            &&& 0 < settings.frames_of(frames, i) <= full
            &&& i + 1 < packets ==> settings.frames_of(frames, i) == full
            &&& i + 1 == packets ==> i * full + settings.frames_of(frames, i) == frames
        }),
{
    let frames = (samples as int / settings.channels as int) as nat;
    let packets = settings.packet_count(frames) as int;
    let full = settings.packet_frames() as int;
    crate::vban::wire::lemma_packet_bounds(settings, samples, i);
    vstd::arithmetic::div_mod::lemma_fundamental_div_mod(samples as int, settings.channels as int);
    assert(frames > 0) by (nonlinear_arith)
        requires
            samples == settings.channels * frames + samples as int % settings.channels as int,
            samples as int % settings.channels as int == 0,
            samples > 0,
    ;
    crate::vban::wire::lemma_packet_count(settings, frames);
    assert((i + 1) * full == i * full + full) by (nonlinear_arith);
    if i + 1 < packets {
        assert((i + 1) * full <= (packets - 1) * full) by (nonlinear_arith)
            requires
                i + 1 <= packets - 1,
                full > 0,
        ;
    }
}

/// A block is sent exactly where it has channels, 256 at most, whole frames and at least one, a
/// name of one to sixteen bytes, a sample rate that a header can name, and frames that fit a
/// packet.
pub proof fn law_blocks_that_can_be_sent(settings: BlockSettings, samples: nat)
    requires
        settings.channels * width(settings.bit_format) <= usize::MAX,
    ensures
        settings.fault(samples) is None <==> {
            &&& 0 < settings.channels <= 256
            &&& samples > 0
            &&& samples as int % settings.channels as int == 0
            &&& 1 <= encode_utf8(settings.stream_name).len() <= 16
            &&& exists|i: int|
                0 <= i < 20 && #[trigger] SAMPLE_RATE_INDEX_TO_HZ@[i] == settings.sample_rate
            &&& settings.channels * width(settings.bit_format) <= 1436
        },
{
    let frame = (settings.channels * width(settings.bit_format)) as int;
    assert(sample_bytes(settings.bit_format) == width(settings.bit_format));
    law_packets_are_as_full_as_they_can_be(settings.channels, sample_bytes(settings.bit_format));
    if settings.channels > 0 {
        assert(frame > 0) by (nonlinear_arith)
            requires
                settings.channels > 0,
                frame == settings.channels * width(settings.bit_format),
                width(settings.bit_format) > 0,
        ;
        let frames = settings.packet_frames() as int;
        if frame <= 1436 {
            if frames == 0 {
                assert((frames + 1) * frame == frame) by (nonlinear_arith)
                    requires
                        frames == 0,
                ;
            }
        } else {
            assert(frames == 0) by (nonlinear_arith)
                requires
                    frames * frame <= 1436,
                    frame > 1436,
                    frames >= 0,
            ;
        }
    }
}

/// What is read from a packet stands where it was written: the packet has to start with the
/// letters VBAN, be one of audio, name a sample format, and hold as many samples as it says.
pub proof fn law_packet_is_read_by_its_layout(packet: Seq<u8>, format: VBanBitFormat, k: int)
    requires
        packet.len() >= 28,
        packet[7] % 8 == number_of(format),
    ensures
        ({
            let samples = (packet[5] + 1) * (packet[6] + 1);
            let sound = packet[0] == 0x56 && packet[1] == 0x42 && packet[2] == 0x41 && packet[3]
                == 0x4e && packet[4] < 32 && packet.len() >= 28 + samples * width(format);
            &&& parsed_packet(packet) is Ok <==> sound
            &&& parsed_packet(packet) matches Ok(frame) ==> {
                &&& frame.nu_frame == number_at(packet, 24, 4)
                &&& frame.bit_format == format
                &&& frame.numbers.len() == samples
                &&& 0 <= k < samples ==> frame.numbers[k] == number_at(
                    packet,
                    28 + k * width(format),
                    width(format),
                )
            }
        }),
{
    let samples = (packet[5] + 1) * (packet[6] + 1);
    assert(packet.take(4) == seq![0x56u8, 0x42u8, 0x41u8, 0x4eu8] <==> packet[0] == 0x56
        && packet[1] == 0x42 && packet[2] == 0x41 && packet[3] == 0x4e) by {
        let four = packet.take(4);
        if packet[0] == 0x56 && packet[1] == 0x42 && packet[2] == 0x41 && packet[3] == 0x4e {
            assert(four =~= seq![0x56u8, 0x42u8, 0x41u8, 0x4eu8]);
        }
        if four == seq![0x56u8, 0x42u8, 0x41u8, 0x4eu8] {
            assert(four[0] == 0x56 && four[1] == 0x42 && four[2] == 0x41 && four[3] == 0x4e);
        }
    }
    assert(samples > 0) by (nonlinear_arith)
        requires
            samples == (packet[5] + 1) * (packet[6] + 1),
    ;
    assert(sample_bytes(format) == width(format));
    reveal_with_fuel(number_at, 5);
    let tail = packet.subrange(24, 28);
    assert(tail[0] == packet[24] && tail[1] == packet[25] && tail[2] == packet[26] && tail[3]
        == packet[27]);
    if parsed_packet(packet) is Ok && 0 <= k < samples {
        let w = width(format);
        let payload = packet.skip(28);
        assert(0 <= k * w && k * w + w <= samples * w) by (nonlinear_arith)
            requires
                0 <= k < samples,
                w > 0,
        ;
        let part = payload.subrange(k * w, k * w + w);
        let at = 28 + k * w;
        assert(part[0] == packet[at] && part[1] == packet[at + 1]);
        if w > 2 {
            assert(part[2] == packet[at + 2]);
        }
        if w > 3 {
            assert(part[3] == packet[at + 3]);
        }
    }
}

/// The number of an integer format is a signed one: what lies in the upper half of its range is
/// negative.
pub proof fn law_integers_are_signed(format: VBanBitFormat, number: u32, value: int)
    requires
        format != VBanBitFormat::Float32,
        ({
            let range = match format {
                VBanBitFormat::Int16 => 0x1_0000int,
                VBanBitFormat::Int24 => 0x100_0000int,
                _ => 0x1_0000_0000int,
            };
            -range <= 2 * value < range && value % range == number
        }),
    ensures
        signed_value(format, number) == value,
{
}

/// Every packet counts once: as received where it can be read, else by what is wrong with it.
pub proof fn law_every_packet_counts_once(
    stats: VBanReceiveStats,
    parsed: Result<FrameModel, ReceiveFault>,
)
    requires
        stats.received < u64::MAX,
        stats.bad_magic < u64::MAX,
        stats.packet_too_short < u64::MAX,
        stats.parse_error < u64::MAX,
    ensures
        ({
            let after = counted_packet(stats, parsed);
            &&& after.received + after.bad_magic + after.packet_too_short + after.parse_error
                == stats.received + stats.bad_magic + stats.packet_too_short + stats.parse_error + 1
            &&& after.received == stats.received + (if parsed is Ok {
                1int
            } else {
                0
            })
            &&& after.bad_magic >= stats.bad_magic
            &&& after.packet_too_short >= stats.packet_too_short
            &&& after.parse_error >= stats.parse_error
            &&& after.frames_out == stats.frames_out
        }),
{
}

/// A packet too short for a header, and one without the letters VBAN, count as such.
pub proof fn law_broken_packets_count_by_their_fault(stats: VBanReceiveStats, packet: Seq<u8>)
    requires
        stats.bad_magic < u64::MAX,
        stats.packet_too_short < u64::MAX,
    ensures
        packet.len() < 28 ==> counted_packet(stats, parsed_packet(packet)).packet_too_short
            == stats.packet_too_short + 1,
        packet.len() >= 28 && packet[0] != 0x56 ==> counted_packet(
            stats,
            parsed_packet(packet),
        ).bad_magic == stats.bad_magic + 1,
{
    if packet.len() >= 28 && packet[0] != 0x56 {
        assert(packet.take(4)[0] != 0x56);
    }
}

/// The name of a stream ends before the first zero.
pub proof fn law_name_ends_at_the_first_zero(name: Seq<u8>, n: int)
    requires
        0 <= n <= name.len(),
        forall|i: int| 0 <= i < n ==> #[trigger] name[i] != 0,
        n < name.len() ==> name[n] == 0,
    ensures
        trimmed_name(name) == name.take(n),
{
    crate::vban::packet::lemma_trimmed_name(name, n);
}

/// A stream can be set up exactly where its name has one to sixteen printable bytes, it has
/// channels, and a header can name its sample rate.
pub proof fn law_streams_that_can_be_set_up(name: Seq<char>, sample_rate: u32, channels: u16)
    ensures
        stream_fault(name, sample_rate, channels) is None <==> {
            let bytes = encode_utf8(name);
            &&& 1 <= bytes.len() <= 16
            &&& forall|i: int| 0 <= i < bytes.len() ==> 32 <= #[trigger] bytes[i] <= 126
            &&& channels > 0
            &&& exists|i: int| 0 <= i < 20 && #[trigger] SAMPLE_RATE_INDEX_TO_HZ@[i] == sample_rate
        },
{
}

/// A frame of a stream that is not as long as a block is cut, or followed by silence.
pub proof fn law_frame_fills_the_block(frame: Seq<u32>, samples: nat)
    ensures
        as_block(frame, samples).len() == samples,
        frame.len() >= samples ==> as_block(frame, samples) == frame.take(samples as int),
        frame.len() < samples ==> as_block(frame, samples).take(frame.len() as int) == frame
            && forall|i: int|
            frame.len() <= i < samples ==> #[trigger] as_block(frame, samples)[i] == 0,
{
    if frame.len() >= samples {
        assert(as_block(frame, samples) =~= frame.take(samples as int));
    } else {
        assert(as_block(frame, samples).take(frame.len() as int) =~= frame);
    }
}

/// A queue of a network source is bridged under the name of the source's stream; queues of
/// other sources are not.
pub proof fn law_network_sources_are_bridged(
    graph: GraphModel,
    handles: Seq<(SourceId, AudioFifoProducer)>,
    id: SourceId,
    producer: AudioFifoProducer,
    k: int,
)
    requires
        0 <= k < graph.sources.len(),
        graph.sources[k].id == id@,
        forall|i: int|
            0 <= i < graph.sources.len() && i != k ==> (#[trigger] graph.sources[i]).id != id@,
    ensures
        bridged_sources(graph, handles.push((id, producer))) == if graph.sources[k].kind
            == SourceKind::Vban {
            bridged_sources(graph, handles).push(
                SourceBridgeModel {
                    producer,
                    stream_name: match graph.sources[k].stream_name {
                        Some(name) => name,
                        None => Seq::empty(),
                    },
                },
            )
        } else {
            bridged_sources(graph, handles)
        },
        bridged_sources(graph, Seq::empty()) == Seq::<SourceBridgeModel>::empty(),
{
    law_first_of_an_identifier_is_found(graph, id@, k);
    assert(crate::routing::source_index(graph.sources, id@) == k);
    assert(handles.push((id, producer)).drop_last() =~= handles);
    assert(graph.has_source(id@));
}

/// A queue of a network sink with an address is bridged to that address under the name of the
/// sink's stream; queues of other sinks are not.
pub proof fn law_network_sinks_are_bridged(
    graph: GraphModel,
    handles: Seq<(SinkId, AudioFifoConsumer)>,
    id: SinkId,
    consumer: AudioFifoConsumer,
    k: int,
)
    requires
        0 <= k < graph.sinks.len(),
        graph.sinks[k].id == id@,
        forall|i: int| 0 <= i < graph.sinks.len() && i != k ==> (#[trigger] graph.sinks[i]).id != id@,
    ensures
        bridged_sinks(graph, handles.push((id, consumer))) == match graph.sinks[k].remote_addr {
            Some(target) => if graph.sinks[k].kind == SinkKind::Vban {
                bridged_sinks(graph, handles).push(
                    SinkBridgeModel {
                        consumer,
                        stream_name: match graph.sinks[k].stream_name {
                            Some(name) => name,
                            None => Seq::empty(),
                        },
                        target,
                    },
                )
            } else {
                bridged_sinks(graph, handles)
            },
            None => bridged_sinks(graph, handles),
        },
        bridged_sinks(graph, Seq::empty()) == Seq::<SinkBridgeModel>::empty(),
{
    law_first_of_an_identifier_is_found(graph, id@, k);
    assert(crate::routing::sink_index(graph.sinks, id@) == k);
    assert(handles.push((id, consumer)).drop_last() =~= handles);
    assert(graph.has_sink(id@));
}

/// A packet that names a stream is taken for that stream, with the frame that it carries.
pub proof fn law_packet_is_known_by_its_name(packet: Seq<u8>, n: int)
    requires
        packet.len() >= 28,
        parsed_packet(packet) is Ok,
        0 <= n <= 16,
        forall|i: int| 0 <= i < n ==> 32 <= #[trigger] packet[8 + i] <= 126,
        n < 16 ==> packet[8 + n] == 0,
    ensures
        named_frame(packet) matches Some((name, frame)) && frame == parsed_packet(packet)->Ok_0
            && name.len() == n && forall|i: int|
            0 <= i < n ==> #[trigger] name[i] == packet[8 + i] as char,
{
    let raw = packet.subrange(8, 24);
    assert forall|i: int| 0 <= i < n implies #[trigger] raw[i] != 0 by {
        assert(raw[i] == packet[8 + i]);
    }
    if n < 16 {
        assert(raw[n] == packet[8 + n]);
    }
    law_name_ends_at_the_first_zero(raw, n);
    let name = raw.take(n);
    assert forall|i: int| 0 <= i < name.len() implies 32 <= #[trigger] name[i] <= 126 by {
        assert(name[i] == packet[8 + i]);
    }
}

/// A packet goes to the first stream of its name; where none has the name, to the only stream that
/// there is, and nowhere where there are more. It never goes to two streams.
pub proof fn law_packet_goes_to_one_stream(
    names: Seq<Seq<char>>,
    name: Seq<char>,
    i: int,
    j: int,
)
    requires
        0 <= i < names.len(),
        0 <= j < names.len(),
    ensures
        is_target(names, name, i) && is_target(names, name, j) ==> i == j,
        names[i] == name && (forall|k: int| 0 <= k < i ==> #[trigger] names[k] != name) <==> (
        is_target(names, name, i) && names.contains(name)),
        !names.contains(name) && names.len() == 1 ==> is_target(names, name, 0),
        !names.contains(name) && names.len() > 1 ==> !is_target(names, name, i) && !has_target(
            names,
            name,
        ),
        is_target(names, name, i) ==> has_target(names, name),
        has_target(names, name) <==> names.len() == 1 || exists|k: int|
            0 <= k < names.len() && #[trigger] names[k] == name,
{
    if is_target(names, name, i) && is_target(names, name, j) && names.contains(name) {
        if i < j {
            assert(names[i] != name);
        } else if j < i {
            assert(names[j] != name);
        }
    }
    if names[i] == name {
        assert(names.contains(name));
    }
}

proof fn lemma_order_of_a_part(buffer: JitterModel<u32>, order: Seq<u32>, n: int)
    requires
        is_order(buffer, order),
        0 < n <= order.len(),
    ensures
        after_order(buffer, order.take(n - 1)).is_next(order[n - 1]),
    decreases order.len(),
{
    let init = order.drop_last();
    if n == order.len() {
        assert(order.take(n - 1) =~= init);
    } else {
        lemma_order_of_a_part(buffer, init, n);
        assert(init.take(n - 1) =~= order.take(n - 1));
    }
}

/// When a stream is drained, every frame that is given out is one that waited; each follows the one
/// before it, and its samples, cut or filled up to a block, go into the queue in that order.
pub proof fn law_waiting_frames_are_played_in_order(
    before: VbanStream,
    after: VbanStream,
    block_samples: nat,
    order: Seq<u32>,
    queues: Seq<AudioFifoProducer>,
    i: int,
)
    requires
        drained(before, after, block_samples, order, queues),
        0 <= i < order.len(),
    ensures
        before.buffer().frames.contains_key(order[i]),
        i > 0 ==> frame_distance(order[i], order[i - 1]) > 0,
        queues.len() == order.len() + 1,
        queues[0] == before.queue(),
        queues[order.len() as int] == after.queue(),
        exists|block: Seq<u32>, frames: nat| #[trigger]
            block_written(queues[i], queues[i + 1], block, frames) && block.len() == block_samples
                && forall|k: int|
                0 <= k < block_samples ==> #[trigger] block[k] == if k
                    < before.buffer().frames[order[i]].len() {
                    before.buffer().frames[order[i]][k]
                } else {
                    0
                },
{
    let buffer = before.buffer();
    let part = order.take(i);
    lemma_order_of_a_part(buffer, order, i + 1);
    crate::vban::bridge::lemma_waiting_frames_keep(buffer, part, order[i]);
    if i > 0 {
        let earlier = order.take(i - 1);
        assert(part.drop_last() =~= earlier);
        assert(part.last() == order[i - 1]);
        assert(after_order(buffer, part) == after_order(buffer, earlier).popped(order[i - 1]));
    }
    let block = as_block(buffer.frames[order[i]], block_samples);
    let next = queues[i];
    assert(block_taken(next, queues[i + 1], block));
    let frames = choose|frames: nat| #[trigger]
        block_written(queues[i], queues[i + 1], block, frames);
    assert(block_written(queues[i], queues[i + 1], block, frames));
}

} // verus!
