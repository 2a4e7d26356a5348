//! Taking packets of a stream in.

use crate::arithmetic::{binary, call_binary, is_binary};
use crate::vban::jitter::{stats_have_room, JitterModel, VBanJitterBuffer, VBanJitterError};
use crate::vban::packet::{
    decoded_header, header_bytes, law_header_round_trip, sample_bytes, PacketFault, VBanBitFormat,
    VBanHeader, VBanPacketError, VBAN_HEADER_SIZE,
};
use crate::vban::wire::{
    law_samples_round_trip, payload_numbers, wire_number, wire_range, wire_samples, wrapped,
    BlockSettings,
};
use vstd::prelude::*;
use vstd::utf8::encode_utf8;

verus! {

/// Why a packet is not taken in.
#[derive(Debug, PartialEq, Eq)]
pub enum VBanReceiveError {
    /// The socket failed, with the reason that it gave.
    Udp(String),
    Packet(VBanPacketError),
    InvalidLength { expected: usize, actual: usize },
    Jitter(VBanJitterError),
    /// The buffer could not be set up, with the reason.
    JitterInit(String),
}

/// What a `VBanReceiveError` says.
#[verifier::ext_equal]
pub enum ReceiveFault {
    Udp(Seq<char>),
    Packet(PacketFault),
    InvalidLength { expected: usize, actual: usize },
    Jitter(VBanJitterError),
    JitterInit(Seq<char>),
}

impl View for VBanReceiveError {
    type V = ReceiveFault;

    open spec fn view(&self) -> ReceiveFault {
        match *self {
            VBanReceiveError::Udp(reason) => ReceiveFault::Udp(reason@),
            VBanReceiveError::Packet(e) => ReceiveFault::Packet(e@),
            VBanReceiveError::InvalidLength { expected, actual } => ReceiveFault::InvalidLength {
                expected,
                actual,
            },
            VBanReceiveError::Jitter(e) => ReceiveFault::Jitter(e),
            VBanReceiveError::JitterInit(reason) => ReceiveFault::JitterInit(reason@),
        }
    }
}

/// What a packet carries.
#[verifier::ext_equal]
pub struct FrameModel {
    pub nu_frame: u32,
    pub bit_format: VBanBitFormat,
    /// The samples as numbers on the wire, interleaved.
    pub numbers: Seq<u32>,
}

/// The sample format with a number, if there is one.
pub open spec fn format_of_index(index: u8) -> Option<VBanBitFormat> {
    if index == 1 {
        Some(VBanBitFormat::Int16)
    } else if index == 2 {
        Some(VBanBitFormat::Int24)
    } else if index == 3 {
        Some(VBanBitFormat::Int32)
    } else if index == 4 {
        Some(VBanBitFormat::Float32)
    } else {
        None
    }
}

/// What a packet carries, or why it is refused: the header is looked at first, then the
/// sample format, then the length of the payload.
pub open spec fn parsed_packet(packet: Seq<u8>) -> Result<FrameModel, ReceiveFault> {
    match decoded_header(packet) {
        Err(fault) => Err(ReceiveFault::Packet(fault)),
        Ok(header) => match format_of_index(header.format_bit % 8) {
            None => Err(
                ReceiveFault::Packet(
                    PacketFault::InvalidBitFormatIndex { index: header.format_bit % 8 },
                ),
            ),
            Some(bit_format) => {
                let count = ((header.format_nbs + 1) * (header.format_nbc + 1)) as nat;
                let payload = packet.skip(28);
                if payload.len() < count * sample_bytes(bit_format) {
                    Err(
                        ReceiveFault::InvalidLength {
                            expected: (count * sample_bytes(bit_format)) as usize,
                            actual: payload.len() as usize,
                        },
                    )
                } else {
                    Ok(
                        FrameModel {
                            nu_frame: header.nu_frame,
                            bit_format,
                            numbers: payload_numbers(bit_format, payload, count),
                        },
                    )
                }
            },
        },
    }
}

/// What a packet carries.
pub struct ParsedFrame {
    pub nu_frame: u32,
    pub bit_format: VBanBitFormat,
    /// The samples as numbers on the wire, interleaved.
    pub numbers: Vec<u32>,
}

impl View for ParsedFrame {
    type V = FrameModel;

    open spec fn view(&self) -> FrameModel {
        FrameModel {
            nu_frame: self.nu_frame,
            bit_format: self.bit_format,
            numbers: self.numbers@,
        }
    }
}

/// Reads the first `count` numbers of a payload.
pub fn decode_samples(payload: &[u8], bit_format: VBanBitFormat, count: usize) -> (numbers: Vec<
    u32,
>)
    requires
        count * sample_bytes(bit_format) <= payload@.len(),
    ensures
        numbers@ == payload_numbers(bit_format, payload@, count as nat),
{
    let mut numbers: Vec<u32> = Vec::new();
    let width = bit_format.bytes_per_sample();
    let available = payload.len();
    assert(count * width <= payload@.len());
    for i in 0..count
        invariant
            width == sample_bytes(bit_format),
            count * width <= payload@.len(),
            available == payload@.len(),
            numbers@ =~= payload_numbers(bit_format, payload@, i as nat),
    {
        assert(0 <= i * width && i * width + width <= count * width) by (nonlinear_arith)
            requires
                0 <= i < count,
                width >= 0,
        ;
        let at: usize = i * width;
        let ghost bytes = payload@.subrange(at as int, at + width);
        let low: u32 = payload[at] as u32 + 0x100 * payload[at + 1] as u32;
        assert(bytes[0] == payload@[at as int] && bytes[1] == payload@[at + 1]);
        let number: u32 = match bit_format {
            VBanBitFormat::Int16 => low,
            VBanBitFormat::Int24 => {
                assert(bytes[2] == payload@[at + 2]);
                low + 0x1_0000 * payload[at + 2] as u32
            },
            _ => {
                assert(bytes[2] == payload@[at + 2] && bytes[3] == payload@[at + 3]);
                low + 0x1_0000 * payload[at + 2] as u32 + 0x100_0000 * payload[at + 3] as u32
            },
        };
        assert(number == wire_number(bit_format, bytes));
        numbers.push(number);
        assert(numbers@ =~= payload_numbers(bit_format, payload@, (i + 1) as nat));
    }
    numbers
}

/// The bytes of a packet behind its header.
fn payload_of(packet: &[u8]) -> (payload: &[u8])
    requires
        packet@.len() >= 28,
    ensures
        payload@ == packet@.skip(28),
{
    let (_, payload) = packet.split_at(VBAN_HEADER_SIZE);
    assert(payload@ =~= packet@.skip(28));
    payload
}

/// Reads a packet.
pub fn parse_packet(packet: &[u8]) -> (result: Result<ParsedFrame, VBanReceiveError>)
    ensures
        match result {
            Ok(frame) => parsed_packet(packet@) == Ok::<FrameModel, ReceiveFault>(frame@),
            Err(e) => parsed_packet(packet@) == Err::<FrameModel, ReceiveFault>(e@),
        },
{
    let header = match VBanHeader::decode(packet) {
        Ok(header) => header,
        Err(e) => {
            return Err(VBanReceiveError::Packet(e));
        },
    };
    let bit_format = match header.bit_format() {
        Ok(format) => format,
        Err(e) => {
            return Err(VBanReceiveError::Packet(e));
        },
    };
    let ghost rows = header@.format_nbs + 1;
    let ghost columns = header@.format_nbc + 1;
    assert(0 < rows * columns <= 256 * 256) by (nonlinear_arith)
        requires
            0 < rows <= 256,
            0 < columns <= 256,
    ;
    let count: usize = header.samples_per_channel() * header.channels();
    let width = bit_format.bytes_per_sample();
    let ghost w = width as int;
    assert(count * w <= 256 * 256 * 4) by (nonlinear_arith)
        requires
            0 <= count <= 256 * 256,
            0 <= w <= 4,
    ;
    let expected: usize = count * width;
    let payload = payload_of(packet);
    if payload.len() < expected {
        return Err(VBanReceiveError::InvalidLength { expected, actual: payload.len() });
    }
    Ok(
        ParsedFrame {
            nu_frame: header.nu_frame,
            bit_format,
            numbers: decode_samples(payload, bit_format, count),
        },
    )
}

/// Counts of a receiver.
#[derive(Clone, Copy, Debug, PartialEq, Eq, Structural)]
pub struct VBanReceiveStats {
    /// Packets that were taken in.
    pub received: u64,
    /// Packets that did not start like a VBAN packet.
    pub bad_magic: u64,
    /// Packets that were shorter than a header.
    pub packet_too_short: u64,
    /// Packets that were refused for another reason.
    pub parse_error: u64,
    /// Frames that were given out.
    pub frames_out: u64,
}

impl Default for VBanReceiveStats {
    fn default() -> (stats: Self)
        ensures
            stats == nothing_received(),
    {
        VBanReceiveStats {
            received: 0,
            bad_magic: 0,
            packet_too_short: 0,
            parse_error: 0,
            frames_out: 0,
        }
    }
}

/// The counts of an unused receiver.
pub open spec fn nothing_received() -> VBanReceiveStats {
    VBanReceiveStats {
        received: 0,
        bad_magic: 0,
        packet_too_short: 0,
        parse_error: 0,
        frames_out: 0,
    }
}

/// Every count can still grow by one.
pub open spec fn receive_stats_have_room(stats: VBanReceiveStats) -> bool {
    &&& stats.received < u64::MAX
    &&& stats.bad_magic < u64::MAX
    &&& stats.packet_too_short < u64::MAX
    &&& stats.parse_error < u64::MAX
    &&& stats.frames_out < u64::MAX
}

/// The counts after a packet, by what became of it.
pub open spec fn counted_packet(
    stats: VBanReceiveStats,
    parsed: Result<FrameModel, ReceiveFault>,
) -> VBanReceiveStats {
    match parsed {
        Ok(_) => VBanReceiveStats { received: (stats.received + 1) as u64, ..stats },
        Err(ReceiveFault::Packet(PacketFault::InvalidMagic)) => VBanReceiveStats {
            bad_magic: (stats.bad_magic + 1) as u64,
            ..stats
        },
        Err(ReceiveFault::Packet(PacketFault::PacketTooShort { .. })) => VBanReceiveStats {
            packet_too_short: (stats.packet_too_short + 1) as u64,
            ..stats
        },
        Err(_) => VBanReceiveStats { parse_error: (stats.parse_error + 1) as u64, ..stats },
    }
}

/// The samples that numbers on the wire stand for.
pub open spec fn dequantised<S, D: Fn(u32, VBanBitFormat) -> S>(
    dequantise: D,
    bit_format: VBanBitFormat,
    numbers: Seq<u32>,
) -> Seq<S> {
    numbers.map_values(|n: u32| binary(dequantise, n, bit_format))
}

/// Turns numbers on the wire into samples.
pub fn dequantise_all<S, D: Fn(u32, VBanBitFormat) -> S>(
    numbers: &Vec<u32>,
    bit_format: VBanBitFormat,
    dequantise: &D,
) -> (samples: Vec<S>)
    requires
        is_binary(*dequantise),
    ensures
        samples@ == dequantised(*dequantise, bit_format, numbers@),
{
    let mut samples: Vec<S> = Vec::new();
    for i in 0..numbers.len()
        invariant
            is_binary(*dequantise),
            samples@ =~= dequantised(*dequantise, bit_format, numbers@.take(i as int)),
    {
        samples.push(call_binary(dequantise, numbers[i], bit_format));
        assert(samples@ =~= dequantised(*dequantise, bit_format, numbers@.take(i + 1)));
    }
    assert(numbers@.take(numbers.len() as int) =~= numbers@);
    samples
}

/// Takes the packets of one stream in and gives its frames out in order.
pub struct VBanReceiver<S> {
    jitter: VBanJitterBuffer<S>,
    stats: VBanReceiveStats,
}

impl<S: Copy> VBanReceiver<S> {
    /// The frames that wait.
    pub closed spec fn buffer(self) -> JitterModel<S> {
        self.jitter@
    }

    /// The counts so far.
    pub closed spec fn counts(self) -> VBanReceiveStats {
        self.stats
    }

    /// A receiver that has received nothing.
    pub fn new() -> (receiver: Self)
        ensures
            receiver.buffer() == JitterModel::<S>::fresh(),
            receiver.buffer().wf(),
            receiver.counts() == nothing_received(),
    {
        VBanReceiver { jitter: VBanJitterBuffer::new(), stats: VBanReceiveStats::default() }
    }

    /// Takes a packet in, or counts why it is not.
    pub fn accept_packet<D: Fn(u32, VBanBitFormat) -> S>(&mut self, packet: &[u8], dequantise: &D)
        requires
            is_binary(*dequantise),
            old(self).buffer().wf(),
            stats_have_room(old(self).buffer().stats, 1),
            receive_stats_have_room(old(self).counts()),
        ensures
            final(self).buffer().wf(),
            final(self).counts() == counted_packet(old(self).counts(), parsed_packet(packet@)),
            final(self).buffer() == match parsed_packet(packet@) {
                Ok(frame) => old(self).buffer().pushed(
                    frame.nu_frame,
                    dequantised(*dequantise, frame.bit_format, frame.numbers),
                ),
                Err(_) => old(self).buffer(),
            },
    {
        match parse_packet(packet) {
            Ok(frame) => {
                let samples = dequantise_all(&frame.numbers, frame.bit_format, dequantise);
                proof {
                    lemma_frame_is_not_empty(packet@);
                }
                let _ = self.jitter.push(frame.nu_frame, samples.as_slice());
                self.stats.received += 1;
            },
            Err(VBanReceiveError::Packet(VBanPacketError::InvalidMagic)) => {
                self.stats.bad_magic += 1;
            },
            Err(VBanReceiveError::Packet(VBanPacketError::PacketTooShort { .. })) => {
                self.stats.packet_too_short += 1;
            },
            Err(_) => {
                self.stats.parse_error += 1;
            },
        }
    }

    /// Gives out the next frame in order, if one waits.
    pub fn pop_next(&mut self) -> (result: Option<Vec<S>>)
        requires
            old(self).buffer().wf(),
            stats_have_room(old(self).buffer().stats, 1),
            receive_stats_have_room(old(self).counts()),
        ensures
            final(self).buffer().wf(),
            match result {
                Some(samples) => {
                    &&& final(self).buffer().last_emitted matches Some(n)
                    &&& old(self).buffer().is_next(n)
                    &&& samples@ == old(self).buffer().frames[n]
                    &&& final(self).buffer() == old(self).buffer().popped(n)
                    &&& final(self).counts() == (VBanReceiveStats {
                        frames_out: (old(self).counts().frames_out + 1) as u64,
                        ..old(self).counts()
                    })
                },
                None => {
                    &&& forall|k: u32| #[trigger]
                        old(self).buffer().frames.contains_key(k) ==> !old(self).buffer().may_emit(
                            k,
                        )
                    &&& final(self).buffer() == (JitterModel {
                        frames: old(self).buffer().live_frames(),
                        ..old(self).buffer()
                    })
                    &&& final(self).counts() == old(self).counts()
                },
            },
    {
        let frame = self.jitter.pop_next();
        if frame.is_some() {
            self.stats.frames_out += 1;
        }
        frame
    }

    /// How many frames wait.
    pub fn fill_level(&self) -> (frames: usize)
        ensures
            frames == self.buffer().frames.dom().len(),
    {
        self.jitter.fill_level()
    }

    /// The counts so far.
    pub fn stats(&self) -> (stats: VBanReceiveStats)
        ensures
            stats == self.counts(),
    {
        self.stats
    }
}

/// A packet that can be read carries at least one sample.
pub proof fn lemma_frame_is_not_empty(packet: Seq<u8>)
    requires
        parsed_packet(packet) is Ok,
    ensures
        parsed_packet(packet)->Ok_0.numbers.len() > 0,
{
    let header = decoded_header(packet)->Ok_0;
    let rows = header.format_nbs + 1;
    let columns = header.format_nbc + 1;
    assert(rows * columns > 0) by (nonlinear_arith)
        requires
            rows > 0,
            columns > 0,
    ;
}

/// What a receiver reads of a packet is what the sender wrote: its counter, its format,
/// and of every sample the bits that the format keeps.
pub proof fn law_packet_round_trip(settings: BlockSettings, numbers: Seq<u32>, i: int, first: u32)
    requires
        settings.fault(numbers.len()) is None,
        0 <= i < settings.packet_count(
            (numbers.len() as int / settings.channels as int) as nat,
        ),
    ensures
        ({
            let frames = (numbers.len() as int / settings.channels as int) as nat;
            let from = i * settings.packet_frames() * settings.channels;
            let count = settings.frames_of(frames, i) * settings.channels;
            parsed_packet(settings.packet(numbers, i, first)) == Ok::<FrameModel, ReceiveFault>(
                FrameModel {
                    nu_frame: wrapped(first + i),
                    bit_format: settings.bit_format,
                    numbers: numbers.subrange(from, from + count).map_values(
                        |n: u32| (n as int % wire_range(settings.bit_format)) as u32,
                    ),
                },
            )
        }),
{
    let ch = settings.channels as int;
    let pf = settings.packet_frames() as int;
    let frames = (numbers.len() as int / ch) as nat;
    let from = i * settings.packet_frames() * settings.channels;
    let per = settings.frames_of(frames, i);
    let format = settings.bit_format;
    crate::vban::wire::lemma_packet_bounds(settings, numbers.len(), i);
    let part = numbers.subrange(from, from + per * ch);
    let header = settings.header(per, wrapped(first + i));
    let packet = settings.packet(numbers, i, first);
    let payload = wire_samples(format, part);
    assert(packet == header_bytes(header) + payload);
    let name = encode_utf8(settings.stream_name);
    assert(header.stream_name.len() == 16);
    crate::vban::wire::lemma_known_rate(settings);
    law_header_round_trip(header, payload);
    assert(packet.skip(28) =~= payload);
    assert(header.format_nbc + 1 == ch);
    assert(header.format_nbs + 1 == per);
    law_samples_round_trip(format, part, Seq::empty());
    assert(payload + Seq::<u8>::empty() =~= payload);
    crate::vban::wire::lemma_wire_samples_len(format, part);
}

} // verus!
