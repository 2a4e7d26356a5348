//! Headers of VBAN audio packets.
//!
//! A header is 28 bytes, numbers in little-endian order:
//!
//! ```text
//!  0..4   "VBAN"
//!  4      upper 3 bits: protocol (audio is 0), lower 5 bits: sample rate index
//!  5      samples per channel, minus one
//!  6      channels, minus one
//!  7      lower 3 bits: sample format
//!  8..24  stream name, padded with zeros
//!  24..28 frame counter
//! ```

use crate::text::{decimal_text, push_decimal};
use vstd::prelude::*;
use vstd::string::StringExecFns;
use vstd::utf8::encode_utf8;

verus! {

/// The first four bytes of every packet.
pub const VBAN_MAGIC: [u8; 4] = [0x56, 0x42, 0x41, 0x4e];

/// Bytes of a header.
pub const VBAN_HEADER_SIZE: usize = 28;

/// Bytes of the largest packet.
pub const VBAN_MAX_PACKET_SIZE: usize = 1464;

/// Bytes of the largest payload.
pub const VBAN_MAX_PAYLOAD_SIZE: usize = 1436;

/// Bytes of the stream name.
pub const VBAN_STREAM_NAME_SIZE: usize = 16;

/// Samples per channel of the largest packet.
pub const VBAN_MAX_SAMPLES_PER_CHANNEL: usize = 256;

/// Width of the window in which frame counters are compared.
pub const VBAN_FRAME_WINDOW: u32 = 1024;

/// The sample rates that a header can name, by their index.
pub const SAMPLE_RATE_INDEX_TO_HZ: [u32; 20] = [
    6_000, 12_000, 24_000, 48_000, 96_000, 192_000, 384_000, 8_000, 16_000, 32_000, 64_000,
    128_000, 256_000, 11_025, 22_050, 44_100, 88_200, 176_400, 352_800, 705_600,
];

/// Why a packet or a stream is refused.
#[derive(Debug, PartialEq, Eq)]
pub enum VBanPacketError {
    PacketTooShort { expected: usize, actual: usize },
    InvalidMagic,
    UnsupportedProtocol { protocol_type: u8 },
    InvalidSampleRateIndex { index: u8 },
    InvalidBitFormatIndex { index: u8 },
    InvalidStreamName { reason: String },
    TooManyChannels { channels: usize },
    PayloadTooLarge { max: usize, actual: usize },
}

/// What a `VBanPacketError` says.
#[verifier::ext_equal]
pub enum PacketFault {
    PacketTooShort { expected: usize, actual: usize },
    InvalidMagic,
    UnsupportedProtocol { protocol_type: u8 },
    InvalidSampleRateIndex { index: u8 },
    InvalidBitFormatIndex { index: u8 },
    InvalidStreamName { reason: Seq<char> },
    TooManyChannels { channels: usize },
    PayloadTooLarge { max: usize, actual: usize },
}

impl View for VBanPacketError {
    type V = PacketFault;

    open spec fn view(&self) -> PacketFault {
        match *self {
            VBanPacketError::PacketTooShort { expected, actual } => PacketFault::PacketTooShort {
                expected,
                actual,
            },
            VBanPacketError::InvalidMagic => PacketFault::InvalidMagic,
            VBanPacketError::UnsupportedProtocol { protocol_type } =>
                PacketFault::UnsupportedProtocol { protocol_type },
            VBanPacketError::InvalidSampleRateIndex { index } =>
                PacketFault::InvalidSampleRateIndex { index },
            VBanPacketError::InvalidBitFormatIndex { index } =>
                PacketFault::InvalidBitFormatIndex { index },
            VBanPacketError::InvalidStreamName { reason } => PacketFault::InvalidStreamName {
                reason: reason@,
            },
            VBanPacketError::TooManyChannels { channels } => PacketFault::TooManyChannels {
                channels,
            },
            VBanPacketError::PayloadTooLarge { max, actual } => PacketFault::PayloadTooLarge {
                max,
                actual,
            },
        }
    }
}

/// The protocols that a packet can carry.
#[derive(Clone, Copy, Debug, PartialEq, Eq, Structural)]
pub enum VBanProtocol {
    /// PCM audio.
    Audio,
}

impl VBanProtocol {
    /// The number of the protocol in a header.
    pub fn code(self) -> (code: u8)
        ensures
            code == 0,
    {
        match self {
            VBanProtocol::Audio => 0,
        }
    }
}

/// How a sample is written in a payload.
#[derive(Clone, Copy, Debug, PartialEq, Eq, Hash, Structural)]
pub enum VBanBitFormat {
    Int16,
    Int24,
    Int32,
    Float32,
}

/// The number of a sample format in a header.
pub open spec fn bit_format_index(format: VBanBitFormat) -> u8 {
    match format {
        VBanBitFormat::Int16 => 1,
        VBanBitFormat::Int24 => 2,
        VBanBitFormat::Int32 => 3,
        VBanBitFormat::Float32 => 4,
    }
}

/// The bytes of a sample.
pub open spec fn sample_bytes(format: VBanBitFormat) -> nat {
    match format {
        VBanBitFormat::Int16 => 2,
        VBanBitFormat::Int24 => 3,
        VBanBitFormat::Int32 => 4,
        VBanBitFormat::Float32 => 4,
    }
}

impl VBanBitFormat {
    /// The number of the format in a header.
    pub fn index(self) -> (index: u8)
        ensures
            index == bit_format_index(self),
    {
        match self {
            VBanBitFormat::Int16 => 1,
            VBanBitFormat::Int24 => 2,
            VBanBitFormat::Int32 => 3,
            VBanBitFormat::Float32 => 4,
        }
    }

    /// The bytes of a sample.
    pub fn bytes_per_sample(self) -> (bytes: usize)
        ensures
            bytes == sample_bytes(self),
    {
        match self {
            VBanBitFormat::Int16 => 2,
            VBanBitFormat::Int24 => 3,
            VBanBitFormat::Int32 => 4,
            VBanBitFormat::Float32 => 4,
        }
    }

    /// The format with a number, if there is one.
    pub fn from_index(index: u8) -> (result: Result<Self, VBanPacketError>)
        ensures
            match result {
                Ok(format) => bit_format_index(format) == index,
                Err(e) => !(1 <= index <= 4) && e@ == (PacketFault::InvalidBitFormatIndex {
                    index,
                }),
            },
    {
        match index {
            1 => Ok(VBanBitFormat::Int16),
            2 => Ok(VBanBitFormat::Int24),
            3 => Ok(VBanBitFormat::Int32),
            4 => Ok(VBanBitFormat::Float32),
            _ => Err(VBanPacketError::InvalidBitFormatIndex { index }),
        }
    }
}

/// Whether a header can name the sample rate `hz`.
pub open spec fn known_sample_rate(hz: u32) -> bool {
    exists|i: int| 0 <= i < 20 && #[trigger] SAMPLE_RATE_INDEX_TO_HZ@[i] == hz
}

/// The index of a sample rate, if a header can name it.
pub fn sample_rate_to_index(hz: u32) -> (found: Option<u8>)
    ensures
        match found {
            Some(index) => index < 20 && SAMPLE_RATE_INDEX_TO_HZ@[index as int] == hz && forall|
                j: int,
            |
                0 <= j < index ==> #[trigger] SAMPLE_RATE_INDEX_TO_HZ@[j] != hz,
            None => !known_sample_rate(hz),
        },
{
    for index in 0usize..20
        invariant
            forall|j: int| 0 <= j < index ==> #[trigger] SAMPLE_RATE_INDEX_TO_HZ@[j] != hz,
    {
        if SAMPLE_RATE_INDEX_TO_HZ[index] == hz {
            return Some(index as u8);
        }
    }
    None
}

/// The fault of an unknown sample rate names the rate, cut to what a byte can hold.
pub open spec fn sample_rate_fault(hz: u32) -> PacketFault {
    PacketFault::InvalidSampleRateIndex { index: if hz <= 255 { hz as u8 } else { 255 } }
}

/// The index of a sample rate, or the fault where a header cannot name it.
pub fn sample_rate_to_index_result(hz: u32) -> (result: Result<u8, VBanPacketError>)
    ensures
        match result {
            Ok(index) => index < 20 && SAMPLE_RATE_INDEX_TO_HZ@[index as int] == hz,
            Err(e) => !known_sample_rate(hz) && e@ == sample_rate_fault(hz),
        },
{
    match sample_rate_to_index(hz) {
        Some(index) => Ok(index),
        None => Err(
            VBanPacketError::InvalidSampleRateIndex {
                index: if hz <= 255 {
                    hz as u8
                } else {
                    255
                },
            },
        ),
    }
}

/// The bytes of a number, the least significant first.
pub open spec fn le_bytes(n: u32) -> Seq<u8> {
    seq![
        (n as int % 0x100) as u8,
        (n as int / 0x100 % 0x100) as u8,
        (n as int / 0x1_0000 % 0x100) as u8,
        (n as int / 0x100_0000) as u8,
    ]
}

/// The number that four bytes make, the least significant first.
pub open spec fn le_number(bytes: Seq<u8>) -> int {
    bytes[0] + 0x100 * bytes[1] + 0x1_0000 * bytes[2] + 0x100_0000 * bytes[3]
}

/// The fields of a packet's header.
#[derive(Clone, Copy, Debug, PartialEq, Eq)]
pub struct VBanHeader {
    /// Protocol and sample rate index.
    pub format_sr: u8,
    /// Samples per channel, minus one.
    pub format_nbs: u8,
    /// Channels, minus one.
    pub format_nbc: u8,
    /// Sample format.
    pub format_bit: u8,
    /// Stream name, padded with zeros.
    pub stream_name: [u8; 16],
    /// Frame counter.
    pub nu_frame: u32,
}

/// What a header says.
#[verifier::ext_equal]
pub struct HeaderModel {
    pub format_sr: u8,
    pub format_nbs: u8,
    pub format_nbc: u8,
    pub format_bit: u8,
    pub stream_name: Seq<u8>,
    pub nu_frame: u32,
}

impl View for VBanHeader {
    type V = HeaderModel;

    open spec fn view(&self) -> HeaderModel {
        HeaderModel {
            format_sr: self.format_sr,
            format_nbs: self.format_nbs,
            format_nbc: self.format_nbc,
            format_bit: self.format_bit,
            stream_name: self.stream_name@,
            nu_frame: self.nu_frame,
        }
    }
}

/// The bytes of a header on the wire.
pub open spec fn header_bytes(header: HeaderModel) -> Seq<u8> {
    seq![0x56u8, 0x42u8, 0x41u8, 0x4eu8] + seq![
        header.format_sr,
        header.format_nbs,
        header.format_nbc,
        header.format_bit,
    ] + header.stream_name + le_bytes(header.nu_frame)
}

/// What a packet's header says, or why the packet is refused: its length is looked at
/// first, then the magic, then the protocol.
pub open spec fn decoded_header(packet: Seq<u8>) -> Result<HeaderModel, PacketFault> {
    if packet.len() < 28 {
        Err(PacketFault::PacketTooShort { expected: 28, actual: packet.len() as usize })
    } else if packet.take(4) != seq![0x56u8, 0x42u8, 0x41u8, 0x4eu8] {
        Err(PacketFault::InvalidMagic)
    } else if packet[4] / 32 != 0 {
        Err(PacketFault::UnsupportedProtocol { protocol_type: packet[4] / 32 })
    } else {
        Ok(
            HeaderModel {
                format_sr: packet[4],
                format_nbs: packet[5],
                format_nbc: packet[6],
                format_bit: packet[7],
                stream_name: packet.subrange(8, 24),
                nu_frame: le_number(packet.subrange(24, 28)) as u32,
            },
        )
    }
}

/// The bytes of a stream name before its first zero.
pub open spec fn trimmed_name(name: Seq<u8>) -> Seq<u8>
    decreases name.len(),
{
    if name.len() == 0 || name[0] == 0 {
        Seq::empty()
    } else {
        seq![name[0]] + trimmed_name(name.skip(1))
    }
}

/// Whether every byte is a printable ASCII character.
pub open spec fn printable(bytes: Seq<u8>) -> bool {
    forall|i: int| 0 <= i < bytes.len() ==> 32 <= #[trigger] bytes[i] <= 126
}

/// ASCII bytes as text.
pub open spec fn ascii_text(bytes: Seq<u8>) -> Seq<char> {
    bytes.map_values(|b: u8| b as char)
}

pub(crate) proof fn lemma_trimmed_name(name: Seq<u8>, n: int)
    requires
        0 <= n <= name.len(),
        forall|i: int| 0 <= i < n ==> #[trigger] name[i] != 0,
        n < name.len() ==> name[n] == 0,
    ensures
        trimmed_name(name) == name.take(n),
    decreases n,
{
    if n > 0 {
        assert(name[0] != 0);
        let rest = name.skip(1);
        assert forall|i: int| 0 <= i < n - 1 implies #[trigger] rest[i] != 0 by {
            assert(rest[i] == name[i + 1]);
        }
        lemma_trimmed_name(rest, n - 1);
        assert(name.take(n) =~= seq![name[0]] + rest.take(n - 1));
    } else {
        assert(name.take(0) =~= Seq::empty());
    }
}

fn all_printable(bytes: &[u8]) -> (all: bool)
    ensures
        all == printable(bytes@),
{
    for i in 0..bytes.len()
        invariant
            forall|j: int| 0 <= j < i ==> 32 <= #[trigger] bytes@[j] <= 126,
    {
        if bytes[i] < 32 || bytes[i] > 126 {
            return false;
        }
    }
    true
}

/// The reason that a stream name is not printable.
pub open spec fn unprintable_reason() -> Seq<char> {
    "流名包含不可打印或非 ASCII 字节"@
}

/// The reason that a stream name is empty or too long.
pub open spec fn name_length_reason(bytes: nat) -> Seq<char> {
    "流名长度 "@ + decimal_text(bytes) + "(字节) 必须在 1..=16 之间"@
}

impl VBanHeader {
    /// Reads the header of a packet.
    pub fn decode(packet: &[u8]) -> (result: Result<Self, VBanPacketError>)
        ensures
            match result {
                Ok(header) => decoded_header(packet@) == Ok::<HeaderModel, PacketFault>(header@),
                Err(e) => decoded_header(packet@) == Err::<HeaderModel, PacketFault>(e@),
            },
    {
        if packet.len() < VBAN_HEADER_SIZE {
            return Err(
                VBanPacketError::PacketTooShort { expected: VBAN_HEADER_SIZE, actual: packet.len() },
            );
        }
        let ghost magic = seq![0x56u8, 0x42u8, 0x41u8, 0x4eu8];
        if packet[0] != VBAN_MAGIC[0] || packet[1] != VBAN_MAGIC[1] || packet[2] != VBAN_MAGIC[2]
            || packet[3] != VBAN_MAGIC[3] {
            proof {
                let front = packet@.take(4);
                assert(front[0] != magic[0] || front[1] != magic[1] || front[2] != magic[2]
                    || front[3] != magic[3]);
            }
            return Err(VBanPacketError::InvalidMagic);
        }
        assert(packet@.take(4) =~= magic);
        let format_sr = packet[4];
        let protocol_type = format_sr / 32;
        if protocol_type != VBanProtocol::Audio.code() {
            return Err(VBanPacketError::UnsupportedProtocol { protocol_type });
        }
        let mut stream_name = [0u8; 16];
        for i in 0usize..16
            invariant
                packet@.len() >= 28,
                forall|j: int| 0 <= j < i ==> stream_name@[j] == packet@[8 + j],
        {
            stream_name[i] = packet[8 + i];
        }
        let nu_frame: u32 = packet[24] as u32 + 0x100 * packet[25] as u32 + 0x1_0000
            * packet[26] as u32 + 0x100_0000 * packet[27] as u32;
        let header = VBanHeader {
            format_sr,
            format_nbs: packet[5],
            format_nbc: packet[6],
            format_bit: packet[7],
            stream_name,
            nu_frame,
        };
        assert(header.stream_name@ =~= packet@.subrange(8, 24));
        Ok(header)
    }

    /// Writes the header over the bytes of `output`.
    pub fn encode_into(&self, output: &mut [u8; 28])
        ensures
            final(output)@ == header_bytes(self@),
    {
        output[0] = VBAN_MAGIC[0];
        output[1] = VBAN_MAGIC[1];
        output[2] = VBAN_MAGIC[2];
        output[3] = VBAN_MAGIC[3];
        output[4] = self.format_sr;
        output[5] = self.format_nbs;
        output[6] = self.format_nbc;
        output[7] = self.format_bit;
        let ghost front = output@.take(8);
        for i in 0usize..16
            invariant
                output@.take(8) == front,
                forall|j: int| 0 <= j < i ==> output@[8 + j] == self.stream_name@[j],
        {
            output[8 + i] = self.stream_name[i];
            assert(output@.take(8) =~= front);
        }
        let n = self.nu_frame;
        output[24] = (n % 0x100) as u8;
        output[25] = (n / 0x100 % 0x100) as u8;
        output[26] = (n / 0x1_0000 % 0x100) as u8;
        output[27] = (n / 0x100_0000) as u8;
        proof {
            let expected = header_bytes(self@);
            assert forall|k: int| 0 <= k < 28 implies output@[k] == expected[k] by {
                if k < 8 {
                    assert(output@.take(8)[k] == front[k]);
                } else if k < 24 {
                    assert(output@[8 + (k - 8)] == self.stream_name@[k - 8]);
                }
            }
            assert(output@ =~= expected);
        }
    }

    /// The number of the protocol.
    pub fn protocol_type(&self) -> (code: u8)
        ensures
            code == self@.format_sr / 32,
    {
        self.format_sr / 32
    }

    /// The index of the sample rate.
    pub fn sample_rate_index(&self) -> (index: u8)
        ensures
            index == self@.format_sr % 32,
    {
        self.format_sr % 32
    }

    /// The sample rate, if the index names one.
    pub fn sample_rate_hz(&self) -> (result: Result<u32, VBanPacketError>)
        ensures
            match result {
                Ok(hz) => self@.format_sr % 32 < 20 && hz == SAMPLE_RATE_INDEX_TO_HZ@[
                    (self@.format_sr % 32) as int
                ],
                Err(e) => self@.format_sr % 32 >= 20 && e@ == (
                PacketFault::InvalidSampleRateIndex { index: self@.format_sr % 32 }),
            },
    {
        let index = self.sample_rate_index();
        if index < 20 {
            Ok(SAMPLE_RATE_INDEX_TO_HZ[index as usize])
        } else {
            Err(VBanPacketError::InvalidSampleRateIndex { index })
        }
    }

    /// Samples per channel.
    pub fn samples_per_channel(&self) -> (samples: usize)
        ensures
            samples == self@.format_nbs + 1,
    {
        self.format_nbs as usize + 1
    }

    /// Channels.
    pub fn channels(&self) -> (channels: usize)
        ensures
            channels == self@.format_nbc + 1,
    {
        self.format_nbc as usize + 1
    }

    /// The sample format, if the header names one.
    pub fn bit_format(&self) -> (result: Result<VBanBitFormat, VBanPacketError>)
        ensures
            match result {
                Ok(format) => bit_format_index(format) == self@.format_bit % 8,
                Err(e) => !(1 <= self@.format_bit % 8 <= 4) && e@ == (
                PacketFault::InvalidBitFormatIndex { index: self@.format_bit % 8 }),
            },
    {
        VBanBitFormat::from_index(self.format_bit % 8)
    }

    /// The stream name before its first zero, if it is printable ASCII.
    pub fn stream_name_str(&self) -> (result: Result<String, VBanPacketError>)
        ensures
            match result {
                Ok(name) => printable(trimmed_name(self@.stream_name)) && name@ == ascii_text(
                    trimmed_name(self@.stream_name),
                ),
                Err(e) => !printable(trimmed_name(self@.stream_name)) && e@ == (
                PacketFault::InvalidStreamName { reason: unprintable_reason() }),
            },
    {
        let mut length: usize = 0;
        while length < 16 && self.stream_name[length] != 0
            invariant
                length <= 16,
                forall|j: int| 0 <= j < length ==> #[trigger] self.stream_name@[j] != 0,
            decreases 16 - length,
        {
            length += 1;
        }
        let ghost name = trimmed_name(self@.stream_name);
        proof {
            lemma_trimmed_name(self.stream_name@, length as int);
        }
        let mut text = String::new();
        for i in 0..length
            invariant
                length <= 16,
                name == self.stream_name@.take(length as int),
                name == trimmed_name(self@.stream_name),
                forall|j: int| 0 <= j < i ==> 32 <= #[trigger] name[j] <= 126,
                text@ =~= ascii_text(name.take(i as int)),
        {
            let byte = self.stream_name[i];
            assert(name[i as int] == byte);
            if byte < 32 || byte > 126 {
                return Err(
                    VBanPacketError::InvalidStreamName {
                        reason: "流名包含不可打印或非 ASCII 字节".to_owned(),
                    },
                );
            }
            text.push(byte as char);
            assert(text@ =~= ascii_text(name.take(i + 1)));
        }
        assert(name.take(length as int) =~= name);
        Ok(text)
    }

    /// The bytes of a packet behind its header.
    pub fn payload_len(total_packet_len: usize) -> (bytes: usize)
        ensures
            bytes == if total_packet_len >= 28 {
                total_packet_len - 28
            } else {
                0
            },
    {
        total_packet_len.saturating_sub(VBAN_HEADER_SIZE)
    }
}

/// The settings of a stream that is sent.
#[derive(Debug, PartialEq, Eq)]
pub struct VBanStreamConfig {
    pub stream_name: String,
    pub sample_rate: u32,
    pub channels: u16,
    pub bit_format: VBanBitFormat,
}

/// Why a stream cannot be set up: the name's length is looked at first, then its
/// characters, the channels and the sample rate.
pub open spec fn stream_fault(name: Seq<char>, sample_rate: u32, channels: u16) -> Option<
    PacketFault,
> {
    let bytes = encode_utf8(name);
    if bytes.len() == 0 || bytes.len() > 16 {
        Some(PacketFault::InvalidStreamName { reason: name_length_reason(bytes.len()) })
    } else if !printable(bytes) {
        Some(PacketFault::InvalidStreamName { reason: unprintable_reason() })
    } else if channels == 0 {
        Some(PacketFault::TooManyChannels { channels: 0 })
    } else if !known_sample_rate(sample_rate) {
        Some(sample_rate_fault(sample_rate))
    } else {
        None
    }
}

impl VBanStreamConfig {
    /// A stream that can be sent: its name is 1 to 16 bytes of printable ASCII, it has a
    /// channel, and a header can name its sample rate.
    pub open spec fn valid(self) -> bool {
        stream_fault(self.stream_name@, self.sample_rate, self.channels) is None
    }

    /// Sets up a stream, or says why it cannot be sent.
    pub fn new(
        stream_name: String,
        sample_rate: u32,
        channels: u16,
        bit_format: VBanBitFormat,
    ) -> (result: Result<Self, VBanPacketError>)
        ensures
            match result {
                Ok(config) => config.valid() && config.stream_name@ == stream_name@
                    && config.sample_rate == sample_rate && config.channels == channels
                    && config.bit_format == bit_format,
                Err(e) => stream_fault(stream_name@, sample_rate, channels) == Some(e@),
            },
    {
        let bytes = stream_name.as_str().as_bytes();
        if bytes.len() == 0 || bytes.len() > VBAN_STREAM_NAME_SIZE {
            let mut reason = "流名长度 ".to_owned();
            push_decimal(&mut reason, bytes.len() as u64);
            reason.append("(字节) 必须在 1..=16 之间");
            return Err(VBanPacketError::InvalidStreamName { reason });
        }
        if !all_printable(bytes) {
            return Err(
                VBanPacketError::InvalidStreamName {
                    reason: "流名包含不可打印或非 ASCII 字节".to_owned(),
                },
            );
        }
        if channels == 0 {
            return Err(VBanPacketError::TooManyChannels { channels: 0 });
        }
        match sample_rate_to_index_result(sample_rate) {
            Ok(index) => {
                assert(known_sample_rate(sample_rate));
                Ok(VBanStreamConfig { stream_name, sample_rate, channels, bit_format })
            },
            Err(e) => Err(e),
        }
    }

    /// Samples per channel that fit a packet of the stream.
    pub fn max_samples_per_channel(&self) -> (samples: Option<usize>)
        ensures
            samples == packet_samples(self.channels as nat, sample_bytes(self.bit_format)),
    {
        max_samples_per_channel(self.channels as usize, self.bit_format.bytes_per_sample())
    }
}

/// Samples per channel that fit a packet: at most 256, and as many frames as the
/// payload can hold.
pub open spec fn packet_samples(channels: nat, bytes: nat) -> Option<usize> {
    if channels * bytes > usize::MAX || channels * bytes == 0 {
        None
    } else {
        let frames = 1436int / (channels * bytes) as int;
        Some(if frames <= 256 { frames as usize } else { 256usize })
    }
}

/// Samples per channel that fit a packet.
pub fn max_samples_per_channel(channels: usize, bytes_per_sample: usize) -> (samples: Option<usize>)
    ensures
        samples == packet_samples(channels as nat, bytes_per_sample as nat),
{
    let bytes_per_frame = match channels.checked_mul(bytes_per_sample) {
        Some(bytes) => bytes,
        None => {
            return None;
        },
    };
    if bytes_per_frame == 0 {
        return None;
    }
    let frames = VBAN_MAX_PAYLOAD_SIZE / bytes_per_frame;
    Some(
        if frames <= VBAN_MAX_SAMPLES_PER_CHANNEL {
            frames
        } else {
            VBAN_MAX_SAMPLES_PER_CHANNEL
        },
    )
}

/// The four bytes of a number make the number again.
pub proof fn lemma_le_round_trip(n: u32)
    ensures
        le_number(le_bytes(n)) == n,
{
}

/// A header that names the audio protocol is read back as it was written, whatever
/// follows it in the packet.
pub proof fn law_header_round_trip(header: HeaderModel, payload: Seq<u8>)
    requires
        header.stream_name.len() == 16,
        header.format_sr / 32 == 0,
    ensures
        decoded_header(header_bytes(header) + payload) == Ok::<HeaderModel, PacketFault>(header),
{
    let packet = header_bytes(header) + payload;
    assert(packet.take(4) =~= seq![0x56u8, 0x42u8, 0x41u8, 0x4eu8]);
    assert(packet.subrange(8, 24) =~= header.stream_name);
    assert(packet.subrange(24, 28) =~= le_bytes(header.nu_frame));
    lemma_le_round_trip(header.nu_frame);
}

/// The number that four bytes make has these bytes.
pub proof fn lemma_le_bytes_of_number(bytes: Seq<u8>)
    requires
        bytes.len() == 4,
    ensures
        0 <= le_number(bytes) <= u32::MAX,
        le_bytes(le_number(bytes) as u32) == bytes,
{
    let (a, b, c, d) = (bytes[0] as int, bytes[1] as int, bytes[2] as int, bytes[3] as int);
    let n = a + 0x100 * b + 0x1_0000 * c + 0x100_0000 * d;
    assert(n / 0x100 == b + 0x100 * c + 0x1_0000 * d && n % 0x100 == a);
    assert(n / 0x1_0000 == c + 0x100 * d);
    assert(n / 0x100_0000 == d);
    let made = le_bytes(n as u32);
    assert(made[0] == bytes[0] && made[1] == bytes[1] && made[2] == bytes[2] && made[3]
        == bytes[3]);
    assert(made =~= bytes);
}

/// A packet whose header can be read starts with the bytes that its header writes.
pub proof fn law_header_rewrite(packet: Seq<u8>)
    requires
        decoded_header(packet) is Ok,
    ensures
        header_bytes(decoded_header(packet)->Ok_0) == packet.take(28),
{
    let header = decoded_header(packet)->Ok_0;
    let tail = packet.subrange(24, 28);
    lemma_le_bytes_of_number(tail);
    let bytes = header_bytes(header);
    assert forall|k: int| 0 <= k < 28 implies bytes[k] == packet[k] by {
        if k < 4 {
            assert(packet.take(4)[k] == packet[k]);
        } else if 24 <= k {
            assert(tail[k - 24] == packet[k]);
        }
    }
    assert(bytes =~= packet.take(28));
}

} // verus!
