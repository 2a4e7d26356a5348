//! Frames of samples on the wire: cutting a block into packets and reading it back.
//!
//! A sample on the wire is a number of 16, 24 or 32 bits, or the bit pattern of an
//! IEEE-754 single. Turning a sample into such a number and back is handed in by the
//! caller.

use crate::arithmetic::{binary, call_binary, is_binary};
use crate::vban::packet::{
    bit_format_index, header_bytes, le_bytes, max_samples_per_channel, packet_samples,
    sample_bytes, sample_rate_to_index, HeaderModel, VBanBitFormat, VBanHeader,
    SAMPLE_RATE_INDEX_TO_HZ, VBAN_STREAM_NAME_SIZE,
};
use crate::vban::packet::known_sample_rate;
use vstd::arithmetic::div_mod::{lemma_fundamental_div_mod, lemma_mod_bound};
use vstd::prelude::*;
use vstd::utf8::encode_utf8;

verus! {

/// The bytes of a number on the wire: as many of its low bytes as the format has.
pub open spec fn wire_sample(format: VBanBitFormat, number: u32) -> Seq<u8> {
    le_bytes(number).take(sample_bytes(format) as int)
}

/// The bytes of numbers on the wire, one after the other.
pub open spec fn wire_samples(format: VBanBitFormat, numbers: Seq<u32>) -> Seq<u8>
    decreases numbers.len(),
{
    if numbers.len() == 0 {
        Seq::empty()
    } else {
        wire_samples(format, numbers.drop_last()) + wire_sample(format, numbers.last())
    }
}

/// The number that the bytes of a sample make.
pub open spec fn wire_number(format: VBanBitFormat, bytes: Seq<u8>) -> int {
    match format {
        VBanBitFormat::Int16 => bytes[0] + 0x100 * bytes[1],
        VBanBitFormat::Int24 => bytes[0] + 0x100 * bytes[1] + 0x1_0000 * bytes[2],
        _ => bytes[0] + 0x100 * bytes[1] + 0x1_0000 * bytes[2] + 0x100_0000 * bytes[3],
    }
}

/// The first `count` numbers of a payload.
pub open spec fn payload_numbers(format: VBanBitFormat, payload: Seq<u8>, count: nat) -> Seq<u32> {
    Seq::new(
        count,
        |i: int|
            wire_number(
                format,
                payload.subrange(
                    i * sample_bytes(format),
                    i * sample_bytes(format) + sample_bytes(format),
                ),
            ) as u32,
    )
}

/// How many numbers the wire can tell apart.
pub open spec fn wire_range(format: VBanBitFormat) -> int {
    match format {
        VBanBitFormat::Int16 => 0x1_0000,
        VBanBitFormat::Int24 => 0x100_0000,
        _ => 0x1_0000_0000,
    }
}

/// The signed number that a number on the wire stands for in an integer format.
pub open spec fn signed_value(format: VBanBitFormat, number: u32) -> int {
    if number >= wire_range(format) / 2 {
        number - wire_range(format)
    } else {
        number as int
    }
}

/// The signed number that a number on the wire stands for.
pub fn signed_sample(format: VBanBitFormat, number: u32) -> (value: i32)
    requires
        number < wire_range(format),
    ensures
        value == signed_value(format, number),
{
    match format {
        VBanBitFormat::Int16 => if number >= 0x8000 {
            (number as i64 - 0x1_0000) as i32
        } else {
            number as i32
        },
        VBanBitFormat::Int24 => if number >= 0x80_0000 {
            (number as i64 - 0x100_0000) as i32
        } else {
            number as i32
        },
        _ => if number >= 0x8000_0000 {
            (number as i64 - 0x1_0000_0000) as i32
        } else {
            number as i32
        },
    }
}

/// A number is read from the wire as its low bits.
proof fn lemma_wire_sample_round_trip(format: VBanBitFormat, number: u32)
    ensures
        wire_sample(format, number).len() == sample_bytes(format),
        wire_number(format, wire_sample(format, number)) == number as int % wire_range(format),
{
    let n = number as int;
    let bytes = wire_sample(format, number);
    let all = le_bytes(number);
    assert(bytes[0] == n % 0x100 && bytes[1] == n / 0x100 % 0x100);
    assert(n % 0x1_0000 == n % 0x100 + 0x100 * (n / 0x100 % 0x100));
    match format {
        VBanBitFormat::Int16 => {},
        VBanBitFormat::Int24 => {
            assert(bytes[2] == n / 0x1_0000 % 0x100);
            assert(n % 0x100_0000 == n % 0x1_0000 + 0x1_0000 * (n / 0x1_0000 % 0x100));
        },
        _ => {
            assert(bytes[2] == n / 0x1_0000 % 0x100 && bytes[3] == n / 0x100_0000);
            assert(n % 0x100_0000 == n % 0x1_0000 + 0x1_0000 * (n / 0x1_0000 % 0x100));
            assert(n == n % 0x100_0000 + 0x100_0000 * (n / 0x100_0000));
        },
    }
}

/// The bytes of samples are as many as their number and width say.
pub proof fn lemma_wire_samples_len(format: VBanBitFormat, numbers: Seq<u32>)
    ensures
        wire_samples(format, numbers).len() == numbers.len() * sample_bytes(format),
    decreases numbers.len(),
{
    if numbers.len() > 0 {
        lemma_wire_samples_len(format, numbers.drop_last());
        let n = numbers.len() as int;
        let b = sample_bytes(format) as int;
        assert((n - 1) * b + b == n * b) by (nonlinear_arith);
    }
}

/// The sample at `i` stands where its position and the width of a sample say.
pub(crate) proof fn lemma_wire_samples_at(format: VBanBitFormat, numbers: Seq<u32>, i: int)
    requires
        0 <= i < numbers.len(),
    ensures
        0 <= i * sample_bytes(format),
        i * sample_bytes(format) + sample_bytes(format) <= wire_samples(format, numbers).len(),
        wire_samples(format, numbers).subrange(
            i * sample_bytes(format),
            i * sample_bytes(format) + sample_bytes(format),
        ) == wire_sample(format, numbers[i]),
    decreases numbers.len(),
{
    let b = sample_bytes(format) as int;
    let n = numbers.len() as int;
    let front = numbers.drop_last();
    lemma_wire_samples_len(format, numbers);
    lemma_wire_samples_len(format, front);
    lemma_wire_sample_round_trip(format, numbers[i]);
    assert(0 <= i * b && i * b + b <= n * b && (n - 1) * b + b == n * b) by (nonlinear_arith)
        requires
            0 <= i < n,
            b > 0,
    ;
    let all = wire_samples(format, numbers);
    if i == n - 1 {
        assert(all.subrange(i * b, i * b + b) =~= wire_sample(format, numbers.last()));
    } else {
        lemma_wire_samples_at(format, front, i);
        assert(front[i] == numbers[i]);
        assert(all.subrange(i * b, i * b + b) =~= wire_samples(format, front).subrange(
            i * b,
            i * b + b,
        ));
    }
}

/// Samples that were written to the wire are read back as their low bits, whatever
/// follows them.
pub proof fn law_samples_round_trip(format: VBanBitFormat, numbers: Seq<u32>, rest: Seq<u8>)
    ensures
        payload_numbers(format, wire_samples(format, numbers) + rest, numbers.len())
            == numbers.map_values(|n: u32| (n as int % wire_range(format)) as u32),
{
    let payload = wire_samples(format, numbers) + rest;
    let read = payload_numbers(format, payload, numbers.len());
    let expected = numbers.map_values(|n: u32| (n as int % wire_range(format)) as u32);
    assert forall|i: int| 0 <= i < numbers.len() implies read[i] == expected[i] by {
        lemma_wire_samples_at(format, numbers, i);
        lemma_wire_sample_round_trip(format, numbers[i]);
        let at = i * sample_bytes(format);
        assert(payload.subrange(at, at + sample_bytes(format)) =~= wire_samples(
            format,
            numbers,
        ).subrange(at, at + sample_bytes(format)));
    }
    assert(read =~= expected);
}

/// The bytes of `sample_count` samples.
pub fn payload_bytes(bit_format: VBanBitFormat, sample_count: usize) -> (bytes: usize)
    requires
        sample_count * sample_bytes(bit_format) <= usize::MAX,
    ensures
        bytes == sample_count * sample_bytes(bit_format),
{
    sample_count * bit_format.bytes_per_sample()
}

/// Writes the low bytes of a number behind `output`.
fn push_wire_sample(output: &mut Vec<u8>, format: VBanBitFormat, number: u32)
    ensures
        final(output)@ == old(output)@ + wire_sample(format, number),
{
    let ghost before = output@;
    output.push((number % 0x100) as u8);
    output.push((number / 0x100 % 0x100) as u8);
    match format {
        VBanBitFormat::Int16 => {},
        VBanBitFormat::Int24 => {
            output.push((number / 0x1_0000 % 0x100) as u8);
        },
        _ => {
            output.push((number / 0x1_0000 % 0x100) as u8);
            output.push((number / 0x100_0000) as u8);
        },
    }
    assert(output@ =~= before + wire_sample(format, number));
}

/// The numbers that the samples `from..to` become on the wire.
pub open spec fn quantised<S, Q: Fn(S, VBanBitFormat) -> u32>(
    quantise: Q,
    format: VBanBitFormat,
    samples: Seq<S>,
) -> Seq<u32> {
    samples.map_values(|s: S| binary(quantise, s, format))
}

/// Writes samples behind `output`.
fn encode_samples<S: Copy, Q: Fn(S, VBanBitFormat) -> u32>(
    samples: &[S],
    from: usize,
    to: usize,
    bit_format: VBanBitFormat,
    quantise: &Q,
    output: &mut Vec<u8>,
)
    requires
        is_binary(*quantise),
        from <= to <= samples@.len(),
    ensures
        final(output)@ == old(output)@ + wire_samples(
            bit_format,
            quantised(*quantise, bit_format, samples@.subrange(from as int, to as int)),
        ),
{
    let ghost before = output@;
    let ghost numbers = quantised(
        *quantise,
        bit_format,
        samples@.subrange(from as int, to as int),
    );
    assert(wire_samples(bit_format, numbers.take(0)) =~= Seq::empty());
    for i in from..to
        invariant
            is_binary(*quantise),
            from <= to <= samples@.len(),
            numbers == quantised(
                *quantise,
                bit_format,
                samples@.subrange(from as int, to as int),
            ),
            output@ =~= before + wire_samples(bit_format, numbers.take(i - from)),
    {
        let number = call_binary(quantise, samples[i], bit_format);
        assert(numbers[i - from] == number);
        push_wire_sample(output, bit_format, number);
        assert(numbers.take(i - from + 1).drop_last() =~= numbers.take(i - from));
        assert(numbers.take(i - from + 1).last() == number);
    }
    assert(numbers.take(to - from) =~= numbers);
}

/// Why a block cannot be sent.
#[derive(Debug, PartialEq, Eq)]
pub enum VBanSendError {
    UnsupportedSampleRate(u32),
    InvalidSampleCount(usize),
    ZeroChannels,
    InvalidPacketCapacity,
    InvalidStreamName(String),
    /// The socket refused, with the reason that it gave.
    Udp(String),
}

/// What a `VBanSendError` says.
#[verifier::ext_equal]
pub enum SendFault {
    UnsupportedSampleRate(u32),
    InvalidSampleCount(usize),
    ZeroChannels,
    InvalidPacketCapacity,
    InvalidStreamName(Seq<char>),
    Udp(Seq<char>),
}

impl View for VBanSendError {
    type V = SendFault;

    open spec fn view(&self) -> SendFault {
        match *self {
            VBanSendError::UnsupportedSampleRate(hz) => SendFault::UnsupportedSampleRate(hz),
            VBanSendError::InvalidSampleCount(n) => SendFault::InvalidSampleCount(n),
            VBanSendError::ZeroChannels => SendFault::ZeroChannels,
            VBanSendError::InvalidPacketCapacity => SendFault::InvalidPacketCapacity,
            VBanSendError::InvalidStreamName(name) => SendFault::InvalidStreamName(name@),
            VBanSendError::Udp(reason) => SendFault::Udp(reason@),
        }
    }
}

/// The settings under which a block is sent.
#[verifier::ext_equal]
pub struct BlockSettings {
    pub stream_name: Seq<char>,
    pub sample_rate: u32,
    pub channels: nat,
    pub bit_format: VBanBitFormat,
}

impl BlockSettings {
    /// Why `samples` samples cannot be sent: channels are looked at first, then the
    /// number of samples, the name, the sample rate and the size of a frame. A header tells at
    /// most 256 channels.
    pub open spec fn fault(self, samples: nat) -> Option<SendFault> {
        let name = encode_utf8(self.stream_name);
        if self.channels == 0 {
            Some(SendFault::ZeroChannels)
        } else if samples as int % self.channels as int != 0 || samples == 0 {
            Some(SendFault::InvalidSampleCount(samples as usize))
        } else if name.len() == 0 || name.len() > 16 {
            Some(SendFault::InvalidStreamName(self.stream_name))
        } else if !known_sample_rate(self.sample_rate) {
            Some(SendFault::UnsupportedSampleRate(self.sample_rate))
        } else if self.packet_frames() == 0 || self.channels > 256 {
            Some(SendFault::InvalidPacketCapacity)
        } else {
            None
        }
    }

    /// Frames that fit a packet; 0 where none does.
    pub open spec fn packet_frames(self) -> nat {
        match packet_samples(self.channels, sample_bytes(self.bit_format)) {
            Some(frames) => frames as nat,
            None => 0,
        }
    }

    /// How many packets `frames` frames take.
    pub open spec fn packet_count(self, frames: nat) -> nat {
        ((frames + self.packet_frames() - 1) as int / self.packet_frames() as int) as nat
    }

    /// Frames of the packet at `i`: all packets are full but the last.
    pub open spec fn frames_of(self, frames: nat, i: int) -> int {
        if (i + 1) * self.packet_frames() <= frames {
            self.packet_frames() as int
        } else {
            frames - i * self.packet_frames()
        }
    }

    /// The index of the sample rate.
    pub open spec fn rate_index(self) -> u8 {
        choose|index: u8|
            index < 20 && #[trigger] SAMPLE_RATE_INDEX_TO_HZ@[index as int] == self.sample_rate
    }

    /// The header of a packet of `frames` frames.
    pub open spec fn header(self, frames: int, nu_frame: u32) -> HeaderModel {
        let name = encode_utf8(self.stream_name);
        HeaderModel {
            format_sr: self.rate_index(),
            format_nbs: (frames - 1) as u8,
            format_nbc: (self.channels - 1) as u8,
            format_bit: bit_format_index(self.bit_format),
            stream_name: name + Seq::new((16 - name.len()) as nat, |i: int| 0u8),
            nu_frame,
        }
    }

    /// The packet at `i` of a block that becomes `numbers` on the wire.
    pub open spec fn packet(self, numbers: Seq<u32>, i: int, first_frame: u32) -> Seq<u8> {
        let frames = (numbers.len() as int / self.channels as int) as nat;
        let from = i * self.packet_frames() * self.channels;
        let count = self.frames_of(frames, i);
        header_bytes(self.header(count, wrapped(first_frame + i))) + wire_samples(
            self.bit_format,
            numbers.subrange(from, from + count * self.channels),
        )
    }
}

/// A frame counter after wrapping around.
pub open spec fn wrapped(n: int) -> u32 {
    (n % 0x1_0000_0000) as u32
}

/// The packets of a list.
pub open spec fn packet_list(packets: Seq<Vec<u8>>) -> Seq<Seq<u8>> {
    packets.map_values(|p: Vec<u8>| p@)
}

/// The sample rates are all different, so a rate has one index.
proof fn lemma_rate_index(settings: BlockSettings, index: u8)
    requires
        index < 20,
        SAMPLE_RATE_INDEX_TO_HZ@[index as int] == settings.sample_rate,
    ensures
        settings.rate_index() == index,
{
    let other = settings.rate_index();
    assert(other < 20 && SAMPLE_RATE_INDEX_TO_HZ@[other as int] == settings.sample_rate);
    assert forall|i: int, j: int| 0 <= i < j < 20 implies #[trigger] SAMPLE_RATE_INDEX_TO_HZ@[i]
        != #[trigger] SAMPLE_RATE_INDEX_TO_HZ@[j] by {}
}

/// The number of packets is the least that holds all frames.
pub(crate) proof fn lemma_packet_count(settings: BlockSettings, frames: nat)
    requires
        frames > 0,
        settings.packet_frames() > 0,
    ensures
        (settings.packet_count(frames) - 1) * settings.packet_frames() < frames,
        frames <= settings.packet_count(frames) * settings.packet_frames(),
{
    let pf = settings.packet_frames() as int;
    let n = frames + pf - 1;
    lemma_fundamental_div_mod(n, pf);
    lemma_mod_bound(n, pf);
    let q = n / pf;
    assert(q >= 0) by (nonlinear_arith)
        requires
            n >= 0,
            pf > 0,
            q == n / pf,
    ;
    assert((q - 1) * pf == pf * q - pf) by (nonlinear_arith);
    assert(q * pf == pf * q) by (nonlinear_arith);
}

/// The name of a stream, padded with zeros.
fn padded_name(bytes: &[u8]) -> (name: [u8; 16])
    requires
        bytes@.len() <= 16,
    ensures
        name@ == bytes@ + Seq::new((16 - bytes@.len()) as nat, |i: int| 0u8),
{
    let mut name = [0u8; 16];
    for i in 0..bytes.len()
        invariant
            bytes@.len() <= 16,
            forall|j: int| 0 <= j < i ==> name@[j] == bytes@[j],
            forall|j: int| i <= j < 16 ==> name@[j] == 0,
    {
        name[i] = bytes[i];
    }
    assert(name@ =~= bytes@ + Seq::new((16 - bytes@.len()) as nat, |i: int| 0u8));
    name
}

/// Builds one packet from the samples `from..to`.
fn build_packet<S: Copy, Q: Fn(S, VBanBitFormat) -> u32>(
    rate_index: u8,
    frames: usize,
    channels: usize,
    name_bytes: &[u8],
    counter: u32,
    bit_format: VBanBitFormat,
    samples: &[S],
    from: usize,
    to: usize,
    quantise: &Q,
) -> (packet: Vec<u8>)
    requires
        is_binary(*quantise),
        0 < frames <= 256,
        0 < channels <= 256,
        name_bytes@.len() <= 16,
        from <= to <= samples@.len(),
    ensures
        packet@ == header_bytes(
            HeaderModel {
                format_sr: rate_index,
                format_nbs: (frames - 1) as u8,
                format_nbc: (channels - 1) as u8,
                format_bit: bit_format_index(bit_format),
                stream_name: name_bytes@ + Seq::new((16 - name_bytes@.len()) as nat, |i: int| 0u8),
                nu_frame: counter,
            },
        ) + wire_samples(
            bit_format,
            quantised(*quantise, bit_format, samples@.subrange(from as int, to as int)),
        ),
{
    let header = VBanHeader {
        format_sr: rate_index,
        format_nbs: (frames - 1) as u8,
        format_nbc: (channels - 1) as u8,
        format_bit: bit_format.index(),
        stream_name: padded_name(name_bytes),
        nu_frame: counter,
    };
    let mut bytes = [0u8; 28];
    header.encode_into(&mut bytes);
    let mut packet: Vec<u8> = Vec::new();
    for k in 0usize..28
        invariant
            packet@ =~= bytes@.take(k as int),
    {
        packet.push(bytes[k]);
    }
    assert(packet@ =~= header_bytes(header@));
    encode_samples(samples, from, to, bit_format, quantise, &mut packet);
    packet
}

/// The counter of one stream.
struct StreamCounter {
    name: String,
    next: u32,
}

/// The next frame of the stream `name` among `counters`; a stream starts at 0.
spec fn counter_of(counters: Seq<StreamCounter>, name: Seq<char>) -> u32
    decreases counters.len(),
{
    if counters.len() == 0 {
        0
    } else if counters[0].name@ == name {
        counters[0].next
    } else {
        counter_of(counters.skip(1), name)
    }
}

proof fn lemma_counter_at(counters: Seq<StreamCounter>, name: Seq<char>, i: int)
    requires
        0 <= i < counters.len(),
        counters[i].name@ == name,
        forall|j: int| 0 <= j < i ==> (#[trigger] counters[j]).name@ != name,
    ensures
        counter_of(counters, name) == counters[i].next,
    decreases i,
{
    if i > 0 {
        let rest = counters.skip(1);
        assert(counters[0].name@ != name);
        assert forall|j: int| 0 <= j < i - 1 implies (#[trigger] rest[j]).name@ != name by {
            assert(rest[j] == counters[j + 1]);
        }
        lemma_counter_at(rest, name, i - 1);
    }
}

proof fn lemma_counter_absent(counters: Seq<StreamCounter>, name: Seq<char>)
    requires
        forall|j: int| 0 <= j < counters.len() ==> (#[trigger] counters[j]).name@ != name,
    ensures
        counter_of(counters, name) == 0,
    decreases counters.len(),
{
    if counters.len() > 0 {
        assert(counters[0].name@ != name);
        let rest = counters.skip(1);
        assert forall|j: int| 0 <= j < rest.len() implies (#[trigger] rest[j]).name@ != name by {
            assert(rest[j] == counters[j + 1]);
        }
        lemma_counter_absent(rest, name);
    }
}

proof fn lemma_counter_other(
    before: Seq<StreamCounter>,
    after: Seq<StreamCounter>,
    name: Seq<char>,
    other: Seq<char>,
)
    requires
        other != name,
        before.len() <= after.len() <= before.len() + 1,
        forall|j: int|
            0 <= j < before.len() ==> (#[trigger] after[j]).name@ == before[j].name@ && (
            before[j].name@ != name ==> after[j].next == before[j].next),
        after.len() == before.len() + 1 ==> after[before.len() as int].name@ == name,
    ensures
        counter_of(after, other) == counter_of(before, other),
    decreases before.len(),
{
    reveal_with_fuel(counter_of, 2);
    if before.len() > 0 {
        assert(after[0].name@ == before[0].name@);
        let b = before.skip(1);
        let a = after.skip(1);
        assert forall|j: int| 0 <= j < b.len() implies (#[trigger] a[j]).name@ == b[j].name@ && (
        b[j].name@ != name ==> a[j].next == b[j].next) by {
            assert(a[j] == after[j + 1] && b[j] == before[j + 1]);
        }
        lemma_counter_other(b, a, name, other);
    } else if after.len() > 0 {
        assert(after.skip(1).len() == 0);
    }
}

/// Cuts blocks into packets and counts the frames of every stream.
pub struct VBanSender {
    counters: Vec<StreamCounter>,
}

impl VBanSender {
    /// The counter that the next packet of the stream `name` carries.
    pub closed spec fn next_frame(self, name: Seq<char>) -> u32 {
        counter_of(self.counters@, name)
    }

    /// A sender that has sent nothing.
    pub fn new() -> (sender: Self)
        ensures
            forall|name: Seq<char>| #[trigger] sender.next_frame(name) == 0,
    {
        VBanSender { counters: Vec::new() }
    }

    fn find(&self, name: &str) -> (found: Option<usize>)
        ensures
            match found {
                Some(i) => i < self.counters@.len() && self.counters@[i as int].name@ == name@
                    && self.counters@[i as int].next == self.next_frame(name@) && forall|j: int|
                    0 <= j < i ==> (#[trigger] self.counters@[j]).name@ != name@,
                None => self.next_frame(name@) == 0 && forall|j: int|
                    0 <= j < self.counters@.len() ==> (#[trigger] self.counters@[j]).name@ != name@,
            },
    {
        let wanted = name.to_owned();
        for i in 0..self.counters.len()
            invariant
                wanted@ == name@,
                forall|j: int| 0 <= j < i ==> (#[trigger] self.counters@[j]).name@ != name@,
        {
            if self.counters[i].name == wanted {
                proof {
                    lemma_counter_at(self.counters@, name@, i as int);
                }
                return Some(i);
            }
        }
        proof {
            lemma_counter_absent(self.counters@, name@);
        }
        None
    }

    /// The packets that send a block of interleaved samples. Each is full but the last,
    /// and the packets count on from the stream's counter.
    #[verifier::rlimit(40)]
    #[verifier::spinoff_prover]
    pub fn frame_packets<S: Copy, Q: Fn(S, VBanBitFormat) -> u32>(
        &self,
        stream_name: &str,
        sample_rate: u32,
        channels: usize,
        bit_format: VBanBitFormat,
        samples: &[S],
        quantise: &Q,
    ) -> (result: Result<Vec<Vec<u8>>, VBanSendError>)
        requires
            is_binary(*quantise),
        ensures
            ({
                let settings = BlockSettings {
                    stream_name: stream_name@,
                    sample_rate,
                    channels: channels as nat,
                    bit_format,
                };
                match result {
                    Ok(packets) => {
                        &&& settings.fault(samples@.len()) is None
                        &&& packet_list(packets@) == Seq::new(
                            settings.packet_count(
                                (samples@.len() as int / channels as int) as nat,
                            ),
                            |i: int|
                                settings.packet(
                                    quantised(*quantise, bit_format, samples@),
                                    i,
                                    self.next_frame(stream_name@),
                                ),
                        )
                    },
                    Err(e) => settings.fault(samples@.len()) == Some(e@),
                }
            }),
    {
        let ghost settings = BlockSettings {
            stream_name: stream_name@,
            sample_rate,
            channels: channels as nat,
            bit_format,
        };
        if channels == 0 {
            return Err(VBanSendError::ZeroChannels);
        }
        if samples.len() % channels != 0 || samples.len() == 0 {
            return Err(VBanSendError::InvalidSampleCount(samples.len()));
        }
        let name_bytes = stream_name.as_bytes();
        if name_bytes.len() == 0 || name_bytes.len() > VBAN_STREAM_NAME_SIZE {
            return Err(VBanSendError::InvalidStreamName(stream_name.to_owned()));
        }
        let rate_index = match sample_rate_to_index(sample_rate) {
            Some(index) => index,
            None => {
                return Err(VBanSendError::UnsupportedSampleRate(sample_rate));
            },
        };
        proof {
            lemma_rate_index(settings, rate_index);
            assert(known_sample_rate(sample_rate));
        }
        let per_packet = match max_samples_per_channel(channels, bit_format.bytes_per_sample()) {
            Some(frames) => frames,
            None => {
                return Err(VBanSendError::InvalidPacketCapacity);
            },
        };
        if per_packet == 0 || channels > 256 {
            return Err(VBanSendError::InvalidPacketCapacity);
        }
        let ghost numbers = quantised(*quantise, bit_format, samples@);
        let ghost pf = per_packet as int;
        let ghost ch = channels as int;
        let first_frame = match self.find(stream_name) {
            Some(i) => self.counters[i].next,
            None => 0,
        };
        let total = samples.len() / channels;
        proof {
            lemma_fundamental_div_mod(samples@.len() as int, ch);
            assert(total * ch == samples@.len()) by (nonlinear_arith)
                requires
                    samples@.len() == ch * total + samples@.len() as int % ch,
                    samples@.len() as int % ch == 0,
            ;
            assert(total > 0) by (nonlinear_arith)
                requires
                    total * ch == samples@.len(),
                    samples@.len() > 0,
                    ch > 0,
            ;
        }
        let mut packets: Vec<Vec<u8>> = Vec::new();
        let mut offset: usize = 0;
        let mut counter: u32 = first_frame;
        let ghost count = settings.packet_count(total as nat);
        proof {
            lemma_packet_count(settings, total as nat);
        }
        while offset < total
            invariant
                is_binary(*quantise),
                settings == (BlockSettings {
                    stream_name: stream_name@,
                    sample_rate,
                    channels: channels as nat,
                    bit_format,
                }),
                settings.packet_frames() == per_packet,
                settings.rate_index() == rate_index,
                name_bytes@ == encode_utf8(stream_name@),
                name_bytes@.len() <= 16,
                numbers == quantised(*quantise, bit_format, samples@),
                0 < per_packet <= 256,
                pf == per_packet,
                ch == channels,
                0 < channels <= 256,
                total * ch == samples@.len() <= usize::MAX,
                total == samples@.len() as int / ch,
                count == settings.packet_count(total as nat),
                (count - 1) * pf < total <= count * pf,
                packets@.len() <= count,
                if packets@.len() < count {
                    offset == packets@.len() * pf
                } else {
                    offset == total
                },
                offset <= total,
                counter == wrapped(first_frame + packets@.len()),
                packets@.len() <= offset,
                packet_list(packets@) =~= Seq::new(
                    packets@.len(),
                    |i: int| settings.packet(numbers, i, first_frame),
                ),
            decreases total - offset,
        {
            let ghost i = packets@.len() as int;
            let ghost earlier = packets@;
            let rest: usize = total - offset;
            let frames = if rest <= per_packet {
                rest
            } else {
                per_packet
            };
            proof {
                assert((i + 1) * pf == i * pf + pf) by (nonlinear_arith);
                assert(frames == settings.frames_of(total as nat, i));
                assert(0 <= offset * ch && (offset + frames) * ch <= total * ch && (offset
                    + frames) * ch == offset * ch + frames * ch) by (nonlinear_arith)
                    requires
                        0 <= offset,
                        offset + frames <= total,
                        0 <= frames,
                        ch > 0,
                ;
            }
            let from: usize = offset * channels;
            let to: usize = (offset + frames) * channels;
            let packet = build_packet(
                rate_index,
                frames,
                channels,
                name_bytes,
                counter,
                bit_format,
                samples,
                from,
                to,
                quantise,
            );
            proof {
                assert(quantised(
                    *quantise,
                    bit_format,
                    samples@.subrange(from as int, to as int),
                ) =~= numbers.subrange(from as int, to as int));
                assert(i * settings.packet_frames() * settings.channels == from) by {
                    assert(offset == i * pf);
                }
                assert(packet@ == settings.packet(numbers, i, first_frame));
            }
            packets.push(packet);
            counter = counter.wrapping_add(1);
            offset = offset + frames;
            proof {
                assert(packet_list(packets@) =~= packet_list(earlier).push(packet@));
                if i + 1 < count {
                    assert((i + 1) * pf <= (count - 1) * pf) by (nonlinear_arith)
                        requires
                            i + 1 <= count - 1,
                            pf > 0,
                    ;
                } else {
                    assert(i + 1 == count);
                }
                assert(packets@.len() <= offset);
            }
        }
        assert(packets@.len() == count) by {
            if packets@.len() < count {
                assert(packets@.len() * pf <= (count - 1) * pf) by (nonlinear_arith)
                    requires
                        packets@.len() <= count - 1,
                        pf > 0,
                ;
            }
        }
        Ok(packets)
    }

    /// Counts `sent` packets of a stream.
    pub fn mark_sent(&mut self, stream_name: &str, sent: usize)
        ensures
            final(self).next_frame(stream_name@) == wrapped(
                old(self).next_frame(stream_name@) + sent,
            ),
            forall|other: Seq<char>|
                other != stream_name@ ==> #[trigger] final(self).next_frame(other)
                    == old(self).next_frame(other),
    {
        let ghost before = self.counters@;
        let step: u32 = (sent as u64 % 0x1_0000_0000) as u32;
        let ghost start = self.next_frame(stream_name@);
        match self.find(stream_name) {
            Some(i) => {
                let next = self.counters[i].next.wrapping_add(step);
                assert(next == wrapped(start + sent));
                let name = self.counters[i].name.clone();
                self.counters.set(i, StreamCounter { name, next });
                proof {
                    lemma_counter_at(self.counters@, stream_name@, i as int);
                    assert forall|other: Seq<char>|
                        other != stream_name@ implies #[trigger] self.next_frame(other)
                        == counter_of(before, other) by {
                        lemma_counter_other(before, self.counters@, stream_name@, other);
                    }
                }
            },
            None => {
                assert(step == wrapped(start + sent));
                self.counters.push(StreamCounter { name: stream_name.to_owned(), next: step });
                proof {
                    lemma_counter_at(self.counters@, stream_name@, before.len() as int);
                    assert forall|other: Seq<char>|
                        other != stream_name@ implies #[trigger] self.next_frame(other)
                        == counter_of(before, other) by {
                        lemma_counter_other(before, self.counters@, stream_name@, other);
                    }
                }
            },
        }
    }
}

/// A sample rate that a header can name has an index below 20.
pub proof fn lemma_known_rate(settings: BlockSettings)
    requires
        known_sample_rate(settings.sample_rate),
    ensures
        settings.rate_index() < 20,
{
    let i = choose|i: int| 0 <= i < 20 && #[trigger] SAMPLE_RATE_INDEX_TO_HZ@[i]
        == settings.sample_rate;
    lemma_rate_index(settings, i as u8);
}

/// The packets of a block lie inside the block, and none is empty or too long.
pub proof fn lemma_packet_bounds(settings: BlockSettings, samples: nat, i: int)
    requires
        settings.fault(samples) is None,
        0 <= i < settings.packet_count((samples as int / settings.channels as int) as nat),
    ensures
        ({
            let frames = (samples as int / settings.channels as int) as nat;
            let per = settings.frames_of(frames, i);
            let from = i * settings.packet_frames() * settings.channels;
            &&& 0 < per <= 256
            &&& 0 <= from
            &&& from + per * settings.channels <= samples
        }),
{
    let ch = settings.channels as int;
    let pf = settings.packet_frames() as int;
    let frames = (samples as int / ch) as nat;
    lemma_fundamental_div_mod(samples as int, ch);
    assert(frames * ch == samples) by (nonlinear_arith)
        requires
            samples == ch * frames + samples as int % ch,
            samples as int % ch == 0,
    ;
    assert(frames > 0) by (nonlinear_arith)
        requires
            frames * ch == samples,
            samples > 0,
            ch > 0,
    ;
    lemma_packet_count(settings, frames);
    let count = settings.packet_count(frames);
    let per = settings.frames_of(frames, i);
    assert(i * pf <= (count - 1) * pf && 0 <= i * pf && (i + 1) * pf == i * pf + pf) by (nonlinear_arith)
        requires
            0 <= i <= count - 1,
            pf > 0,
    ;
    assert(0 <= i * pf * ch && i * pf * ch + per * ch <= frames * ch) by (nonlinear_arith)
        requires
            0 <= i * pf,
            i * pf + per <= frames,
            0 < per,
            ch > 0,
    ;
}

} // verus!
