//! Conversion between the native samples of an endpoint and interleaved stereo.
//!
//! Samples are bit patterns of IEEE-754 singles. Sums and products of them are made by
//! operations that the caller hands in.

pub mod laws;

use crate::arithmetic::{binary, call_binary, call_unary, is_binary, is_unary, unary};
use crate::decibels::{is_finite, is_negative, unsigned_part};
use crate::windows::endpoint::{le_u16, le_u32, EndpointFormat};
use vstd::prelude::*;

verus! {

/// How the samples of an endpoint are encoded.
#[derive(Clone, Copy, Debug, PartialEq, Eq, Structural)]
pub enum SampleEncoding {
    Float32,
    Pcm16,
}

/// Why samples cannot be converted.
#[derive(Clone, Copy, Debug, PartialEq, Eq, Structural)]
pub enum ConversionError {
    UnsupportedFormat,
    InputLength,
    OutputLength,
}

/// The encoding of a format. A format that claims to be both of floats and of integers
/// has none.
pub open spec fn encoding_of(format: EndpointFormat) -> Option<SampleEncoding> {
    if format.is_float && !format.is_pcm && format.bits_per_sample == 32 {
        Some(SampleEncoding::Float32)
    } else if format.is_pcm && !format.is_float && format.bits_per_sample == 16 {
        Some(SampleEncoding::Pcm16)
    } else {
        None
    }
}

/// The encoding of a format.
pub fn encoding(format: EndpointFormat) -> (encoding: Option<SampleEncoding>)
    ensures
        encoding == encoding_of(format),
{
    if format.is_float && !format.is_pcm && format.bits_per_sample == 32 {
        Some(SampleEncoding::Float32)
    } else if format.is_pcm && !format.is_float && format.bits_per_sample == 16 {
        Some(SampleEncoding::Pcm16)
    } else {
        None
    }
}

/// The bytes of a sample.
pub open spec fn sample_bytes(encoding: SampleEncoding) -> int {
    match encoding {
        SampleEncoding::Float32 => 4,
        SampleEncoding::Pcm16 => 2,
    }
}

/// Whether the speaker at a position is in the mask.
pub open spec fn has_speaker(mask: nat, position: nat) -> bool
    decreases position,
{
    if position == 0 {
        mask % 2 == 1
    } else {
        has_speaker(mask / 2, (position - 1) as nat)
    }
}

/// The speakers of the mask before a position.
pub open spec fn speakers_before(mask: nat, position: nat) -> nat
    decreases position,
{
    if position == 0 {
        0
    } else {
        mask % 2 + speakers_before(mask / 2, (position - 1) as nat)
    }
}

/// The channel of a speaker: channels stand in the order of their speakers.
pub open spec fn channel_of(mask: u32, position: nat, channels: nat) -> Option<nat> {
    if has_speaker(mask as nat, position) && speakers_before(mask as nat, position) < channels {
        Some(speakers_before(mask as nat, position))
    } else {
        None
    }
}

/// The channel of a speaker.
pub fn channel_index(mask: u32, position: u32, channels: usize) -> (channel: Option<usize>)
    requires
        position < 16,
    ensures
        match channel {
            Some(channel) => channel_of(mask, position as nat, channels as nat) == Some(
                channel as nat,
            ),
            None => channel_of(mask, position as nat, channels as nat) is None,
        },
{
    let mut rest = mask;
    let mut before: usize = 0;
    for passed in 0..position
        invariant
            position < 16,
            before <= passed,
            before + speakers_before(rest as nat, (position - passed) as nat) == speakers_before(
                mask as nat,
                position as nat,
            ),
            has_speaker(rest as nat, (position - passed) as nat) == has_speaker(
                mask as nat,
                position as nat,
            ),
    {
        if rest % 2 == 1 {
            before = before + 1;
        }
        rest = rest / 2;
    }
    if rest % 2 == 1 && before < channels {
        Some(before)
    } else {
        None
    }
}

/// How much of a speaker goes into the side it is mixed to.
#[derive(Clone, Copy, Debug, PartialEq, Eq, Structural)]
pub enum Weight {
    /// A front speaker.
    Full,
    /// The centre: the square root of one half.
    Center,
    /// A speaker behind or beside the listener: one half.
    Surround,
}

/// A channel that is mixed to a side.
#[derive(Clone, Copy, Debug, PartialEq, Eq, Structural)]
pub struct Tap {
    pub channel: usize,
    pub weight: Weight,
}

/// What the weights of a side add up to: 1 for its front speaker, and what else there is.
#[derive(Clone, Copy, Debug, PartialEq, Eq, Structural)]
pub struct WeightSum {
    pub center: bool,
    pub surrounds: u8,
}

/// The tap of a speaker, where the format has it.
pub open spec fn tap_of(format: EndpointFormat, position: nat, weight: Weight) -> Seq<Tap> {
    match channel_of(format.channel_mask, position, format.channels as nat) {
        Some(channel) => seq![Tap { channel: channel as usize, weight }],
        None => Seq::empty(),
    }
}

/// What is mixed to a side, 0 for the left and 1 for the right: its front speaker, the
/// centre, the speaker behind and the one beside the listener. A format that does not name
/// its front speakers has them first. A single channel goes to both sides.
pub open spec fn taps_of(format: EndpointFormat, side: nat) -> Seq<Tap> {
    if format.channels == 1 {
        seq![Tap { channel: 0, weight: Weight::Full }]
    } else {
        seq![
            Tap {
                channel: match channel_of(format.channel_mask, side, format.channels as nat) {
                    Some(channel) => channel as usize,
                    None => side as usize,
                },
                weight: Weight::Full,
            },
        ] + tap_of(format, 2, Weight::Center) + tap_of(format, 4 + side, Weight::Surround) + tap_of(
            format,
            9 + side,
            Weight::Surround,
        )
    }
}

/// The weights of the taps.
pub open spec fn weights_of(taps: Seq<Tap>) -> WeightSum
    decreases taps.len(),
{
    if taps.len() == 0 {
        WeightSum { center: false, surrounds: 0 }
    } else {
        let rest = weights_of(taps.drop_last());
        match taps.last().weight {
            Weight::Full => rest,
            Weight::Center => WeightSum { center: true, ..rest },
            Weight::Surround => WeightSum { surrounds: (rest.surrounds + 1) as u8, ..rest },
        }
    }
}

/// The operations that decoding makes.
pub struct DecodeOps<P, W, A, N> {
    /// The number of an integer sample, 32768 being 1.
    pub pcm: P,
    /// A sample times a weight.
    pub weigh: W,
    /// The sum of two samples.
    pub add: A,
    /// A sample divided by what weights add up to.
    pub normalize: N,
}

/// What the operations of a `DecodeOps` give.
pub struct DecodeArithmetic {
    pub pcm: spec_fn(i16) -> u32,
    pub weigh: spec_fn(u32, Weight) -> u32,
    pub add: spec_fn(u32, u32) -> u32,
    pub normalize: spec_fn(u32, WeightSum) -> u32,
}

/// Every operation is defined everywhere and gives one result.
pub open spec fn decode_ops_are_functions<
    P: Fn(i16) -> u32,
    W: Fn(u32, Weight) -> u32,
    A: Fn(u32, u32) -> u32,
    N: Fn(u32, WeightSum) -> u32,
>(ops: DecodeOps<P, W, A, N>) -> bool {
    &&& is_unary::<i16, u32, P>(ops.pcm)
    &&& is_binary::<u32, Weight, u32, W>(ops.weigh)
    &&& is_binary::<u32, u32, u32, A>(ops.add)
    &&& is_binary::<u32, WeightSum, u32, N>(ops.normalize)
}

/// The results of the operations.
pub open spec fn decode_arithmetic<
    P: Fn(i16) -> u32,
    W: Fn(u32, Weight) -> u32,
    A: Fn(u32, u32) -> u32,
    N: Fn(u32, WeightSum) -> u32,
>(ops: DecodeOps<P, W, A, N>) -> DecodeArithmetic {
    DecodeArithmetic {
        pcm: |a: i16| unary(ops.pcm, a),
        weigh: |a: u32, b: Weight| binary(ops.weigh, a, b),
        add: |a: u32, b: u32| binary(ops.add, a, b),
        normalize: |a: u32, b: WeightSum| binary(ops.normalize, a, b),
    }
}

/// The integer that sixteen bits encode in two's complement.
pub open spec fn signed_16(number: int) -> int {
    if number >= 0x8000 {
        number - 0x1_0000
    } else {
        number
    }
}

/// The sample at an index of the native samples. An infinity or a NaN is silence.
pub open spec fn native_sample(
    encoding: SampleEncoding,
    input: Seq<u8>,
    index: int,
    math: DecodeArithmetic,
) -> u32 {
    match encoding {
        SampleEncoding::Float32 => {
            let bits = le_u32(input, 4 * index) as u32;
            if is_finite(bits) {
                bits
            } else {
                0
            }
        },
        SampleEncoding::Pcm16 => (math.pcm)(signed_16(le_u16(input, 2 * index)) as i16),
    }
}

/// A tap of a frame, weighed.
pub open spec fn weighed_sample(sample: u32, weight: Weight, math: DecodeArithmetic) -> u32 {
    match weight {
        Weight::Full => sample,
        _ => (math.weigh)(sample, weight),
    }
}

/// The sum of the taps of a frame whose first sample has the index `base`.
pub open spec fn mixed_taps(
    encoding: SampleEncoding,
    input: Seq<u8>,
    base: int,
    taps: Seq<Tap>,
    math: DecodeArithmetic,
) -> u32
    decreases taps.len(),
{
    if taps.len() == 0 {
        0
    } else {
        (math.add)(
            mixed_taps(encoding, input, base, taps.drop_last(), math),
            weighed_sample(
                native_sample(encoding, input, base + taps.last().channel, math),
                taps.last().weight,
                math,
            ),
        )
    }
}

/// One side of a decoded frame.
pub open spec fn decoded_sample(
    format: EndpointFormat,
    encoding: SampleEncoding,
    input: Seq<u8>,
    frame: int,
    side: nat,
    math: DecodeArithmetic,
) -> u32 {
    let taps = taps_of(format, side);
    let base = frame * format.channels;
    let sum = if format.channels == 1 {
        native_sample(encoding, input, base, math)
    } else {
        mixed_taps(encoding, input, base, taps, math)
    };
    (math.normalize)(sum, weights_of(taps))
}

/// Why so many frames cannot be decoded, if they cannot.
pub open spec fn decode_fault(
    format: EndpointFormat,
    input: nat,
    frames: nat,
    output: nat,
) -> Option<ConversionError> {
    if format.channels == 0 || output < frames * 2 {
        Some(ConversionError::OutputLength)
    } else {
        match encoding_of(format) {
            None => Some(ConversionError::UnsupportedFormat),
            Some(encoding) => if input < frames * format.channels * sample_bytes(encoding) {
                Some(ConversionError::InputLength)
            } else {
                None
            },
        }
    }
}

/// The samples after decoding: two for each frame, and what was there behind them.
pub open spec fn decoded(
    format: EndpointFormat,
    encoding: SampleEncoding,
    input: Seq<u8>,
    frames: nat,
    output: Seq<u32>,
    math: DecodeArithmetic,
) -> Seq<u32> {
    Seq::new(
        output.len(),
        |i: int|
            if i < frames * 2 {
                decoded_sample(format, encoding, input, i / 2, (i % 2) as nat, math)
            } else {
                output[i]
            },
    )
}

fn push_tap(taps: &mut Vec<Tap>, format: EndpointFormat, position: u32, weight: Weight)
    requires
        position < 16,
    ensures
        final(taps)@ == old(taps)@ + tap_of(format, position as nat, weight),
{
    let ghost before = taps@;
    if let Some(channel) = channel_index(format.channel_mask, position, format.channels as usize) {
        taps.push(Tap { channel, weight });
    }
    assert(taps@ =~= before + tap_of(format, position as nat, weight));
}

/// What is mixed to a side, 0 for the left and 1 for the right.
pub fn side_taps(format: EndpointFormat, side: u32) -> (taps: Vec<Tap>)
    requires
        side < 2,
        format.channels > 0,
    ensures
        taps@ == taps_of(format, side as nat),
        forall|i: int| 0 <= i < taps@.len() ==> (#[trigger] taps@[i]).channel < format.channels,
{
    let mut taps: Vec<Tap> = Vec::new();
    if format.channels == 1 {
        taps.push(Tap { channel: 0, weight: Weight::Full });
        return taps;
    }
    let channel = match channel_index(format.channel_mask, side, format.channels as usize) {
        Some(channel) => channel,
        None => side as usize,
    };
    taps.push(Tap { channel, weight: Weight::Full });
    push_tap(&mut taps, format, 2, Weight::Center);
    push_tap(&mut taps, format, 4 + side, Weight::Surround);
    push_tap(&mut taps, format, 9 + side, Weight::Surround);
    taps
}

fn sum_weights(taps: &Vec<Tap>) -> (sum: WeightSum)
    requires
        taps@.len() < 256,
    ensures
        sum == weights_of(taps@),
{
    let mut sum = WeightSum { center: false, surrounds: 0 };
    for i in 0..taps.len()
        invariant
            taps@.len() < 256,
            sum.surrounds <= i,
            sum == weights_of(taps@.take(i as int)),
    {
        assert(taps@.take(i + 1).drop_last() =~= taps@.take(i as int));
        match taps[i].weight {
            Weight::Full => {},
            Weight::Center => {
                sum.center = true;
            },
            Weight::Surround => {
                sum.surrounds = sum.surrounds + 1;
            },
        }
    }
    assert(taps@.take(taps@.len() as int) =~= taps@);
    sum
}

fn to_i16(low: u8, high: u8) -> (number: i16)
    ensures
        number == signed_16(low + 0x100 * high),
{
    let unsigned = low as i32 + 0x100 * (high as i32);
    if unsigned >= 0x8000 {
        (unsigned - 0x1_0000) as i16
    } else {
        unsigned as i16
    }
}

fn read_sample<P: Fn(i16) -> u32, W: Fn(u32, Weight) -> u32, A: Fn(u32, u32) -> u32, N: Fn(
    u32,
    WeightSum,
) -> u32>(encoding: SampleEncoding, input: &[u8], index: usize, ops: &DecodeOps<P, W, A, N>) -> (bits:
    u32)
    requires
        decode_ops_are_functions(*ops),
        (index + 1) * sample_bytes(encoding) <= input@.len() <= usize::MAX,
    ensures
        bits == native_sample(encoding, input@, index as int, decode_arithmetic(*ops)),
{
    match encoding {
        SampleEncoding::Float32 => {
            let at = 4 * index;
            let bits = input[at] as u32 + 0x100 * input[at + 1] as u32 + 0x1_0000 * input[at
                + 2] as u32 + 0x100_0000 * input[at + 3] as u32;
            if bits % 0x8000_0000 < 0x7f80_0000 {
                bits
            } else {
                0
            }
        },
        SampleEncoding::Pcm16 => {
            let at = 2 * index;
            call_unary(&ops.pcm, to_i16(input[at], input[at + 1]))
        },
    }
}

fn decode_side<P: Fn(i16) -> u32, W: Fn(u32, Weight) -> u32, A: Fn(u32, u32) -> u32, N: Fn(
    u32,
    WeightSum,
) -> u32>(
    format: EndpointFormat,
    encoding: SampleEncoding,
    input: &[u8],
    frame: usize,
    side: u32,
    taps: &Vec<Tap>,
    weights: WeightSum,
    ops: &DecodeOps<P, W, A, N>,
) -> (bits: u32)
    requires
        decode_ops_are_functions(*ops),
        side < 2,
        format.channels > 0,
        taps@ == taps_of(format, side as nat),
        forall|i: int| 0 <= i < taps@.len() ==> (#[trigger] taps@[i]).channel < format.channels,
        weights == weights_of(taps@),
        (frame + 1) * format.channels * sample_bytes(encoding) <= input@.len() <= usize::MAX,
    ensures
        bits == decoded_sample(
            format,
            encoding,
            input@,
            frame as int,
            side as nat,
            decode_arithmetic(*ops),
        ),
{
    let ghost math = decode_arithmetic(*ops);
    let channels = format.channels as usize;
    assert((frame + 1) * channels <= (frame + 1) * channels * sample_bytes(encoding)
        && frame * channels + channels == (frame + 1) * channels) by (nonlinear_arith)
        requires
            sample_bytes(encoding) >= 1,
            frame >= 0,
            channels >= 0,
    ;
    let base = frame * channels;
    if channels == 1 {
        let sample = read_sample(encoding, input, base, ops);
        return call_binary(&ops.normalize, sample, weights);
    }
    let mut sum: u32 = 0;
    for i in 0..taps.len()
        invariant
            decode_ops_are_functions(*ops),
            math == decode_arithmetic(*ops),
            base + channels <= usize::MAX,
            channels == format.channels,
            (base + channels) * sample_bytes(encoding) <= input@.len() <= usize::MAX,
            forall|i: int| 0 <= i < taps@.len() ==> (#[trigger] taps@[i]).channel < channels,
            sum == mixed_taps(encoding, input@, base as int, taps@.take(i as int), math),
    {
        let tap = taps[i];
        assert(taps@[i as int].channel < channels);
        assert((base + tap.channel + 1) * sample_bytes(encoding) <= (base + channels)
            * sample_bytes(encoding)) by (nonlinear_arith)
            requires
                tap.channel < channels,
                sample_bytes(encoding) >= 0,
        ;
        let sample = read_sample(encoding, input, base + tap.channel, ops);
        let weighed = match tap.weight {
            Weight::Full => sample,
            _ => call_binary(&ops.weigh, sample, tap.weight),
        };
        assert(taps@.take(i + 1).drop_last() =~= taps@.take(i as int));
        assert(taps@.take(i + 1).last() == tap);
        sum = call_binary(&ops.add, sum, weighed);
    }
    assert(taps@.take(taps@.len() as int) =~= taps@);
    call_binary(&ops.normalize, sum, weights)
}

/// Decodes `frames` frames of native samples to interleaved stereo, at the start of
/// `output`.
pub fn decode_to_stereo<P: Fn(i16) -> u32, W: Fn(u32, Weight) -> u32, A: Fn(u32, u32) -> u32, N: Fn(
    u32,
    WeightSum,
) -> u32>(
    format: EndpointFormat,
    input: &[u8],
    frames: usize,
    output: &mut Vec<u32>,
    ops: &DecodeOps<P, W, A, N>,
) -> (result: Result<(), ConversionError>)
    requires
        decode_ops_are_functions(*ops),
    ensures
        match result {
            Ok(_) => decode_fault(format, input@.len(), frames as nat, old(output)@.len()) is None
                && final(output)@ == decoded(
                format,
                encoding_of(format)->0,
                input@,
                frames as nat,
                old(output)@,
                decode_arithmetic(*ops),
            ),
            Err(e) => decode_fault(format, input@.len(), frames as nat, old(output)@.len()) == Some(
                e,
            ) && final(output)@ == old(output)@,
        },
{
    let ghost math = decode_arithmetic(*ops);
    let ghost before = output@;
    let channels = format.channels as usize;
    if channels == 0 || frames > output.len() / 2 {
        return Err(ConversionError::OutputLength);
    }
    let (encoding, width): (SampleEncoding, usize) = match encoding(format) {
        Some(SampleEncoding::Float32) => (SampleEncoding::Float32, 4),
        Some(SampleEncoding::Pcm16) => (SampleEncoding::Pcm16, 2),
        None => {
            return Err(ConversionError::UnsupportedFormat);
        },
    };
    let available = input.len();
    let samples = match frames.checked_mul(channels) {
        Some(samples) => samples,
        None => {
            proof {
                lemma_too_many(frames as int, channels as int, width as int, available as int);
            }
            return Err(ConversionError::InputLength);
        },
    };
    let expected = match samples.checked_mul(width) {
        Some(expected) => expected,
        None => {
            return Err(ConversionError::InputLength);
        },
    };
    if available < expected {
        return Err(ConversionError::InputLength);
    }
    let left_taps = side_taps(format, 0);
    let right_taps = side_taps(format, 1);
    let left_weights = sum_weights(&left_taps);
    let right_weights = sum_weights(&right_taps);
    for frame in 0..frames
        invariant
            decode_ops_are_functions(*ops),
            math == decode_arithmetic(*ops),
            channels == format.channels,
            channels > 0,
            available == input@.len(),
            width == sample_bytes(encoding),
            frames * channels * width <= available,
            left_taps@ == taps_of(format, 0),
            right_taps@ == taps_of(format, 1),
            left_weights == weights_of(left_taps@),
            right_weights == weights_of(right_taps@),
            forall|i: int|
                0 <= i < left_taps@.len() ==> (#[trigger] left_taps@[i]).channel < format.channels,
            forall|i: int|
                0 <= i < right_taps@.len() ==> (#[trigger] right_taps@[i]).channel
                    < format.channels,
            output@.len() == before.len(),
            frames * 2 <= before.len(),
            forall|i: int|
                0 <= i < output@.len() ==> #[trigger] output@[i] == decoded(
                    format,
                    encoding,
                    input@,
                    frame as nat,
                    before,
                    math,
                )[i],
    {
        assert((frame + 1) * channels * width <= frames * channels * width) by (nonlinear_arith)
            requires
                frame < frames,
                channels >= 0,
                width >= 0,
        ;
        let left = decode_side(format, encoding, input, frame, 0, &left_taps, left_weights, ops);
        let right = decode_side(format, encoding, input, frame, 1, &right_taps, right_weights, ops);
        assert(frame * 2 + 1 < output@.len());
        let room = output.len();
        assert(room == output@.len());
        output.set(frame * 2, left);
        output.set(frame * 2 + 1, right);
    }
    assert(output@ =~= decoded(format, encoding, input@, frames as nat, before, math));
    Ok(())
}

/// A product that is too large for the machine is larger than any length.
proof fn lemma_too_many(frames: int, channels: int, width: int, available: int)
    requires
        frames * channels > available,
        frames >= 0,
        channels >= 0,
        width >= 1,
    ensures
        frames * channels * width > available,
{
    assert(frames * channels * width >= frames * channels) by (nonlinear_arith)
        requires
            frames * channels >= 0,
            width >= 1,
    ;
}

/// The operations that encoding makes.
pub struct EncodeOps<V, Q> {
    /// The mean of two samples.
    pub average: V,
    /// The integer sample nearest to a number between -1 and 1.
    pub quantize: Q,
}

/// What the operations of an `EncodeOps` give.
pub struct EncodeArithmetic {
    pub average: spec_fn(u32, u32) -> u32,
    pub quantize: spec_fn(u32) -> i16,
}

/// Every operation is defined everywhere and gives one result.
pub open spec fn encode_ops_are_functions<V: Fn(u32, u32) -> u32, Q: Fn(u32) -> i16>(
    ops: EncodeOps<V, Q>,
) -> bool {
    &&& is_binary::<u32, u32, u32, V>(ops.average)
    &&& is_unary::<u32, i16, Q>(ops.quantize)
}

/// The results of the operations.
pub open spec fn encode_arithmetic<V: Fn(u32, u32) -> u32, Q: Fn(u32) -> i16>(
    ops: EncodeOps<V, Q>,
) -> EncodeArithmetic {
    EncodeArithmetic {
        average: |a: u32, b: u32| binary(ops.average, a, b),
        quantize: |a: u32| unary(ops.quantize, a),
    }
}

/// The sample that a channel of the endpoint gets. Only the front speakers are fed; a
/// format without a mask has them first, and a single channel gets the mean.
pub open spec fn channel_sample(
    mask: u32,
    channels: nat,
    channel: nat,
    left: u32,
    right: u32,
    math: EncodeArithmetic,
) -> u32 {
    if channels == 1 {
        (math.average)(left, right)
    } else if mask == 0 && channel == 0 {
        left
    } else if mask == 0 && channel == 1 {
        right
    } else if has_speaker(mask as nat, 0) && channel == 0 {
        left
    } else if has_speaker(mask as nat, 1) && channel == speakers_before(mask as nat, 1) {
        right
    } else {
        0
    }
}

/// A sample as the endpoint gets it: between -1 and 1, and silence for an infinity or a
/// NaN.
pub open spec fn clipped(bits: u32) -> u32 {
    if !is_finite(bits) {
        0
    } else if unsigned_part(bits) > 0x3f80_0000 {
        if is_negative(bits) {
            0xbf80_0000
        } else {
            0x3f80_0000
        }
    } else {
        bits
    }
}

/// The sixteen bits of an integer in two's complement.
pub open spec fn unsigned_16(number: int) -> int {
    if number < 0 {
        number + 0x1_0000
    } else {
        number
    }
}

/// The number whose bytes a sample is written as.
pub open spec fn encoded_number(
    encoding: SampleEncoding,
    bits: u32,
    math: EncodeArithmetic,
) -> int {
    match encoding {
        SampleEncoding::Float32 => clipped(bits) as int,
        SampleEncoding::Pcm16 => unsigned_16((math.quantize)(clipped(bits)) as int),
    }
}

/// A byte of a number, the least significant first.
pub open spec fn byte_of(number: int, index: int) -> u8 {
    (if index == 0 {
        number % 0x100
    } else if index == 1 {
        (number / 0x100) % 0x100
    } else if index == 2 {
        (number / 0x1_0000) % 0x100
    } else {
        (number / 0x100_0000) % 0x100
    }) as u8
}

/// A byte of the encoded frames.
pub open spec fn encoded_byte(
    format: EndpointFormat,
    encoding: SampleEncoding,
    input: Seq<u32>,
    index: int,
    math: EncodeArithmetic,
) -> u8 {
    let sample = index / sample_bytes(encoding);
    let frame = sample / format.channels as int;
    byte_of(
        encoded_number(
            encoding,
            channel_sample(
                format.channel_mask,
                format.channels as nat,
                (sample % format.channels as int) as nat,
                input[2 * frame],
                input[2 * frame + 1],
                math,
            ),
            math,
        ),
        index % sample_bytes(encoding),
    )
}

/// Why so many frames cannot be encoded, if they cannot.
pub open spec fn encode_fault(
    format: EndpointFormat,
    input: nat,
    frames: nat,
    output: nat,
) -> Option<ConversionError> {
    if input < frames * 2 {
        Some(ConversionError::InputLength)
    } else {
        match encoding_of(format) {
            None => Some(ConversionError::UnsupportedFormat),
            Some(encoding) => if output < frames * format.channels * sample_bytes(encoding) {
                Some(ConversionError::OutputLength)
            } else {
                None
            },
        }
    }
}

/// The bytes after encoding: those of the frames, and what was there behind them.
pub open spec fn encoded(
    format: EndpointFormat,
    encoding: SampleEncoding,
    input: Seq<u32>,
    samples: int,
    output: Seq<u8>,
    math: EncodeArithmetic,
) -> Seq<u8> {
    Seq::new(
        output.len(),
        |i: int|
            if i < samples * sample_bytes(encoding) {
                encoded_byte(format, encoding, input, i, math)
            } else {
                output[i]
            },
    )
}

fn output_sample<V: Fn(u32, u32) -> u32, Q: Fn(u32) -> i16>(
    mask: u32,
    channels: usize,
    channel: usize,
    left: u32,
    right: u32,
    ops: &EncodeOps<V, Q>,
) -> (bits: u32)
    requires
        encode_ops_are_functions(*ops),
    ensures
        bits == channel_sample(
            mask,
            channels as nat,
            channel as nat,
            left,
            right,
            encode_arithmetic(*ops),
        ),
{
    if channels == 1 {
        return call_binary(&ops.average, left, right);
    }
    if mask == 0 {
        proof {
            reveal_with_fuel(has_speaker, 2);
        }
        return if channel == 0 {
            left
        } else if channel == 1 {
            right
        } else {
            0
        };
    }
    proof {
        reveal_with_fuel(has_speaker, 2);
        reveal_with_fuel(speakers_before, 2);
    }
    let front_left = mask % 2 == 1;
    let front_right = mask / 2 % 2 == 1;
    let second: usize = if front_left {
        1
    } else {
        0
    };
    if front_left && channel == 0 {
        left
    } else if front_right && channel == second {
        right
    } else {
        0
    }
}

fn clip(bits: u32) -> (clip: u32)
    ensures
        clip == clipped(bits),
{
    let magnitude = bits % 0x8000_0000;
    if magnitude >= 0x7f80_0000 {
        0
    } else if magnitude > 0x3f80_0000 {
        if bits >= 0x8000_0000 {
            0xbf80_0000
        } else {
            0x3f80_0000
        }
    } else {
        bits
    }
}

fn number_of<V: Fn(u32, u32) -> u32, Q: Fn(u32) -> i16>(
    encoding: SampleEncoding,
    bits: u32,
    ops: &EncodeOps<V, Q>,
) -> (number: u32)
    requires
        encode_ops_are_functions(*ops),
    ensures
        number == encoded_number(encoding, bits, encode_arithmetic(*ops)),
{
    let sample = clip(bits);
    match encoding {
        SampleEncoding::Float32 => sample,
        SampleEncoding::Pcm16 => {
            let value = call_unary(&ops.quantize, sample);
            if value < 0 {
                (value as i32 + 0x1_0000) as u32
            } else {
                value as u32
            }
        },
    }
}

fn nth_byte(number: u32, index: usize) -> (byte: u8)
    requires
        index < 4,
    ensures
        byte == byte_of(number as int, index as int),
{
    if index == 0 {
        (number % 0x100) as u8
    } else if index == 1 {
        ((number / 0x100) % 0x100) as u8
    } else if index == 2 {
        ((number / 0x1_0000) % 0x100) as u8
    } else {
        ((number / 0x100_0000) % 0x100) as u8
    }
}

/// The index of a byte names its sample and its place in the sample.
proof fn lemma_byte_place(sample: int, place: int, width: int)
    requires
        0 <= place < width,
        0 <= sample,
    ensures
        (sample * width + place) / width == sample,
        (sample * width + place) % width == place,
{
    vstd::arithmetic::div_mod::lemma_fundamental_div_mod_converse(
        sample * width + place,
        width,
        sample,
        place,
    );
}

/// Encodes `frames` frames of interleaved stereo to native samples, at the start of
/// `output`.
pub fn encode_from_stereo<V: Fn(u32, u32) -> u32, Q: Fn(u32) -> i16>(
    format: EndpointFormat,
    input: &[u32],
    frames: usize,
    output: &mut Vec<u8>,
    ops: &EncodeOps<V, Q>,
) -> (result: Result<(), ConversionError>)
    requires
        encode_ops_are_functions(*ops),
    ensures
        match result {
            Ok(_) => encode_fault(format, input@.len(), frames as nat, old(output)@.len()) is None
                && final(output)@ == encoded(
                format,
                encoding_of(format)->0,
                input@,
                frames * format.channels,
                old(output)@,
                encode_arithmetic(*ops),
            ),
            Err(e) => encode_fault(format, input@.len(), frames as nat, old(output)@.len()) == Some(
                e,
            ) && final(output)@ == old(output)@,
        },
{
    let ghost math = encode_arithmetic(*ops);
    let ghost before = output@;
    if frames > input.len() / 2 {
        return Err(ConversionError::InputLength);
    }
    let channels = format.channels as usize;
    let (encoding, width): (SampleEncoding, usize) = match encoding(format) {
        Some(SampleEncoding::Float32) => (SampleEncoding::Float32, 4),
        Some(SampleEncoding::Pcm16) => (SampleEncoding::Pcm16, 2),
        None => {
            return Err(ConversionError::UnsupportedFormat);
        },
    };
    let available = output.len();
    let samples = match frames.checked_mul(channels) {
        Some(samples) => samples,
        None => {
            proof {
                lemma_too_many(frames as int, channels as int, width as int, available as int);
            }
            return Err(ConversionError::OutputLength);
        },
    };
    let expected = match samples.checked_mul(width) {
        Some(expected) => expected,
        None => {
            return Err(ConversionError::OutputLength);
        },
    };
    if available < expected {
        return Err(ConversionError::OutputLength);
    }
    let count = input.len();
    for sample in 0..samples
        invariant
            encode_ops_are_functions(*ops),
            math == encode_arithmetic(*ops),
            channels == format.channels,
            count == input@.len(),
            frames * 2 <= count,
            samples == frames * channels,
            width == sample_bytes(encoding),
            samples * width <= available,
            available == before.len(),
            output@ == encoded(format, encoding, input@, sample as int, before, math),
    {
        assert(channels > 0) by (nonlinear_arith)
            requires
                frames * channels > 0,
                channels >= 0,
        ;
        let frame = sample / channels;
        let channel = sample % channels;
        assert(frame < frames) by (nonlinear_arith)
            requires
                sample < frames * channels,
                channels > 0,
                frame == sample / channels,
        ;
        let bits = output_sample(
            format.channel_mask,
            channels,
            channel,
            input[2 * frame],
            input[2 * frame + 1],
            ops,
        );
        let number = number_of(encoding, bits, ops);
        let ghost written = output@;
        assert((sample + 1) * width <= samples * width && (sample + 1) * width == sample * width
            + width) by (nonlinear_arith)
            requires
                sample < samples,
                width >= 0,
        ;
        for place in 0..width
            invariant
                2 <= width <= 4,
                sample * width + width <= available,
                available == output@.len(),
                written.len() == output@.len(),
                forall|i: int|
                    0 <= i < output@.len() ==> #[trigger] output@[i] == if sample * width <= i
                        < sample * width + place {
                        byte_of(number as int, i - sample * width)
                    } else {
                        written[i]
                    },
        {
            assert(output@.len() == available);
            output.set(sample * width + place, nth_byte(number, place));
        }
        assert forall|i: int| 0 <= i < output@.len() implies #[trigger] output@[i] == encoded(
            format,
            encoding,
            input@,
            sample + 1,
            before,
            math,
        )[i] by {
            if sample * width <= i < sample * width + width {
                lemma_byte_place(sample as int, i - sample * width, width as int);
            }
        }
        assert(output@ =~= encoded(format, encoding, input@, sample + 1, before, math));
    }
    Ok(())
}

/// A sample that was encoded is read back as it was written: clipped, and rounded where
/// the endpoint has integers.
pub proof fn law_samples_read_back(
    format: EndpointFormat,
    encoding: SampleEncoding,
    input: Seq<u32>,
    frames: nat,
    output: Seq<u8>,
    index: nat,
    writing: EncodeArithmetic,
    reading: DecodeArithmetic,
)
    requires
        index < frames * format.channels,
        frames * format.channels * sample_bytes(encoding) <= output.len(),
    ensures
        ({
            let written = encoded(
                format,
                encoding,
                input,
                frames * format.channels,
                output,
                writing,
            );
            let frame = index as int / format.channels as int;
            let sample = clipped(
                channel_sample(
                    format.channel_mask,
                    format.channels as nat,
                    (index as int % format.channels as int) as nat,
                    input[2 * frame],
                    input[2 * frame + 1],
                    writing,
                ),
            );
            native_sample(encoding, written, index as int, reading) == match encoding {
                SampleEncoding::Float32 => sample,
                SampleEncoding::Pcm16 => (reading.pcm)((writing.quantize)(sample)),
            }
        }),
{
    let total = frames * format.channels;
    let written = encoded(format, encoding, input, total, output, writing);
    let frame = index as int / format.channels as int;
    let bits = channel_sample(
        format.channel_mask,
        format.channels as nat,
        (index as int % format.channels as int) as nat,
        input[2 * frame],
        input[2 * frame + 1],
        writing,
    );
    let number = encoded_number(encoding, bits, writing);
    lemma_encoded_at(format, encoding, input, total, output, index as int, 0, writing);
    lemma_encoded_at(format, encoding, input, total, output, index as int, 1, writing);
    match encoding {
        SampleEncoding::Float32 => {
            lemma_encoded_at(format, encoding, input, total, output, index as int, 2, writing);
            lemma_encoded_at(format, encoding, input, total, output, index as int, 3, writing);
            lemma_four_bytes(number);
            assert(le_u32(written, 4 * index as int) == number);
            assert(is_finite(clipped(bits)));
        },
        SampleEncoding::Pcm16 => {
            lemma_two_bytes(number);
            assert(le_u16(written, 2 * index as int) == number);
            assert(signed_16(number) == (writing.quantize)(clipped(bits)));
        },
    }
}

/// What a sample has become once it was written to an endpoint of two channels and read
/// from it.
pub open spec fn read_back(
    encoding: SampleEncoding,
    sample: u32,
    writing: EncodeArithmetic,
    reading: DecodeArithmetic,
) -> u32 {
    let native = match encoding {
        SampleEncoding::Float32 => clipped(sample),
        SampleEncoding::Pcm16 => (reading.pcm)((writing.quantize)(clipped(sample))),
    };
    (reading.normalize)((reading.add)(0, native), WeightSum { center: false, surrounds: 0 })
}

/// A format of two front speakers mixes each of its channels to its own side alone.
proof fn lemma_two_channels(format: EndpointFormat, side: nat)
    requires
        format.channels == 2,
        format.channel_mask == 0 || format.channel_mask == 3,
        side < 2,
    ensures
        taps_of(format, side) == seq![Tap { channel: side as usize, weight: Weight::Full }],
        weights_of(taps_of(format, side)) == (WeightSum { center: false, surrounds: 0 }),
{
    reveal_with_fuel(has_speaker, 12);
    reveal_with_fuel(speakers_before, 3);
    reveal_with_fuel(weights_of, 2);
    assert(taps_of(format, side) =~= seq![Tap { channel: side as usize, weight: Weight::Full }]);
}

/// A block that was written to an endpoint of two channels and is read from it holds each
/// sample as near as one sample comes back: what `near` says of every sample and what it is
/// read back as, it says of the block that was written and the block that was read.
pub proof fn law_stereo_block_reads_back(
    format: EndpointFormat,
    encoding: SampleEncoding,
    input: Seq<u32>,
    frames: nat,
    bytes: Seq<u8>,
    output: Seq<u32>,
    writing: EncodeArithmetic,
    reading: DecodeArithmetic,
    near: spec_fn(u32, u32) -> bool,
)
    requires
        encoding_of(format) == Some(encoding),
        format.channels == 2,
        format.channel_mask == 0 || format.channel_mask == 3,
        frames * 2 <= input.len(),
        frames * 2 * sample_bytes(encoding) <= bytes.len(),
        frames * 2 <= output.len(),
        forall|i: int|
            0 <= i < frames * 2 ==> #[trigger] near(
                input[i],
                read_back(encoding, input[i], writing, reading),
            ),
    ensures
        ({
            let written = encoded(
                format,
                encoding,
                input,
                frames * format.channels,
                bytes,
                writing,
            );
            let read = decoded(format, encoding, written, frames, output, reading);
            &&& encode_fault(format, input.len(), frames, bytes.len()) is None
            &&& decode_fault(format, written.len(), frames, output.len()) is None
            &&& forall|i: int| 0 <= i < frames * 2 ==> #[trigger] near(input[i], read[i])
        }),
{
    let written = encoded(format, encoding, input, frames * format.channels, bytes, writing);
    let read = decoded(format, encoding, written, frames, output, reading);
    assert forall|i: int| 0 <= i < frames * 2 implies #[trigger] near(input[i], read[i]) by {
        let (frame, side) = (i / 2, (i % 2) as nat);
        lemma_two_channels(format, side);
        law_samples_read_back(
            format,
            encoding,
            input,
            frames,
            bytes,
            i as nat,
            writing,
            reading,
        );
        reveal_with_fuel(mixed_taps, 2);
        reveal_with_fuel(has_speaker, 2);
        reveal_with_fuel(speakers_before, 2);
        let taps = taps_of(format, side);
        assert(taps.drop_last() =~= Seq::empty());
        assert(frame * format.channels + side == i);
        assert(near(input[i], read_back(encoding, input[i], writing, reading)));
    }
}

/// Four bytes make up the number that they were taken from.
pub(crate) proof fn lemma_four_bytes(number: int)
    requires
        0 <= number < 0x1_0000_0000,
    ensures
        byte_of(number, 0) + 0x100 * byte_of(number, 1) + 0x1_0000 * byte_of(number, 2)
            + 0x100_0000 * byte_of(number, 3) == number,
{
    let (a, b, c) = (number / 0x100, number / 0x1_0000, number / 0x100_0000);
    assert(number == 0x100 * a + number % 0x100);
    assert(a / 0x100 == b);
    assert(a == 0x100 * b + a % 0x100);
    assert(b / 0x100 == c);
    assert(b == 0x100 * c + b % 0x100);
    assert(c % 0x100 == c);
}

/// Two bytes make up the number that they were taken from.
pub(crate) proof fn lemma_two_bytes(number: int)
    requires
        0 <= number < 0x1_0000,
    ensures
        byte_of(number, 0) + 0x100 * byte_of(number, 1) == number,
{
}

/// A byte of an encoded sample.
pub(crate) proof fn lemma_encoded_at(
    format: EndpointFormat,
    encoding: SampleEncoding,
    input: Seq<u32>,
    samples: int,
    output: Seq<u8>,
    index: int,
    place: int,
    math: EncodeArithmetic,
)
    requires
        0 <= index < samples,
        0 <= place < sample_bytes(encoding),
        samples * sample_bytes(encoding) <= output.len(),
    ensures
        ({
            let frame = index / format.channels as int;
            let bits = channel_sample(
                format.channel_mask,
                format.channels as nat,
                (index % format.channels as int) as nat,
                input[2 * frame],
                input[2 * frame + 1],
                math,
            );
            encoded(format, encoding, input, samples, output, math)[sample_bytes(encoding) * index
                + place] == byte_of(encoded_number(encoding, bits, math), place)
        }),
{
    let width = sample_bytes(encoding);
    assert(0 <= index * width && index * width + width <= samples * width) by (nonlinear_arith)
        requires
            0 <= index < samples,
            width > 0,
    ;
    lemma_byte_place(index, place, width);
    assert(index * width == width * index) by (nonlinear_arith);
}

} // verus!
