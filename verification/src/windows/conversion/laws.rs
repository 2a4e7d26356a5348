//! What becomes of an endpoint's channels in stereo, and of stereo in an endpoint's channels.

use crate::windows::conversion::{
    channel_of, channel_sample, clipped, decode_fault, decoded, decoded_sample, encode_fault,
    encoded, encoded_number, encoding_of, has_speaker, mixed_taps, native_sample, speakers_before,
    taps_of, weights_of, ConversionError, DecodeArithmetic, EncodeArithmetic, SampleEncoding, Tap,
    Weight, WeightSum,
};
use crate::windows::endpoint::EndpointFormat;
use vstd::arithmetic::div_mod::lemma_div_denominator;
use vstd::arithmetic::power2::{lemma_pow2_adds, lemma_pow2_pos, pow2};
use vstd::prelude::*;

verus! {

/// Whether a mask has the speaker of a bit.
pub open spec fn speaks(mask: u32, bit: nat) -> bool {
    (mask as int / pow2(bit) as int) % 2 == 1
}

/// How many speakers of a mask come before a bit.
pub open spec fn place(mask: u32, bit: nat) -> nat
    decreases bit,
{
    if bit == 0 {
        0
    } else if speaks(mask, (bit - 1) as nat) {
        place(mask, (bit - 1) as nat) + 1
    } else {
        place(mask, (bit - 1) as nat)
    }
}

/// Whether a format has the speaker of a bit among its channels.
pub open spec fn carries(format: EndpointFormat, bit: nat) -> bool {
    speaks(format.channel_mask, bit) && place(format.channel_mask, bit) < format.channels
}

proof fn lemma_bit(mask: nat, bit: nat)
    ensures
        has_speaker(mask, bit) <==> (mask as int / pow2(bit) as int) % 2 == 1,
    decreases bit,
{
    if bit == 0 {
        vstd::arithmetic::power2::lemma2_to64();
    } else {
        lemma_bit(mask / 2, (bit - 1) as nat);
        lemma_halved(mask, (bit - 1) as nat);
    }
}

proof fn lemma_halved(mask: nat, bit: nat)
    ensures
        (mask as int / 2) / (pow2(bit) as int) == mask as int / pow2(bit + 1) as int,
{
    vstd::arithmetic::power2::lemma2_to64();
    lemma_pow2_pos(bit);
    lemma_pow2_adds(1, bit);
    lemma_div_denominator(mask as int, 2, pow2(bit) as int);
}

/// The speakers of a number before a bit, counted from the lowest one.
spec fn bits_before(mask: nat, bit: nat) -> nat
    decreases bit,
{
    if bit == 0 {
        0
    } else {
        bits_before(mask, (bit - 1) as nat) + if (mask as int / pow2((bit - 1) as nat) as int) % 2
            == 1 {
            1nat
        } else {
            0
        }
    }
}

proof fn lemma_bits_shift(mask: nat, bit: nat)
    requires
        bit > 0,
    ensures
        bits_before(mask, bit) == (mask % 2) + bits_before(mask / 2, (bit - 1) as nat),
    decreases bit,
{
    vstd::arithmetic::power2::lemma2_to64();
    reveal_with_fuel(bits_before, 2);
    if bit == 1 {
        assert(bits_before(mask, 0) == 0);
        assert(bits_before(mask / 2, 0) == 0);
        assert(mask as int / pow2(0) as int == mask as int);
    } else {
        lemma_bits_shift(mask, (bit - 1) as nat);
        lemma_halved(mask, (bit - 2) as nat);
        assert(((bit - 2) as nat) + 1 == (bit - 1) as nat);
    }
}

proof fn lemma_bits_before(mask: nat, bit: nat)
    ensures
        speakers_before(mask, bit) == bits_before(mask, bit),
    decreases bit,
{
    if bit > 0 {
        lemma_bits_before(mask / 2, (bit - 1) as nat);
        lemma_bits_shift(mask, bit);
    }
}

proof fn lemma_place(mask: u32, bit: nat)
    ensures
        place(mask, bit) == bits_before(mask as nat, bit),
    decreases bit,
{
    if bit > 0 {
        lemma_place(mask, (bit - 1) as nat);
    }
}

/// A speaker stands on the channel that as many speakers come before, where there are so many
/// channels.
pub proof fn law_channels_stand_in_the_order_of_speakers(mask: u32, bit: nat, channels: nat)
    ensures
        channel_of(mask, bit, channels) == if speaks(mask, bit) && place(mask, bit) < channels {
            Some(place(mask, bit))
        } else {
            None
        },
{
    lemma_bit(mask as nat, bit);
    lemma_bits_before(mask as nat, bit);
    lemma_place(mask, bit);
}

/// A sum with what one more speaker brings to it, where the format has it.
pub open spec fn with_speaker(
    sum: u32,
    format: EndpointFormat,
    encoding: SampleEncoding,
    input: Seq<u8>,
    base: int,
    bit: nat,
    weight: Weight,
    math: DecodeArithmetic,
) -> u32 {
    if carries(format, bit) {
        (math.add)(
            sum,
            (math.weigh)(
                native_sample(encoding, input, base + place(format.channel_mask, bit), math),
                weight,
            ),
        )
    } else {
        sum
    }
}

/// One where the format has the speaker.
pub open spec fn count_of(format: EndpointFormat, bit: nat) -> int {
    if carries(format, bit) {
        1
    } else {
        0
    }
}

proof fn lemma_taps_end<S>(taps: Seq<S>, last: S)
    ensures
        taps.push(last).drop_last() == taps,
        taps.push(last).last() == last,
{
    assert(taps.push(last).drop_last() =~= taps);
}

proof fn lemma_one_more(
    format: EndpointFormat,
    encoding: SampleEncoding,
    input: Seq<u8>,
    base: int,
    taps: Seq<Tap>,
    bit: nat,
    weight: Weight,
    math: DecodeArithmetic,
)
    requires
        weight != Weight::Full,
    ensures
        ({
            let more = taps + crate::windows::conversion::tap_of(format, bit, weight);
            &&& mixed_taps(encoding, input, base, more, math) == with_speaker(
                mixed_taps(encoding, input, base, taps, math),
                format,
                encoding,
                input,
                base,
                bit,
                weight,
                math,
            )
            &&& weights_of(more) == if carries(format, bit) {
                match weight {
                    Weight::Center => WeightSum { center: true, ..weights_of(taps) },
                    _ => WeightSum {
                        surrounds: (weights_of(taps).surrounds + 1) as u8,
                        ..weights_of(taps)
                    },
                }
            } else {
                weights_of(taps)
            }
            &&& more.len() == taps.len() + count_of(format, bit)
        }),
{
    law_channels_stand_in_the_order_of_speakers(
        format.channel_mask,
        bit,
        format.channels as nat,
    );
    let added = crate::windows::conversion::tap_of(format, bit, weight);
    if carries(format, bit) {
        let tap = Tap { channel: place(format.channel_mask, bit) as usize, weight };
        assert(taps + added =~= taps.push(tap));
        lemma_taps_end(taps, tap);
    } else {
        assert(taps + added =~= taps);
    }
}

/// Each side of a frame of several channels is its front speaker, and added to it the centre,
/// the speaker behind and the one beside the listener on that side, as far as the format has
/// them: weighed as centre and as surround, and normalised by just those weights. Nothing else
/// is heard, the deep speaker least of all. A format that does not name a front speaker has it
/// on the channel of its side.
pub proof fn law_channels_are_mixed_to_their_sides(
    format: EndpointFormat,
    encoding: SampleEncoding,
    input: Seq<u8>,
    frame: int,
    side: nat,
    math: DecodeArithmetic,
)
    requires
        format.channels >= 2,
        side < 2,
    ensures
        ({
            let base = frame * format.channels;
            let front = if carries(format, side) {
                place(format.channel_mask, side)
            } else {
                side
            };
            let first = (math.add)(0, native_sample(encoding, input, base + front, math));
            let second = with_speaker(
                first,
                format,
                encoding,
                input,
                base,
                2,
                Weight::Center,
                math,
            );
            let third = with_speaker(
                second,
                format,
                encoding,
                input,
                base,
                4 + side,
                Weight::Surround,
                math,
            );
            let fourth = with_speaker(
                third,
                format,
                encoding,
                input,
                base,
                9 + side,
                Weight::Surround,
                math,
            );
            decoded_sample(format, encoding, input, frame, side, math) == (math.normalize)(
                fourth,
                WeightSum {
                    center: carries(format, 2),
                    surrounds: (count_of(format, 4 + side) + count_of(format, 9 + side)) as u8,
                },
            )
        }),
{
    let base = frame * format.channels;
    law_channels_stand_in_the_order_of_speakers(
        format.channel_mask,
        side,
        format.channels as nat,
    );
    let front = if carries(format, side) {
        place(format.channel_mask, side)
    } else {
        side
    };
    let tap = Tap { channel: front as usize, weight: Weight::Full };
    let empty = Seq::<Tap>::empty();
    let first = seq![tap];
    assert(first =~= empty.push(tap));
    lemma_taps_end(empty, tap);
    assert(mixed_taps(encoding, input, base, empty, math) == 0);
    assert(weights_of(empty) == (WeightSum { center: false, surrounds: 0 }));
    let center = first + crate::windows::conversion::tap_of(format, 2, Weight::Center);
    let behind = center + crate::windows::conversion::tap_of(format, 4 + side, Weight::Surround);
    lemma_one_more(format, encoding, input, base, first, 2, Weight::Center, math);
    lemma_one_more(format, encoding, input, base, center, 4 + side, Weight::Surround, math);
    lemma_one_more(format, encoding, input, base, behind, 9 + side, Weight::Surround, math);
    assert(taps_of(format, side) == behind + crate::windows::conversion::tap_of(
        format,
        9 + side,
        Weight::Surround,
    ));
}

/// A single channel is heard on both sides alike.
pub proof fn law_single_channel_is_heard_on_both_sides(
    format: EndpointFormat,
    encoding: SampleEncoding,
    input: Seq<u8>,
    frame: int,
    side: nat,
    math: DecodeArithmetic,
)
    requires
        format.channels == 1,
        side < 2,
    ensures
        decoded_sample(format, encoding, input, frame, side, math) == (math.normalize)(
            native_sample(encoding, input, frame, math),
            WeightSum { center: false, surrounds: 0 },
        ),
{
    reveal_with_fuel(weights_of, 2);
}

/// The centre of a format is one tap of each side, and the only one of its weight; the
/// surround speakers of a side are taps of that side alone.
pub proof fn law_every_speaker_has_its_tap(format: EndpointFormat, side: nat)
    requires
        format.channels >= 2,
        side < 2,
    ensures
        ({
            let taps = taps_of(format, side);
            &&& taps.len() == 1 + count_of(format, 2) + count_of(format, 4 + side) + count_of(
                format,
                9 + side,
            )
            &&& taps[0].weight == Weight::Full
            &&& carries(format, 2) ==> taps[1] == (Tap {
                channel: place(format.channel_mask, 2) as usize,
                weight: Weight::Center,
            })
            &&& forall|i: int|
                0 < i < taps.len() ==> ((#[trigger] taps[i]).weight == Weight::Center <==> i == 1
                    && carries(format, 2))
            &&& forall|i: int|
                0 < i < taps.len() && (#[trigger] taps[i]).weight == Weight::Surround
                    ==> taps[i].channel == place(format.channel_mask, 4 + side) || taps[i].channel
                    == place(format.channel_mask, 9 + side)
        }),
{
    law_channels_stand_in_the_order_of_speakers(
        format.channel_mask,
        side,
        format.channels as nat,
    );
    law_channels_stand_in_the_order_of_speakers(format.channel_mask, 2, format.channels as nat);
    law_channels_stand_in_the_order_of_speakers(
        format.channel_mask,
        4 + side,
        format.channels as nat,
    );
    law_channels_stand_in_the_order_of_speakers(
        format.channel_mask,
        9 + side,
        format.channels as nat,
    );
}

/// Stereo goes to the front speakers alone: the left sample to the channel of the front left
/// speaker and the right one to that of the front right speaker; all other channels are silent.
/// Without a mask the first two channels are the front; a single channel gets the mean.
pub proof fn law_stereo_goes_to_the_front(
    mask: u32,
    channels: nat,
    channel: nat,
    left: u32,
    right: u32,
    math: EncodeArithmetic,
)
    requires
        channel < channels,
    ensures
        channel_sample(mask, channels, channel, left, right, math) == if channels == 1 {
            (math.average)(left, right)
        } else if mask == 0 {
            if channel == 0 {
                left
            } else if channel == 1 {
                right
            } else {
                0
            }
        } else if speaks(mask, 0) && channel == place(mask, 0) {
            left
        } else if speaks(mask, 1) && channel == place(mask, 1) {
            right
        } else {
            0
        },
{
    lemma_bit(mask as nat, 0);
    lemma_bit(mask as nat, 1);
    lemma_bits_before(mask as nat, 1);
    lemma_place(mask, 1);
    reveal_with_fuel(has_speaker, 2);
}

/// Samples are clipped to full scale, and what is no number is silence.
pub proof fn law_samples_are_clipped(bits: u32)
    ensures
        clipped(bits) == if bits <= 0x3f80_0000 || 0x8000_0000 <= bits <= 0xbf80_0000 {
            bits
        } else if 0x3f80_0000 < bits < 0x7f80_0000 {
            0x3f80_0000u32
        } else if 0xbf80_0000 < bits < 0xff80_0000 {
            0xbf80_0000u32
        } else {
            0
        },
{
}

/// The bytes of a sample stand with the least significant one first: two of them for a signed
/// integer, four of them for a number, of which an infinity and a NaN are silence.
pub proof fn law_native_samples_are_little_endian(
    input: Seq<u8>,
    index: int,
    number: i16,
    math: DecodeArithmetic,
)
    ensures
        input[2 * index] + 256 * input[2 * index + 1] == (number as int) % 0x1_0000
            ==> native_sample(SampleEncoding::Pcm16, input, index, math) == (math.pcm)(number),
        ({
            let bits = input[4 * index] + 256 * input[4 * index + 1] + 0x1_0000 * input[4 * index
                + 2] + 0x100_0000 * input[4 * index + 3];
            native_sample(SampleEncoding::Float32, input, index, math) == if (bits / 0x80_0000)
                % 256 == 255 {
                0
            } else {
                bits as u32
            }
        }),
{
}

/// A number is written with the least significant byte first, and an integer sample modulo
/// the numbers that two bytes have.
pub proof fn law_written_samples_are_little_endian(
    format: EndpointFormat,
    encoding: SampleEncoding,
    input: Seq<u32>,
    frames: nat,
    output: Seq<u8>,
    index: int,
    math: EncodeArithmetic,
)
    requires
        0 <= index < frames * format.channels,
        frames * format.channels * (match encoding {
            SampleEncoding::Float32 => 4int,
            SampleEncoding::Pcm16 => 2int,
        }) <= output.len(),
    ensures
        ({
            let written = encoded(format, encoding, input, frames * format.channels, output, math);
            let frame = index / format.channels as int;
            let sample = clipped(
                channel_sample(
                    format.channel_mask,
                    format.channels as nat,
                    (index % format.channels as int) as nat,
                    input[2 * frame],
                    input[2 * frame + 1],
                    math,
                ),
            );
            match encoding {
                SampleEncoding::Float32 => written[4 * index] + 256 * written[4 * index + 1]
                    + 0x1_0000 * written[4 * index + 2] + 0x100_0000 * written[4 * index + 3]
                    == sample,
                SampleEncoding::Pcm16 => written[2 * index] + 256 * written[2 * index + 1] == ((
                math.quantize)(sample) as int) % 0x1_0000,
            }
        }),
{
    let total = frames * format.channels;
    let frame = index / format.channels as int;
    let bits = channel_sample(
        format.channel_mask,
        format.channels as nat,
        (index % format.channels as int) as nat,
        input[2 * frame],
        input[2 * frame + 1],
        math,
    );
    let number = encoded_number(encoding, bits, math);
    crate::windows::conversion::lemma_encoded_at(
        format,
        encoding,
        input,
        total,
        output,
        index,
        0,
        math,
    );
    crate::windows::conversion::lemma_encoded_at(
        format,
        encoding,
        input,
        total,
        output,
        index,
        1,
        math,
    );
    match encoding {
        SampleEncoding::Float32 => {
            crate::windows::conversion::lemma_encoded_at(
                format,
                encoding,
                input,
                total,
                output,
                index,
                2,
                math,
            );
            crate::windows::conversion::lemma_encoded_at(
                format,
                encoding,
                input,
                total,
                output,
                index,
                3,
                math,
            );
            crate::windows::conversion::lemma_four_bytes(number);
        },
        SampleEncoding::Pcm16 => {
            crate::windows::conversion::lemma_two_bytes(number);
        },
    }
}

/// Frames are converted exactly where the format is one of 32-bit numbers or 16-bit integers,
/// and the bytes and the samples are enough for them.
pub proof fn law_conversion_needs_enough_room(
    format: EndpointFormat,
    bytes: nat,
    samples: nat,
    frames: nat,
)
    ensures
        ({
            let width = if format.is_float && !format.is_pcm && format.bits_per_sample == 32 {
                4int
            } else if format.is_pcm && !format.is_float && format.bits_per_sample == 16 {
                2int
            } else {
                0
            };
            &&& encoding_of(format) == if width == 4 {
                Some(SampleEncoding::Float32)
            } else if width == 2 {
                Some(SampleEncoding::Pcm16)
            } else {
                None
            }
            &&& decode_fault(format, bytes, frames, samples) is None <==> {
                &&& width > 0
                &&& format.channels > 0
                &&& samples >= frames * 2
                &&& bytes >= frames * format.channels * width
            }
            &&& encode_fault(format, samples, frames, bytes) is None <==> {
                &&& width > 0
                &&& samples >= frames * 2
                &&& bytes >= frames * format.channels * width
            }
            &&& samples < frames * 2 ==> decode_fault(format, bytes, frames, samples) == Some(
                ConversionError::OutputLength,
            ) && encode_fault(format, samples, frames, bytes) == Some(ConversionError::InputLength)
        }),
{
}

/// Decoding fills the first frames with what they decode to, left before right, and leaves the
/// rest.
pub proof fn law_frames_are_decoded_in_order(
    format: EndpointFormat,
    encoding: SampleEncoding,
    input: Seq<u8>,
    frames: nat,
    output: Seq<u32>,
    math: DecodeArithmetic,
    frame: int,
    i: int,
)
    requires
        frames * 2 <= output.len(),
    ensures
        ({
            let after = decoded(format, encoding, input, frames, output, math);
            &&& after.len() == output.len()
            &&& 0 <= frame < frames ==> after[2 * frame] == decoded_sample(
                format,
                encoding,
                input,
                frame,
                0,
                math,
            ) && after[2 * frame + 1] == decoded_sample(format, encoding, input, frame, 1, math)
            &&& frames * 2 <= i < output.len() ==> after[i] == output[i]
        }),
{
}

} // verus!
