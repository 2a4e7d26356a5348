//! Test tones.
//!
//! Samples are of a type that the caller chooses, and so is the sine that they are taken
//! from.

use crate::arithmetic::{binary, call_binary, is_binary};
use vstd::prelude::*;

verus! {

/// A test tone.
#[derive(Clone, Copy, Debug, PartialEq, Eq, Structural)]
pub enum TestToneKind {
    /// A steady sine.
    Sine,
    /// A pulse at the start of every period.
    Impulse,
    /// Silence.
    Silence,
    /// A sine of its own for the left, the right and every further channel.
    ChannelId,
}

/// What a test tone is made of.
#[derive(Clone, Copy, Debug, PartialEq, Eq)]
pub struct TestToneConfig<S> {
    pub kind: TestToneKind,
    /// The frames from one pulse to the next; at least 1.
    pub period: u64,
    pub amplitude: S,
    pub silence: S,
}

/// The frequency of a sine.
#[derive(Clone, Copy, Debug, PartialEq, Eq, Structural)]
pub enum ToneFrequency {
    /// The one that was asked for.
    Configured,
    /// So many oscillations in a second.
    Hertz(u32),
}

/// Where in a tone the next block starts.
#[derive(Clone, Copy, Debug, PartialEq, Eq, Structural)]
pub struct TonePhase {
    pub frame: u64,
}

impl Default for TonePhase {
    fn default() -> (phase: Self)
        ensures
            phase.frame == 0,
    {
        TonePhase { frame: 0 }
    }
}

/// The frequency that tells a channel from the others.
pub open spec fn channel_frequency(channel: nat) -> ToneFrequency {
    ToneFrequency::Hertz(
        if channel == 0 {
            440
        } else if channel == 1 {
            1300
        } else {
            1760
        },
    )
}

/// A sample of the tone, `frame` frames from its start. `sine` has the amplitude.
pub open spec fn tone_sample<S>(
    config: TestToneConfig<S>,
    frame: nat,
    channel: nat,
    sine: spec_fn(ToneFrequency, u64) -> S,
) -> S {
    match config.kind {
        TestToneKind::Silence => config.silence,
        TestToneKind::Sine => sine(ToneFrequency::Configured, frame as u64),
        TestToneKind::Impulse => if frame % config.period as nat == 0 {
            config.amplitude
        } else {
            config.silence
        },
        TestToneKind::ChannelId => sine(channel_frequency(channel), frame as u64),
    }
}

/// A block of a tone that starts at a frame. All channels of a frame have the same time.
pub open spec fn tone_block<S>(
    config: TestToneConfig<S>,
    start: nat,
    channels: nat,
    samples: nat,
    sine: spec_fn(ToneFrequency, u64) -> S,
) -> Seq<S> {
    Seq::new(
        samples,
        |i: int|
            tone_sample(
                config,
                start + (i / channels as int) as nat,
                (i % channels as int) as nat,
                sine,
            ),
    )
}

/// What `sine` gives.
pub open spec fn sine_of<S, F: Fn(ToneFrequency, u64) -> S>(sine: F) -> spec_fn(
    ToneFrequency,
    u64,
) -> S {
    |frequency: ToneFrequency, frame: u64| binary(sine, frequency, frame)
}

/// Fills a block of interleaved samples and moves the phase behind it.
pub fn fill_block<S: Copy, F: Fn(ToneFrequency, u64) -> S>(
    block: &mut Vec<S>,
    channels: usize,
    config: &TestToneConfig<S>,
    phase: &mut TonePhase,
    sine: &F,
)
    requires
        is_binary::<ToneFrequency, u64, S, F>(*sine),
        channels > 0,
        config.period > 0,
        old(block)@.len() % channels as nat == 0,
        old(phase).frame + old(block)@.len() / channels as nat <= u64::MAX,
    ensures
        final(block)@ == tone_block(
            *config,
            old(phase).frame as nat,
            channels as nat,
            old(block)@.len(),
            sine_of(*sine),
        ),
        final(phase).frame == old(phase).frame + old(block)@.len() / channels as nat,
{
    let ghost before = block@;
    let ghost math = sine_of(*sine);
    let length = block.len();
    let start = phase.frame;
    for i in 0..length
        invariant
            is_binary::<ToneFrequency, u64, S, F>(*sine),
            math == sine_of(*sine),
            channels > 0,
            config.period > 0,
            block@.len() == length,
            start + length / channels <= u64::MAX,
            length % channels == 0,
            forall|j: int|
                0 <= j < i ==> #[trigger] block@[j] == tone_block(
                    *config,
                    start as nat,
                    channels as nat,
                    length as nat,
                    math,
                )[j],
    {
        assert(i / channels <= length / channels) by {
            vstd::arithmetic::div_mod::lemma_div_is_ordered(
                i as int,
                length as int,
                channels as int,
            );
        }
        let frame = start + (i / channels) as u64;
        let channel = i % channels;
        let sample = match config.kind {
            TestToneKind::Silence => config.silence,
            TestToneKind::Sine => call_binary(sine, ToneFrequency::Configured, frame),
            TestToneKind::Impulse => if frame % config.period == 0 {
                config.amplitude
            } else {
                config.silence
            },
            TestToneKind::ChannelId => {
                let frequency = if channel == 0 {
                    ToneFrequency::Hertz(440)
                } else if channel == 1 {
                    ToneFrequency::Hertz(1300)
                } else {
                    ToneFrequency::Hertz(1760)
                };
                call_binary(sine, frequency, frame)
            },
        };
        block.set(i, sample);
    }
    phase.frame = start + (length / channels) as u64;
    assert(block@ =~= tone_block(*config, start as nat, channels as nat, length as nat, math));
}

/// Two blocks in a row are one block of both lengths: a tone has no seam.
pub proof fn law_tone_is_seamless<S>(
    config: TestToneConfig<S>,
    start: nat,
    channels: nat,
    first: nat,
    second: nat,
    sine: spec_fn(ToneFrequency, u64) -> S,
)
    requires
        channels > 0,
    ensures
        tone_block(config, start, channels, first * channels, sine) + tone_block(
            config,
            start + first,
            channels,
            second * channels,
            sine,
        ) == tone_block(config, start, channels, (first + second) * channels, sine),
{
    let a = tone_block(config, start, channels, first * channels, sine);
    let b = tone_block(config, start + first, channels, second * channels, sine);
    let whole = tone_block(config, start, channels, (first + second) * channels, sine);
    assert((first + second) * channels == first * channels + second * channels)
        by (nonlinear_arith);
    assert forall|i: int| 0 <= i < whole.len() implies #[trigger] (a + b)[i] == whole[i] by {
        if i >= first * channels {
            let j = i - first * channels;
            vstd::arithmetic::div_mod::lemma_hoist_over_denominator(
                j,
                first as int,
                channels,
            );
            vstd::arithmetic::div_mod::lemma_mod_multiples_vanish(
                first as int,
                j,
                channels as int,
            );
            assert(first * channels == channels * first) by (nonlinear_arith);
            assert(i / channels as int == j / channels as int + first);
            assert(i % channels as int == j % channels as int);
            assert(j / channels as int >= 0) by (nonlinear_arith)
                requires
                    j >= 0,
                    channels > 0,
            ;
        } else {
            assert(i / channels as int >= 0) by (nonlinear_arith)
                requires
                    i >= 0,
                    channels > 0,
            ;
        }
    }
    assert(a + b =~= whole);
}

/// Every sample of a block belongs to a frame and a channel. It is silent in silence; an impulse
/// stands at every whole period and silence between; a sine is the same on all channels; and the
/// tone of a channel tells it apart from the two before.
pub proof fn law_samples_of_a_tone<S>(
    config: TestToneConfig<S>,
    start: nat,
    channels: nat,
    frames: nat,
    sine: spec_fn(ToneFrequency, u64) -> S,
    frame: nat,
    channel: nat,
    periods: nat,
)
    requires
        frame < frames,
        channel < channels,
        config.period > 0,
    ensures
        ({
            let block = tone_block(config, start, channels, frames * channels, sine);
            let sample = block[(frame * channels + channel) as int];
            let at = start + frame;
            &&& block.len() == frames * channels
            &&& config.kind == TestToneKind::Silence ==> sample == config.silence
            &&& config.kind == TestToneKind::Sine ==> sample == sine(
                ToneFrequency::Configured,
                at as u64,
            )
            &&& config.kind == TestToneKind::Impulse && at == periods * config.period ==> sample
                == config.amplitude
            &&& config.kind == TestToneKind::Impulse && periods * config.period < at < (periods + 1)
                * config.period ==> sample == config.silence
            &&& config.kind == TestToneKind::ChannelId && channel == 0 ==> sample == sine(
                ToneFrequency::Hertz(440),
                at as u64,
            )
            &&& config.kind == TestToneKind::ChannelId && channel == 1 ==> sample == sine(
                ToneFrequency::Hertz(1300),
                at as u64,
            )
            &&& config.kind == TestToneKind::ChannelId && channel >= 2 ==> sample == sine(
                ToneFrequency::Hertz(1760),
                at as u64,
            )
        }),
{
    let i = (frame * channels + channel) as int;
    assert(0 <= i < frames * channels) by (nonlinear_arith)
        requires
            i == frame * channels + channel,
            0 <= frame < frames,
            0 <= channel < channels,
    ;
    vstd::arithmetic::div_mod::lemma_fundamental_div_mod_converse(
        i,
        channels as int,
        frame as int,
        channel as int,
    );
    let at = (start + frame) as int;
    let period = config.period as int;
    if at == periods * period {
        vstd::arithmetic::div_mod::lemma_fundamental_div_mod_converse(at, period, periods as int, 0);
    } else if periods * period < at < (periods + 1) * period {
        assert((periods + 1) * period == periods * period + period) by (nonlinear_arith);
        vstd::arithmetic::div_mod::lemma_fundamental_div_mod_converse(
            at,
            period,
            periods as int,
            at - periods * period,
        );
    }
}

} // verus!
