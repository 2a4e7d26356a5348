//! Blocks around a resampler: their sizes, and their split into channels.
//!
//! The resampling itself is done elsewhere, on one sequence of samples for each channel.

use crate::text::{decimal_text, joined, push_decimal};
use vstd::prelude::*;
use vstd::string::StringExecFns;

verus! {

/// Why a resampler cannot be made or changed.
#[derive(Debug, PartialEq, Eq)]
pub enum ResamplerConfigError {
    ZeroInputRate,
    ZeroOutputRate,
    ZeroChannels,
    ZeroOutputFrames,
    Rubato(String),
    SampleCountOverflow,
}

/// What a `ResamplerConfigError` says.
#[verifier::ext_equal]
pub enum ResamplerConfigFault {
    ZeroInputRate,
    ZeroOutputRate,
    ZeroChannels,
    ZeroOutputFrames,
    Rubato(Seq<char>),
    SampleCountOverflow,
}

impl View for ResamplerConfigError {
    type V = ResamplerConfigFault;

    open spec fn view(&self) -> ResamplerConfigFault {
        match *self {
            ResamplerConfigError::ZeroInputRate => ResamplerConfigFault::ZeroInputRate,
            ResamplerConfigError::ZeroOutputRate => ResamplerConfigFault::ZeroOutputRate,
            ResamplerConfigError::ZeroChannels => ResamplerConfigFault::ZeroChannels,
            ResamplerConfigError::ZeroOutputFrames => ResamplerConfigFault::ZeroOutputFrames,
            ResamplerConfigError::Rubato(reason) => ResamplerConfigFault::Rubato(reason@),
            ResamplerConfigError::SampleCountOverflow => ResamplerConfigFault::SampleCountOverflow,
        }
    }
}

/// Why a block cannot be resampled.
#[derive(Debug, PartialEq, Eq)]
pub enum ResamplerProcessError {
    InputLength { expected: usize, actual: usize },
    OutputLength { expected: usize, actual: usize },
    Rubato(String),
    OutputFrames { expected: usize, actual: usize },
}

/// What a `ResamplerProcessError` says.
#[verifier::ext_equal]
pub enum ResamplerProcessFault {
    InputLength { expected: int, actual: int },
    OutputLength { expected: int, actual: int },
    Rubato(Seq<char>),
    OutputFrames { expected: int, actual: int },
}

impl View for ResamplerProcessError {
    type V = ResamplerProcessFault;

    open spec fn view(&self) -> ResamplerProcessFault {
        match *self {
            ResamplerProcessError::InputLength { expected, actual } =>
                ResamplerProcessFault::InputLength {
                expected: expected as int,
                actual: actual as int,
            },
            ResamplerProcessError::OutputLength { expected, actual } =>
                ResamplerProcessFault::OutputLength {
                expected: expected as int,
                actual: actual as int,
            },
            ResamplerProcessError::Rubato(reason) => ResamplerProcessFault::Rubato(reason@),
            ResamplerProcessError::OutputFrames { expected, actual } =>
                ResamplerProcessFault::OutputFrames {
                expected: expected as int,
                actual: actual as int,
            },
        }
    }
}

/// The message of a fault.
pub open spec fn config_fault_text(fault: ResamplerConfigFault) -> Seq<char> {
    match fault {
        ResamplerConfigFault::ZeroInputRate => "输入采样率必须大于 0"@,
        ResamplerConfigFault::ZeroOutputRate => "输出采样率必须大于 0"@,
        ResamplerConfigFault::ZeroChannels => "声道数必须大于 0"@,
        ResamplerConfigFault::ZeroOutputFrames => "输出 block frame 数必须大于 0"@,
        ResamplerConfigFault::Rubato(reason) => "重采样器配置失败: "@ + reason,
        ResamplerConfigFault::SampleCountOverflow => "重采样样本容量溢出"@,
    }
}

impl ResamplerConfigError {
    /// The message of the error.
    pub fn message(&self) -> (text: String)
        ensures
            text@ == config_fault_text(self@),
    {
        match self {
            ResamplerConfigError::ZeroInputRate => "输入采样率必须大于 0".to_owned(),
            ResamplerConfigError::ZeroOutputRate => "输出采样率必须大于 0".to_owned(),
            ResamplerConfigError::ZeroChannels => "声道数必须大于 0".to_owned(),
            ResamplerConfigError::ZeroOutputFrames => "输出 block frame 数必须大于 0".to_owned(),
            ResamplerConfigError::Rubato(reason) => joined("重采样器配置失败: ", reason.as_str()),
            ResamplerConfigError::SampleCountOverflow => "重采样样本容量溢出".to_owned(),
        }
    }
}

/// The message of a fault.
pub open spec fn process_fault_text(error: ResamplerProcessError) -> Seq<char> {
    match error {
        ResamplerProcessError::InputLength { expected, actual } => "输入样本数 "@ + decimal_text(
            actual as nat,
        ) + "，期望 "@ + decimal_text(expected as nat),
        ResamplerProcessError::OutputLength { expected, actual } => "输出样本数 "@ + decimal_text(
            actual as nat,
        ) + "，期望 "@ + decimal_text(expected as nat),
        ResamplerProcessError::Rubato(reason) => "重采样处理失败: "@ + reason@,
        ResamplerProcessError::OutputFrames { expected, actual } => "重采样器输出 frame 数 "@
            + decimal_text(actual as nat) + "，期望 "@ + decimal_text(expected as nat),
    }
}

fn counts_text(what: &str, actual: usize, expected: usize) -> (text: String)
    ensures
        text@ == what@ + decimal_text(actual as nat) + "，期望 "@ + decimal_text(expected as nat),
{
    let mut text = what.to_owned();
    push_decimal(&mut text, actual as u64);
    text.append("，期望 ");
    push_decimal(&mut text, expected as u64);
    text
}

impl ResamplerProcessError {
    /// The message of the error.
    pub fn message(&self) -> (text: String)
        ensures
            text@ == process_fault_text(*self),
    {
        match self {
            ResamplerProcessError::InputLength { expected, actual } => counts_text(
                "输入样本数 ",
                *actual,
                *expected,
            ),
            ResamplerProcessError::OutputLength { expected, actual } => counts_text(
                "输出样本数 ",
                *actual,
                *expected,
            ),
            ResamplerProcessError::Rubato(reason) => joined("重采样处理失败: ", reason.as_str()),
            ResamplerProcessError::OutputFrames { expected, actual } => counts_text(
                "重采样器输出 frame 数 ",
                *actual,
                *expected,
            ),
        }
    }
}

/// Why rates cannot be used, if they cannot.
pub open spec fn rate_fault(input_rate: u32, output_rate: u32) -> Option<ResamplerConfigFault> {
    if input_rate == 0 {
        Some(ResamplerConfigFault::ZeroInputRate)
    } else if output_rate == 0 {
        Some(ResamplerConfigFault::ZeroOutputRate)
    } else {
        None
    }
}

/// Why a resampler of fixed blocks cannot be made, if it cannot.
pub open spec fn config_fault(
    input_rate: u32,
    output_rate: u32,
    channels: usize,
    frames: usize,
) -> Option<ResamplerConfigFault> {
    match rate_fault(input_rate, output_rate) {
        Some(fault) => Some(fault),
        None => if channels == 0 {
            Some(ResamplerConfigFault::ZeroChannels)
        } else if frames == 0 {
            Some(ResamplerConfigFault::ZeroOutputFrames)
        } else if frames * channels > usize::MAX {
            Some(ResamplerConfigFault::SampleCountOverflow)
        } else {
            None
        },
    }
}

/// Checks the rates of a resampler.
pub fn check_rates(input_rate: u32, output_rate: u32) -> (result: Result<(), ResamplerConfigError>)
    ensures
        match result {
            Ok(_) => rate_fault(input_rate, output_rate) is None,
            Err(e) => rate_fault(input_rate, output_rate) == Some(e@),
        },
{
    if input_rate == 0 {
        return Err(ResamplerConfigError::ZeroInputRate);
    }
    if output_rate == 0 {
        return Err(ResamplerConfigError::ZeroOutputRate);
    }
    Ok(())
}

fn check_config(input_rate: u32, output_rate: u32, channels: usize, frames: usize) -> (result:
    Result<(), ResamplerConfigError>)
    ensures
        match result {
            Ok(_) => config_fault(input_rate, output_rate, channels, frames) is None,
            Err(e) => config_fault(input_rate, output_rate, channels, frames) == Some(e@),
        },
{
    if let Err(e) = check_rates(input_rate, output_rate) {
        return Err(e);
    }
    if channels == 0 {
        return Err(ResamplerConfigError::ZeroChannels);
    }
    if frames == 0 {
        return Err(ResamplerConfigError::ZeroOutputFrames);
    }
    if frames.checked_mul(channels).is_none() {
        return Err(ResamplerConfigError::SampleCountOverflow);
    }
    Ok(())
}

/// The samples of one channel of an interleaved block.
pub open spec fn channel_samples<S>(block: Seq<S>, channels: nat, channel: int, frames: nat) -> Seq<
    S,
> {
    Seq::new(frames, |frame: int| block[frame * channels + channel])
}

/// The samples of every channel of an interleaved block.
pub open spec fn split_block<S>(block: Seq<S>, channels: nat, frames: nat) -> Seq<Seq<S>> {
    Seq::new(channels, |channel: int| channel_samples(block, channels, channel, frames))
}

/// A block of interleaved frames, and what was there behind them.
pub open spec fn joined_block<S>(
    planes: Seq<Seq<S>>,
    channels: nat,
    frames: nat,
    block: Seq<S>,
) -> Seq<S> {
    Seq::new(
        block.len(),
        |i: int|
            if i < frames * channels {
                planes[i % channels as int][i / channels as int]
            } else {
                block[i]
            },
    )
}

/// The planes of a list.
pub open spec fn planes_of<S>(list: Seq<Vec<S>>) -> Seq<Seq<S>> {
    list.map_values(|plane: Vec<S>| plane@)
}

/// Splits an interleaved block into its channels.
pub fn split_channels<S: Copy>(block: &[S], channels: usize, frames: usize) -> (planes: Vec<Vec<S>>)
    requires
        frames * channels == block@.len(),
        block@.len() <= usize::MAX,
    ensures
        planes_of(planes@) == split_block(block@, channels as nat, frames as nat),
{
    let mut planes: Vec<Vec<S>> = Vec::new();
    for channel in 0..channels
        invariant
            frames * channels == block@.len(),
            block@.len() <= usize::MAX,
            planes@.len() == channel,
            forall|c: int|
                0 <= c < channel ==> (#[trigger] planes@[c])@ == channel_samples(
                    block@,
                    channels as nat,
                    c,
                    frames as nat,
                ),
    {
        let mut plane: Vec<S> = Vec::new();
        for frame in 0..frames
            invariant
                frames * channels == block@.len(),
                block@.len() <= usize::MAX,
                channel < channels,
                plane@ == channel_samples(
                    block@,
                    channels as nat,
                    channel as int,
                    frame as nat,
                ),
        {
            assert(frame * channels + channel < frames * channels && 0 <= frame * channels)
                by (nonlinear_arith)
                requires
                    frame < frames,
                    channel < channels,
            ;
            plane.push(block[frame * channels + channel]);
            assert(plane@ =~= channel_samples(
                block@,
                channels as nat,
                channel as int,
                (frame + 1) as nat,
            ));
        }
        planes.push(plane);
    }
    assert(planes_of(planes@) =~= split_block(block@, channels as nat, frames as nat));
    planes
}

/// Puts `frames` frames of every channel together at the start of a block.
pub fn join_channels<S: Copy>(planes: &Vec<Vec<S>>, frames: usize, block: &mut Vec<S>)
    requires
        frames * planes@.len() <= old(block)@.len(),
        forall|c: int| 0 <= c < planes@.len() ==> (#[trigger] planes@[c])@.len() >= frames,
    ensures
        final(block)@ == joined_block(
            planes_of(planes@),
            planes@.len(),
            frames as nat,
            old(block)@,
        ),
{
    let channels = planes.len();
    let ghost before = block@;
    let length = block.len();
    let total = frames * channels;
    for i in 0..total
        invariant
            total == frames * channels,
            channels == planes@.len(),
            total <= length,
            length == before.len(),
            block@.len() == length,
            forall|c: int| 0 <= c < planes@.len() ==> (#[trigger] planes@[c])@.len() >= frames,
            forall|j: int|
                0 <= j < length ==> #[trigger] block@[j] == if j < i {
                    planes_of(planes@)[j % channels as int][j / channels as int]
                } else {
                    before[j]
                },
    {
        assert(channels > 0) by (nonlinear_arith)
            requires
                frames * channels > 0,
                channels >= 0,
        ;
        assert(i / channels < frames) by (nonlinear_arith)
            requires
                i < frames * channels,
                channels > 0,
        ;
        let plane = &planes[i % channels];
        assert(planes@[(i % channels) as int]@.len() >= frames);
        let sample = plane[i / channels];
        block.set(i, sample);
    }
    assert(block@ =~= joined_block(planes_of(planes@), planes@.len(), frames as nat, before));
}

/// A resampler that takes blocks of a fixed length.
#[derive(Debug, PartialEq, Eq)]
pub struct FixedInputResampler {
    pub channels: usize,
    pub input_frames: usize,
    pub input_rate: u32,
    pub output_rate: u32,
}

impl FixedInputResampler {
    /// Whether the resampler can work.
    pub open spec fn wf(self) -> bool {
        config_fault(self.input_rate, self.output_rate, self.channels, self.input_frames) is None
    }

    /// Lays a resampler out.
    pub fn new(input_rate: u32, output_rate: u32, channels: usize, input_frames: usize) -> (result:
        Result<Self, ResamplerConfigError>)
        ensures
            match result {
                Ok(resampler) => resampler.wf() && resampler == (FixedInputResampler {
                    channels,
                    input_frames,
                    input_rate,
                    output_rate,
                }),
                Err(e) => config_fault(input_rate, output_rate, channels, input_frames) == Some(e@),
            },
    {
        match check_config(input_rate, output_rate, channels, input_frames) {
            Ok(_) => Ok(FixedInputResampler { channels, input_frames, input_rate, output_rate }),
            Err(e) => Err(e),
        }
    }

    /// The channels of a frame.
    pub fn channels(&self) -> (channels: usize)
        ensures
            channels == self.channels,
    {
        self.channels
    }

    /// The frames of a block that goes in.
    pub fn input_frames(&self) -> (frames: usize)
        ensures
            frames == self.input_frames,
    {
        self.input_frames
    }

    /// The rate of what goes in.
    pub fn input_rate(&self) -> (rate: u32)
        ensures
            rate == self.input_rate,
    {
        self.input_rate
    }

    /// The rate of what comes out.
    pub fn output_rate(&self) -> (rate: u32)
        ensures
            rate == self.output_rate,
    {
        self.output_rate
    }

    /// Takes over new rates, once the resampling engine has answered. Neither rates of 0
    /// nor a refusal of the engine change anything.
    pub fn set_sample_rates(
        &mut self,
        input_rate: u32,
        output_rate: u32,
        engine: Result<(), String>,
    ) -> (result: Result<(), ResamplerConfigError>)
        ensures
            match result {
                Ok(_) => rate_fault(input_rate, output_rate) is None && engine is Ok
                    && *final(self) == (FixedInputResampler { input_rate, output_rate, ..*old(self) }),
                Err(e) => *final(self) == *old(self) && match rate_fault(input_rate, output_rate) {
                    Some(fault) => e@ == fault,
                    None => engine matches Err(reason) && e@ == ResamplerConfigFault::Rubato(
                        reason@,
                    ),
                },
            },
    {
        if let Err(e) = check_rates(input_rate, output_rate) {
            return Err(e);
        }
        if let Err(reason) = engine {
            return Err(ResamplerConfigError::Rubato(reason));
        }
        self.input_rate = input_rate;
        self.output_rate = output_rate;
        Ok(())
    }

    /// Why a block cannot be resampled, if it cannot. The output has to have room for
    /// `frames_max` frames, the most that can come out.
    pub open spec fn block_fault(self, input: nat, output: nat, frames_max: usize) -> Option<
        ResamplerProcessFault,
    > {
        if input != self.input_frames * self.channels {
            Some(
                ResamplerProcessFault::InputLength {
                    expected: self.input_frames * self.channels,
                    actual: input as int,
                },
            )
        } else if frames_max * self.channels > usize::MAX {
            Some(ResamplerProcessFault::Rubato("输出样本容量溢出"@))
        } else if output < frames_max * self.channels {
            Some(
                ResamplerProcessFault::OutputLength {
                    expected: frames_max * self.channels,
                    actual: output as int,
                },
            )
        } else {
            None
        }
    }

    /// Checks a block and splits it into its channels.
    pub fn take_block<S: Copy>(&self, input: &[S], output: usize, frames_max: usize) -> (result:
        Result<Vec<Vec<S>>, ResamplerProcessError>)
        requires
            self.wf(),
        ensures
            match result {
                Ok(planes) => self.block_fault(input@.len(), output as nat, frames_max) is None
                    && planes_of(planes@) == split_block(
                    input@,
                    self.channels as nat,
                    self.input_frames as nat,
                ),
                Err(e) => self.block_fault(input@.len(), output as nat, frames_max) == Some(e@),
            },
    {
        let expected = self.input_frames * self.channels;
        let length = input.len();
        if length != expected {
            return Err(ResamplerProcessError::InputLength { expected, actual: length });
        }
        let room = match frames_max.checked_mul(self.channels) {
            Some(room) => room,
            None => {
                return Err(ResamplerProcessError::Rubato("输出样本容量溢出".to_owned()));
            },
        };
        if output < room {
            return Err(ResamplerProcessError::OutputLength { expected: room, actual: output });
        }
        Ok(split_channels(input, self.channels, self.input_frames))
    }
}

/// A resampler that gives blocks of a fixed length.
#[derive(Debug, PartialEq, Eq)]
pub struct FixedOutputResampler {
    pub channels: usize,
    pub output_frames: usize,
    pub input_rate: u32,
    pub output_rate: u32,
}

impl FixedOutputResampler {
    /// Whether the resampler can work.
    pub open spec fn wf(self) -> bool {
        config_fault(self.input_rate, self.output_rate, self.channels, self.output_frames) is None
    }

    /// Lays a resampler out.
    pub fn new(input_rate: u32, output_rate: u32, channels: usize, output_frames: usize) -> (result:
        Result<Self, ResamplerConfigError>)
        ensures
            match result {
                Ok(resampler) => resampler.wf() && resampler == (FixedOutputResampler {
                    channels,
                    output_frames,
                    input_rate,
                    output_rate,
                }),
                Err(e) => config_fault(input_rate, output_rate, channels, output_frames) == Some(
                    e@,
                ),
            },
    {
        match check_config(input_rate, output_rate, channels, output_frames) {
            Ok(_) => Ok(FixedOutputResampler { channels, output_frames, input_rate, output_rate }),
            Err(e) => Err(e),
        }
    }

    /// The channels of a frame.
    pub fn channels(&self) -> (channels: usize)
        ensures
            channels == self.channels,
    {
        self.channels
    }

    /// The frames of a block that comes out.
    pub fn output_frames(&self) -> (frames: usize)
        ensures
            frames == self.output_frames,
    {
        self.output_frames
    }

    /// The rate of what goes in.
    pub fn input_rate(&self) -> (rate: u32)
        ensures
            rate == self.input_rate,
    {
        self.input_rate
    }

    /// The rate of what comes out.
    pub fn output_rate(&self) -> (rate: u32)
        ensures
            rate == self.output_rate,
    {
        self.output_rate
    }

    /// Takes over new rates, once the resampling engine has answered. Neither rates of 0
    /// nor a refusal of the engine change anything.
    pub fn set_sample_rates(
        &mut self,
        input_rate: u32,
        output_rate: u32,
        engine: Result<(), String>,
    ) -> (result: Result<(), ResamplerConfigError>)
        ensures
            match result {
                Ok(_) => rate_fault(input_rate, output_rate) is None && engine is Ok
                    && *final(self) == (FixedOutputResampler {
                    input_rate,
                    output_rate,
                    ..*old(self)
                }),
                Err(e) => *final(self) == *old(self) && match rate_fault(input_rate, output_rate) {
                    Some(fault) => e@ == fault,
                    None => engine matches Err(reason) && e@ == ResamplerConfigFault::Rubato(
                        reason@,
                    ),
                },
            },
    {
        if let Err(e) = check_rates(input_rate, output_rate) {
            return Err(e);
        }
        if let Err(reason) = engine {
            return Err(ResamplerConfigError::Rubato(reason));
        }
        self.input_rate = input_rate;
        self.output_rate = output_rate;
        Ok(())
    }

    /// Why a block cannot be resampled, if it cannot. It has to have the frames that the
    /// engine asks for.
    pub open spec fn block_fault(self, input: nat, output: nat, input_frames: usize) -> Option<
        ResamplerProcessFault,
    > {
        if input_frames * self.channels > usize::MAX {
            Some(ResamplerProcessFault::Rubato("输入样本容量溢出"@))
        } else if input != input_frames * self.channels {
            Some(
                ResamplerProcessFault::InputLength {
                    expected: input_frames * self.channels,
                    actual: input as int,
                },
            )
        } else if output != self.output_frames * self.channels {
            Some(
                ResamplerProcessFault::OutputLength {
                    expected: self.output_frames * self.channels,
                    actual: output as int,
                },
            )
        } else {
            None
        }
    }

    /// Checks a block and splits it into its channels.
    pub fn take_block<S: Copy>(&self, input: &[S], output: usize, input_frames: usize) -> (result:
        Result<Vec<Vec<S>>, ResamplerProcessError>)
        requires
            self.wf(),
        ensures
            match result {
                Ok(planes) => self.block_fault(input@.len(), output as nat, input_frames) is None
                    && planes_of(planes@) == split_block(
                    input@,
                    self.channels as nat,
                    input_frames as nat,
                ),
                Err(e) => self.block_fault(input@.len(), output as nat, input_frames) == Some(e@),
            },
    {
        let length = input.len();
        let expected = match input_frames.checked_mul(self.channels) {
            Some(expected) => expected,
            None => {
                return Err(ResamplerProcessError::Rubato("输入样本容量溢出".to_owned()));
            },
        };
        if length != expected {
            return Err(ResamplerProcessError::InputLength { expected, actual: length });
        }
        let room = self.output_frames * self.channels;
        if output != room {
            return Err(ResamplerProcessError::OutputLength { expected: room, actual: output });
        }
        Ok(split_channels(input, self.channels, input_frames))
    }

    /// Takes what the engine gave: `written` frames of every channel, which have to be as
    /// many as a block has.
    pub fn give_block<S: Copy>(&self, planes: &Vec<Vec<S>>, written: usize, output: &mut Vec<S>)
        -> (result: Result<(), ResamplerProcessError>)
        requires
            planes@.len() == self.channels,
            self.output_frames * self.channels == old(output)@.len(),
            forall|c: int| 0 <= c < planes@.len() ==> (#[trigger] planes@[c])@.len() >= written,
        ensures
            match result {
                Ok(_) => written == self.output_frames && final(output)@ == joined_block(
                    planes_of(planes@),
                    self.channels as nat,
                    written as nat,
                    old(output)@,
                ),
                Err(e) => written != self.output_frames && final(output)@ == old(output)@ && e@ == (
                ResamplerProcessFault::OutputFrames {
                    expected: self.output_frames as int,
                    actual: written as int,
                }),
            },
    {
        if written != self.output_frames {
            return Err(
                ResamplerProcessError::OutputFrames {
                    expected: self.output_frames,
                    actual: written,
                },
            );
        }
        join_channels(planes, written, output);
        Ok(())
    }
}

/// Splitting a block into channels and joining them gives the block.
pub proof fn law_split_then_joined<S>(block: Seq<S>, channels: nat, frames: nat)
    requires
        channels > 0,
        block.len() == frames * channels,
    ensures
        joined_block(split_block(block, channels, frames), channels, frames, block) == block,
{
    let result = joined_block(split_block(block, channels, frames), channels, frames, block);
    assert forall|i: int| 0 <= i < block.len() implies #[trigger] result[i] == block[i] by {
        let (frame, channel) = (i / channels as int, i % channels as int);
        vstd::arithmetic::div_mod::lemma_fundamental_div_mod(i, channels as int);
        assert(0 <= frame < frames) by (nonlinear_arith)
            requires
                0 <= i < frames * channels,
                channels > 0,
                frame == i / channels as int,
        ;
        assert(frame * channels + channel == i) by (nonlinear_arith)
            requires
                i == channels * frame + channel,
        ;
        assert(0 <= channel < channels);
    }
    assert(result =~= block);
}

/// The samples of a channel are every so many-th of a block, from its own place on, and go back to
/// the same places; what is behind the frames of a block is not touched.
pub proof fn law_channels_are_split_and_joined<S>(
    block: Seq<S>,
    planes: Seq<Seq<S>>,
    channels: nat,
    frames: nat,
    frame: int,
    channel: int,
)
    requires
        0 <= frame < frames,
        0 <= channel < channels,
        frames * channels <= block.len(),
    ensures
        split_block(block, channels, frames).len() == channels,
        split_block(block, channels, frames)[channel].len() == frames,
        split_block(block, channels, frames)[channel][frame] == block[frame * channels + channel],
        joined_block(planes, channels, frames, block).len() == block.len(),
        joined_block(planes, channels, frames, block)[frame * channels + channel]
            == planes[channel][frame],
        forall|i: int|
            frames * channels <= i < block.len() ==> #[trigger] joined_block(
                planes,
                channels,
                frames,
                block,
            )[i] == block[i],
{
    let i = frame * channels + channel;
    assert(0 <= i < frames * channels) by (nonlinear_arith)
        requires
            i == frame * channels + channel,
            0 <= frame < frames,
            0 <= channel < channels,
    ;
    vstd::arithmetic::div_mod::lemma_fundamental_div_mod_converse(
        i,
        channels as int,
        frame,
        channel,
    );
}

/// A resampler needs rates, channels and frames, and a block of it has to fit; what is missing is
/// told.
pub proof fn law_resamplers_that_can_be_set_up(
    input_rate: u32,
    output_rate: u32,
    channels: usize,
    frames: usize,
)
    ensures
        config_fault(input_rate, output_rate, channels, frames) is None <==> {
            &&& input_rate > 0
            &&& output_rate > 0
            &&& channels > 0
            &&& frames > 0
            &&& frames * channels <= usize::MAX
        },
        input_rate == 0 ==> config_fault(input_rate, output_rate, channels, frames) == Some(
            ResamplerConfigFault::ZeroInputRate,
        ),
        input_rate > 0 && output_rate == 0 ==> config_fault(
            input_rate,
            output_rate,
            channels,
            frames,
        ) == Some(ResamplerConfigFault::ZeroOutputRate),
{
}

} // verus!
