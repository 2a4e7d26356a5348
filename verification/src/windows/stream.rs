//! What is written to a render endpoint, and what is read from a capture endpoint.

use crate::routing::{EndpointId, INTERNAL_CHANNELS};
use crate::text::decimal_text;
use crate::windows::endpoint::{EndpointFormat, WindowsAudioError, WindowsFault};
use crate::windows::open::{OpenStep, StreamKind, StreamOpening};
use vstd::prelude::*;

verus! {

/// What became of a block that was to be rendered.
#[derive(Clone, Copy, Debug, PartialEq, Eq, Structural)]
pub enum RenderWriteResult {
    /// So many frames went to the device. They are fewer than those of the planned block
    /// where the device had less room.
    Written { frames: u32 },
    /// The device had no room for the block.
    NoSpace,
}

/// A stream that plays on a render endpoint.
#[derive(Debug, PartialEq, Eq)]
pub struct WasapiRenderSink {
    pub endpoint_id: EndpointId,
    pub format: EndpointFormat,
    pub buffer_frames: u32,
    pub block_frames: usize,
}

/// What a resampler takes and gives with its next block.
#[derive(Clone, Copy, Debug, PartialEq, Eq, Structural)]
pub struct ResamplerShape {
    pub input_frames: usize,
    pub output_frames: u32,
}

/// What is to be done with a block.
#[derive(Clone, Copy, Debug, PartialEq, Eq, Structural)]
pub enum RenderPlan {
    /// Nothing: the device has no room for it.
    NoSpace,
    /// Write it as so many frames.
    Write { frames: u32 },
    /// Fill it up with silence to so many frames, resample it, and write all that comes
    /// out.
    Resample { input_frames: usize },
}

/// A call that rendering makes.
#[derive(Clone, Copy, Debug, PartialEq, Eq, Structural)]
pub enum RenderCall {
    GetCurrentPadding,
    GetBuffer,
    ReleaseBuffer,
}

/// The name of a call in error messages.
pub open spec fn render_operation(call: RenderCall) -> Seq<char> {
    match call {
        RenderCall::GetCurrentPadding => "IAudioClient::GetCurrentPadding"@,
        RenderCall::GetBuffer => "IAudioRenderClient::GetBuffer"@,
        RenderCall::ReleaseBuffer => "IAudioRenderClient::ReleaseBuffer"@,
    }
}

/// What the device is to be given for a block of `input_frames`, or why it is given
/// nothing. A short block is filled up with silence: to the planned block, or to what the
/// resampler takes; without a resampler as far as the device has room. No part of the input
/// is left out.
pub open spec fn render_plan(
    endpoint: Seq<char>,
    buffer_frames: u32,
    block_frames: usize,
    input_frames: nat,
    padding: u32,
    resampler: Option<ResamplerShape>,
) -> Result<RenderPlan, WindowsFault> {
    let room = buffer_frames - padding;
    if room < 0 {
        Err(
            WindowsFault::RenderState {
                reason: "GetCurrentPadding 超过设备 buffer frame 数"@,
                endpoint_id: endpoint,
            },
        )
    } else if room == 0 {
        Ok(RenderPlan::NoSpace)
    } else {
        match resampler {
            Some(shape) => if input_frames > shape.input_frames {
                Err(
                    WindowsFault::RenderBlockTooLarge {
                        expected: shape.input_frames,
                        actual: input_frames as usize,
                    },
                )
            } else if room < shape.output_frames {
                Ok(RenderPlan::NoSpace)
            } else {
                Ok(RenderPlan::Resample { input_frames: shape.input_frames })
            },
            None => if room < input_frames {
                Ok(RenderPlan::NoSpace)
            } else if room < block_frames {
                Ok(RenderPlan::Write { frames: room as u32 })
            } else {
                Ok(RenderPlan::Write { frames: block_frames as u32 })
            },
        }
    }
}

impl WasapiRenderSink {
    /// The sink that an opening has come to. There is none before the stream runs.
    pub fn opened(opening: &StreamOpening, endpoint_id: &EndpointId, block_frames: usize) -> (sink:
        Option<Self>)
        ensures
            match sink {
                Some(sink) => opening@.step == OpenStep::Opened && opening@.format == Some(
                    sink.format,
                ) && sink.endpoint_id == *endpoint_id && sink.buffer_frames
                    == opening@.buffer_frames && sink.block_frames == block_frames,
                None => opening@.step != OpenStep::Opened || opening@.format is None,
            },
    {
        if opening.step() != OpenStep::Opened {
            return None;
        }
        match opening.format() {
            Some(format) => Some(
                WasapiRenderSink {
                    endpoint_id: endpoint_id.clone(),
                    format,
                    buffer_frames: opening.buffer_frames(),
                    block_frames,
                },
            ),
            None => None,
        }
    }

    /// The endpoint.
    pub fn endpoint_id(&self) -> (endpoint_id: &EndpointId)
        ensures
            *endpoint_id == self.endpoint_id,
    {
        &self.endpoint_id
    }

    /// The mix format of the endpoint.
    pub fn format(&self) -> (format: EndpointFormat)
        ensures
            format == self.format,
    {
        self.format
    }

    /// The frames that the device buffer holds.
    pub fn buffer_frames(&self) -> (frames: u32)
        ensures
            frames == self.buffer_frames,
    {
        self.buffer_frames
    }

    /// The most frames that one block may have.
    pub fn block_frames(&self) -> (frames: usize)
        ensures
            frames == self.block_frames,
    {
        self.block_frames
    }

    /// The frames of a block of interleaved samples. Refuses a block whose last frame is
    /// incomplete, then one that is longer than planned.
    pub fn check_block(&self, samples: usize) -> (result: Result<usize, WindowsAudioError>)
        ensures
            match result {
                Ok(frames) => samples == frames * INTERNAL_CHANNELS && frames <= self.block_frames,
                Err(e) => if samples % INTERNAL_CHANNELS != 0 {
                    e@ == (WindowsFault::RenderInputUnaligned {
                        samples,
                        channels: INTERNAL_CHANNELS,
                    })
                } else {
                    samples / INTERNAL_CHANNELS > self.block_frames && e@ == (
                    WindowsFault::RenderBlockTooLarge {
                        expected: self.block_frames,
                        actual: (samples / INTERNAL_CHANNELS) as usize,
                    })
                },
            },
    {
        if samples % INTERNAL_CHANNELS != 0 {
            return Err(
                WindowsAudioError::RenderInputUnaligned { samples, channels: INTERNAL_CHANNELS },
            );
        }
        let frames = samples / INTERNAL_CHANNELS;
        if frames > self.block_frames {
            return Err(
                WindowsAudioError::RenderBlockTooLarge {
                    expected: self.block_frames,
                    actual: frames,
                },
            );
        }
        Ok(frames)
    }

    /// Decides what the device is given for a block, by how many frames still wait in its
    /// buffer.
    pub fn plan_write(&self, input_frames: usize, padding: u32, resampler: Option<ResamplerShape>)
        -> (result: Result<RenderPlan, WindowsAudioError>)
        requires
            self.block_frames <= u32::MAX,
        ensures
            match result {
                Ok(plan) => render_plan(
                    self.endpoint_id.0@,
                    self.buffer_frames,
                    self.block_frames,
                    input_frames as nat,
                    padding,
                    resampler,
                ) == Ok::<RenderPlan, WindowsFault>(plan),
                Err(e) => render_plan(
                    self.endpoint_id.0@,
                    self.buffer_frames,
                    self.block_frames,
                    input_frames as nat,
                    padding,
                    resampler,
                ) == Err::<RenderPlan, WindowsFault>(e@),
            },
    {
        if padding > self.buffer_frames {
            return Err(
                WindowsAudioError::RenderState {
                    reason: "GetCurrentPadding 超过设备 buffer frame 数",
                    endpoint_id: self.endpoint_id.0.clone(),
                },
            );
        }
        let room = self.buffer_frames - padding;
        if room == 0 {
            return Ok(RenderPlan::NoSpace);
        }
        match resampler {
            Some(shape) => {
                if input_frames > shape.input_frames {
                    return Err(
                        WindowsAudioError::RenderBlockTooLarge {
                            expected: shape.input_frames,
                            actual: input_frames,
                        },
                    );
                }
                if room < shape.output_frames {
                    Ok(RenderPlan::NoSpace)
                } else {
                    Ok(RenderPlan::Resample { input_frames: shape.input_frames })
                }
            },
            None => {
                if (room as u64) < input_frames as u64 {
                    Ok(RenderPlan::NoSpace)
                } else if (room as u64) < self.block_frames as u64 {
                    Ok(RenderPlan::Write { frames: room })
                } else {
                    Ok(RenderPlan::Write { frames: self.block_frames as u32 })
                }
            },
        }
    }

    /// The error of a call that failed.
    pub fn call_failed(&self, call: RenderCall, hresult: i32) -> (error: WindowsAudioError)
        ensures
            error@ == (WindowsFault::HResult {
                operation: render_operation(call),
                hresult,
                endpoint_id: Some(self.endpoint_id.0@),
            }),
    {
        let operation = match call {
            RenderCall::GetCurrentPadding => "IAudioClient::GetCurrentPadding",
            RenderCall::GetBuffer => "IAudioRenderClient::GetBuffer",
            RenderCall::ReleaseBuffer => "IAudioRenderClient::ReleaseBuffer",
        };
        WindowsAudioError::HResult {
            operation,
            hresult,
            endpoint_id: Some(self.endpoint_id.0.clone()),
        }
    }

    /// The error of a device buffer that is not there.
    pub fn buffer_missing(&self) -> (error: WindowsAudioError)
        ensures
            error@ == (WindowsFault::RenderState {
                reason: "IAudioRenderClient::GetBuffer 返回空指针"@,
                endpoint_id: self.endpoint_id.0@,
            }),
    {
        WindowsAudioError::RenderState {
            reason: "IAudioRenderClient::GetBuffer 返回空指针",
            endpoint_id: self.endpoint_id.0.clone(),
        }
    }

    /// The error of a block that could not be resampled.
    pub fn resample_failed(&self, reason: String) -> (error: WindowsAudioError)
        ensures
            error@ == (WindowsFault::RenderResample {
                reason: reason@,
                endpoint_id: self.endpoint_id.0@,
            }),
    {
        WindowsAudioError::RenderResample { reason, endpoint_id: self.endpoint_id.0.clone() }
    }
}

/// The samples that a buffer of `frames` gets: those of the block, then silence.
pub open spec fn filled<S>(samples: Seq<S>, frames: nat, silence: S) -> Seq<S> {
    Seq::new(
        frames * INTERNAL_CHANNELS as nat,
        |i: int|
            if i < samples.len() {
                samples[i]
            } else {
                silence
            },
    )
}

/// Lays out what a buffer of `frames` gets.
pub fn fill_buffer<S: Copy>(samples: &[S], frames: usize, silence: S) -> (buffer: Vec<S>)
    requires
        frames * INTERNAL_CHANNELS <= usize::MAX,
    ensures
        buffer@ == filled(samples@, frames as nat, silence),
{
    let total = frames * INTERNAL_CHANNELS;
    let mut buffer: Vec<S> = Vec::new();
    for i in 0..total
        invariant
            total == frames * INTERNAL_CHANNELS,
            buffer@.len() == i,
            forall|j: int| 0 <= j < i ==> buffer@[j] == filled(samples@, frames as nat, silence)[j],
    {
        let sample = if i < samples.len() {
            samples[i]
        } else {
            silence
        };
        buffer.push(sample);
    }
    assert(buffer@ =~= filled(samples@, frames as nat, silence));
    buffer
}

/// A block that is shorter than a resampler takes is resampled with silence behind it, where
/// the device has room for what comes out.
pub proof fn law_short_block_is_resampled<S>(
    sink: WasapiRenderSink,
    samples: Seq<S>,
    padding: u32,
    shape: ResamplerShape,
    silence: S,
)
    requires
        samples.len() % INTERNAL_CHANNELS as nat == 0,
        samples.len() / INTERNAL_CHANNELS as nat <= shape.input_frames,
        0 < shape.output_frames <= sink.buffer_frames - padding,
    ensures
        render_plan(
            sink.endpoint_id.0@,
            sink.buffer_frames,
            sink.block_frames,
            samples.len() / INTERNAL_CHANNELS as nat,
            padding,
            Some(shape),
        ) == Ok::<RenderPlan, WindowsFault>(RenderPlan::Resample { input_frames: shape.input_frames }),
        samples.is_prefix_of(filled(samples, shape.input_frames as nat, silence)),
        filled(samples, shape.input_frames as nat, silence).len() == shape.input_frames
            * INTERNAL_CHANNELS,
{
}

/// A block that is written is written whole: the plan never has fewer frames than the
/// block, nor more than the device has room for.
pub proof fn law_written_block_is_whole<S>(
    sink: WasapiRenderSink,
    samples: Seq<S>,
    padding: u32,
    silence: S,
)
    requires
        samples.len() % INTERNAL_CHANNELS as nat == 0,
        sink.block_frames <= u32::MAX,
        samples.len() / INTERNAL_CHANNELS as nat <= sink.block_frames,
    ensures
        render_plan(
            sink.endpoint_id.0@,
            sink.buffer_frames,
            sink.block_frames,
            samples.len() / INTERNAL_CHANNELS as nat,
            padding,
            None,
        ) matches Ok(RenderPlan::Write { frames }) ==> samples.is_prefix_of(
            filled(samples, frames as nat, silence),
        ) && frames <= sink.buffer_frames - padding && frames <= sink.block_frames,
{
}

/// One packet of recorded audio. A silent one has no samples.
#[derive(Clone, Copy, Debug, PartialEq, Eq, Structural)]
pub struct CapturePacket {
    pub frames: u32,
    pub silent: bool,
    pub discontinuity: bool,
    pub timestamp_error: bool,
}

/// What was read in one go.
#[derive(Clone, Copy, Debug, PartialEq, Eq, Structural)]
pub struct CaptureDrainResult {
    pub packets: u64,
    pub frames: u64,
    pub silent_packets: u64,
    pub discontinuities: u64,
    pub timestamp_errors: u64,
}

impl Default for CaptureDrainResult {
    fn default() -> (result: Self)
        ensures
            result == nothing_drained(),
    {
        CaptureDrainResult {
            packets: 0,
            frames: 0,
            silent_packets: 0,
            discontinuities: 0,
            timestamp_errors: 0,
        }
    }
}

/// The counts before the first packet.
pub open spec fn nothing_drained() -> CaptureDrainResult {
    CaptureDrainResult {
        packets: 0,
        frames: 0,
        silent_packets: 0,
        discontinuities: 0,
        timestamp_errors: 0,
    }
}

/// 1 for what happened, 0 for what did not.
pub open spec fn one_if(happened: bool) -> int {
    if happened {
        1
    } else {
        0
    }
}

/// The counts with one more packet.
pub open spec fn drained_packet(
    result: CaptureDrainResult,
    packet: CapturePacket,
) -> CaptureDrainResult {
    CaptureDrainResult {
        packets: (result.packets + 1) as u64,
        frames: (result.frames + packet.frames) as u64,
        silent_packets: (result.silent_packets + one_if(packet.silent)) as u64,
        discontinuities: (result.discontinuities + one_if(packet.discontinuity)) as u64,
        timestamp_errors: (result.timestamp_errors + one_if(packet.timestamp_error)) as u64,
    }
}

/// The counts after several packets.
pub open spec fn drained_packets(packets: Seq<CapturePacket>) -> CaptureDrainResult
    decreases packets.len(),
{
    if packets.len() == 0 {
        nothing_drained()
    } else {
        drained_packet(drained_packets(packets.drop_last()), packets.last())
    }
}

/// Whether the counts can take one more packet.
pub open spec fn drain_has_room(result: CaptureDrainResult) -> bool {
    &&& result.packets < u64::MAX
    &&& result.frames <= u64::MAX - u32::MAX
    &&& result.silent_packets < u64::MAX
    &&& result.discontinuities < u64::MAX
    &&& result.timestamp_errors < u64::MAX
}

/// The packet that a buffer of so many frames and with such flags holds: bit 0 marks a
/// gap, bit 1 silence and bit 2 a time stamp that is wrong.
pub open spec fn packet_of(frames: u32, flags: u32) -> CapturePacket {
    CapturePacket {
        frames,
        silent: flags & 2 != 0,
        discontinuity: flags & 1 != 0,
        timestamp_error: flags & 4 != 0,
    }
}

/// A call that reading packets makes.
#[derive(Clone, Copy, Debug, PartialEq, Eq, Structural)]
pub enum CaptureCall {
    GetNextPacketSize,
    GetBuffer,
    ReleaseBuffer,
}

/// The name of a call in error messages.
pub open spec fn capture_operation(process: bool, call: CaptureCall) -> Seq<char> {
    match (process, call) {
        (false, CaptureCall::GetNextPacketSize) => "IAudioCaptureClient::GetNextPacketSize"@,
        (false, CaptureCall::GetBuffer) => "IAudioCaptureClient::GetBuffer"@,
        (false, CaptureCall::ReleaseBuffer) => "IAudioCaptureClient::ReleaseBuffer"@,
        (true, CaptureCall::GetNextPacketSize) =>
            "IAudioCaptureClient::GetNextPacketSize(ProcessLoopback)"@,
        (true, CaptureCall::GetBuffer) => "IAudioCaptureClient::GetBuffer(ProcessLoopback)"@,
        (true, CaptureCall::ReleaseBuffer) =>
            "IAudioCaptureClient::ReleaseBuffer(ProcessLoopback)"@,
    }
}

/// What is wrong with a buffer.
#[derive(Clone, Copy, Debug, PartialEq, Eq, Structural)]
pub enum BufferDefect {
    /// It has no frames.
    Empty,
    /// It claims to have samples and has none.
    Missing,
}

/// What is said of a buffer with a defect.
pub open spec fn defect_reason(process: bool, defect: BufferDefect) -> Seq<char> {
    match (process, defect) {
        (false, BufferDefect::Empty) => "GetBuffer 返回 0 frame"@,
        (false, BufferDefect::Missing) => "非静音 packet 的 GetBuffer 返回空指针"@,
        (true, BufferDefect::Empty) => "Process Loopback GetBuffer 返回 0 frame"@,
        (true, BufferDefect::Missing) => "Process Loopback 非静音 packet 返回空指针"@,
    }
}

/// What the counts show of every reading.
pub open spec fn drain_is_consistent(result: CaptureDrainResult) -> bool {
    &&& result.silent_packets <= result.packets
    &&& result.discontinuities <= result.packets
    &&& result.timestamp_errors <= result.packets
    &&& result.packets <= result.frames
}

/// The reading of all packets that are there.
#[derive(Debug, PartialEq, Eq)]
pub struct CaptureDrain {
    pub endpoint: String,
    /// Whether a process is recorded, and not a device.
    pub process: bool,
    pub result: CaptureDrainResult,
}

impl CaptureDrain {
    /// Starts to read.
    pub fn new(endpoint: String, process: bool) -> (drain: Self)
        ensures
            drain.endpoint == endpoint,
            drain.process == process,
            drain.result == drained_packets(Seq::empty()),
    {
        CaptureDrain { endpoint, process, result: CaptureDrainResult::default() }
    }

    /// The error of a call that failed.
    pub fn call_failed(&self, call: CaptureCall, hresult: i32) -> (error: WindowsAudioError)
        ensures
            error@ == (WindowsFault::HResult {
                operation: capture_operation(self.process, call),
                hresult,
                endpoint_id: Some(self.endpoint@),
            }),
    {
        let operation = match (self.process, call) {
            (false, CaptureCall::GetNextPacketSize) => "IAudioCaptureClient::GetNextPacketSize",
            (false, CaptureCall::GetBuffer) => "IAudioCaptureClient::GetBuffer",
            (false, CaptureCall::ReleaseBuffer) => "IAudioCaptureClient::ReleaseBuffer",
            (true, CaptureCall::GetNextPacketSize) =>
                "IAudioCaptureClient::GetNextPacketSize(ProcessLoopback)",
            (true, CaptureCall::GetBuffer) => "IAudioCaptureClient::GetBuffer(ProcessLoopback)",
            (true, CaptureCall::ReleaseBuffer) =>
                "IAudioCaptureClient::ReleaseBuffer(ProcessLoopback)",
        };
        WindowsAudioError::HResult { operation, hresult, endpoint_id: Some(self.endpoint.clone()) }
    }

    /// Whether another packet is to be read, by the size of the next one.
    pub fn next_packet(&self, reply: Result<u32, i32>) -> (result: Result<bool, WindowsAudioError>)
        ensures
            match result {
                Ok(more) => reply matches Ok(frames) && more == (frames != 0),
                Err(e) => reply matches Err(hresult) && e@ == (WindowsFault::HResult {
                    operation: capture_operation(self.process, CaptureCall::GetNextPacketSize),
                    hresult,
                    endpoint_id: Some(self.endpoint@),
                }),
            },
    {
        match reply {
            Ok(frames) => Ok(frames != 0),
            Err(hresult) => Err(self.call_failed(CaptureCall::GetNextPacketSize, hresult)),
        }
    }

    /// The packet that a buffer holds, or what is wrong with the buffer. Either way the
    /// buffer is to be released.
    pub fn inspect_buffer(&self, frames: u32, flags: u32, has_data: bool) -> (result: Result<
        CapturePacket,
        BufferDefect,
    >)
        ensures
            match result {
                Ok(packet) => packet == packet_of(frames, flags) && frames != 0 && (packet.silent
                    || has_data),
                Err(BufferDefect::Empty) => frames == 0,
                Err(BufferDefect::Missing) => frames != 0 && !packet_of(frames, flags).silent
                    && !has_data,
            },
    {
        if frames == 0 {
            return Err(BufferDefect::Empty);
        }
        let silent = flags & 2 != 0;
        if !silent && !has_data {
            return Err(BufferDefect::Missing);
        }
        Ok(
            CapturePacket {
                frames,
                silent,
                discontinuity: flags & 1 != 0,
                timestamp_error: flags & 4 != 0,
            },
        )
    }

    /// The error of a buffer with a defect, after it was released. That an empty buffer of
    /// a device could not be released comes first.
    pub fn buffer_rejected(&self, defect: BufferDefect, release: Result<(), i32>) -> (error:
        WindowsAudioError)
        ensures
            error@ == (match release {
                Err(hresult) if !self.process && defect == BufferDefect::Empty =>
                    WindowsFault::HResult {
                    operation: capture_operation(false, CaptureCall::ReleaseBuffer),
                    hresult,
                    endpoint_id: Some(self.endpoint@),
                },
                _ => WindowsFault::CaptureState {
                    reason: defect_reason(self.process, defect),
                    endpoint_id: self.endpoint@,
                },
            }),
    {
        if !self.process && defect == BufferDefect::Empty {
            if let Err(hresult) = release {
                return self.call_failed(CaptureCall::ReleaseBuffer, hresult);
            }
        }
        let reason = match (self.process, defect) {
            (false, BufferDefect::Empty) => "GetBuffer 返回 0 frame",
            (false, BufferDefect::Missing) => "非静音 packet 的 GetBuffer 返回空指针",
            (true, BufferDefect::Empty) => "Process Loopback GetBuffer 返回 0 frame",
            (true, BufferDefect::Missing) => "Process Loopback 非静音 packet 返回空指针",
        };
        WindowsAudioError::CaptureState { reason, endpoint_id: self.endpoint.clone() }
    }

    /// Counts a packet, once its buffer is released. A packet whose buffer cannot be
    /// released is not counted.
    pub fn packet_released(&mut self, packet: CapturePacket, release: Result<(), i32>) -> (result:
        Result<(), WindowsAudioError>)
        requires
            drain_has_room(old(self).result),
        ensures
            final(self).endpoint == old(self).endpoint,
            final(self).process == old(self).process,
            match result {
                Ok(_) => release is Ok && final(self).result == drained_packet(
                    old(self).result,
                    packet,
                ),
                Err(e) => final(self).result == old(self).result && (release matches Err(hresult)
                    && e@ == (WindowsFault::HResult {
                    operation: capture_operation(old(self).process, CaptureCall::ReleaseBuffer),
                    hresult,
                    endpoint_id: Some(old(self).endpoint@),
                })),
            },
    {
        if let Err(hresult) = release {
            return Err(self.call_failed(CaptureCall::ReleaseBuffer, hresult));
        }
        self.result.packets = self.result.packets + 1;
        self.result.frames = self.result.frames + packet.frames as u64;
        if packet.silent {
            self.result.silent_packets = self.result.silent_packets + 1;
        }
        if packet.discontinuity {
            self.result.discontinuities = self.result.discontinuities + 1;
        }
        if packet.timestamp_error {
            self.result.timestamp_errors = self.result.timestamp_errors + 1;
        }
        Ok(())
    }
}

/// No count of a reading exceeds the packets, and there are at least as many frames as
/// packets: an empty packet is never counted.
pub proof fn law_drain_is_consistent(packets: Seq<CapturePacket>)
    requires
        packets.len() * u32::MAX <= u64::MAX,
        forall|i: int| 0 <= i < packets.len() ==> (#[trigger] packets[i]).frames > 0,
    ensures
        drain_is_consistent(drained_packets(packets)),
        drained_packets(packets).packets == packets.len(),
        drained_packets(packets).frames <= packets.len() * u32::MAX,
    decreases packets.len(),
{
    if packets.len() > 0 {
        let rest = packets.drop_last();
        assert(rest.len() * u32::MAX <= packets.len() * u32::MAX) by (nonlinear_arith)
            requires
                rest.len() <= packets.len(),
        ;
        assert(packets.len() * u32::MAX == rest.len() * u32::MAX + u32::MAX) by (nonlinear_arith)
            requires
                rest.len() + 1 == packets.len(),
        ;
        assert forall|i: int| 0 <= i < rest.len() implies (#[trigger] rest[i]).frames > 0 by {
            assert(rest[i] == packets[i]);
        }
        law_drain_is_consistent(rest);
        assert(packets.last() == packets[packets.len() - 1]);
    }
}

/// A stream that records from an endpoint.
#[derive(Debug, PartialEq, Eq)]
pub struct WasapiCaptureSource {
    pub endpoint_id: EndpointId,
    pub format: EndpointFormat,
    /// The most frames that one packet has.
    pub buffer_frames: u32,
}

impl WasapiCaptureSource {
    /// The source that an opening has come to. There is none before the stream runs.
    pub fn opened(opening: &StreamOpening, endpoint_id: &EndpointId) -> (source: Option<Self>)
        ensures
            match source {
                Some(source) => opening@.step == OpenStep::Opened && opening@.format == Some(
                    source.format,
                ) && source.endpoint_id == *endpoint_id && source.buffer_frames
                    == opening@.buffer_frames,
                None => opening@.step != OpenStep::Opened || opening@.format is None,
            },
    {
        if opening.step() != OpenStep::Opened {
            return None;
        }
        match opening.format() {
            Some(format) => Some(
                WasapiCaptureSource {
                    endpoint_id: endpoint_id.clone(),
                    format,
                    buffer_frames: opening.buffer_frames(),
                },
            ),
            None => None,
        }
    }

    /// The endpoint.
    pub fn endpoint_id(&self) -> (endpoint_id: &EndpointId)
        ensures
            *endpoint_id == self.endpoint_id,
    {
        &self.endpoint_id
    }

    /// The mix format of the endpoint.
    pub fn format(&self) -> (format: EndpointFormat)
        ensures
            format == self.format,
    {
        self.format
    }

    /// The most frames that one packet has.
    pub fn buffer_frames(&self) -> (frames: u32)
        ensures
            frames == self.buffer_frames,
    {
        self.buffer_frames
    }
}

/// A stream that records what a process and its children play.
#[derive(Debug, PartialEq, Eq)]
pub struct ProcessLoopbackSource {
    pub pid: u32,
    pub format: EndpointFormat,
}

impl ProcessLoopbackSource {
    /// The recording of a process, once its opening has ended or failed. There is no
    /// process 0, whatever was answered.
    pub fn open(pid: u32, opening: Result<StreamOpening, WindowsAudioError>) -> (result: Result<
        Self,
        WindowsAudioError,
    >)
        requires
            opening matches Ok(o) ==> o@.step == OpenStep::Opened && o@.format is Some && o@.kind
                == StreamKind::ProcessLoopback && o@.endpoint == "process:"@ + decimal_text(
                pid as nat,
            ),
        ensures
            if pid == 0 {
                result matches Err(e) && e@ == (WindowsFault::ProcessLoopbackInvalidPid { pid })
            } else {
                match (opening, result) {
                    (Ok(o), Ok(source)) => source.pid == pid && o@.format == Some(source.format),
                    (Err(e), Err(f)) => f == e,
                    _ => false,
                }
            },
    {
        if pid == 0 {
            return Err(WindowsAudioError::ProcessLoopbackInvalidPid { pid });
        }
        match opening {
            Ok(opening) => Ok(ProcessLoopbackSource::opened(&opening, pid).unwrap()),
            Err(e) => Err(e),
        }
    }

    /// The source that an opening has come to. There is none before the stream runs.
    pub fn opened(opening: &StreamOpening, pid: u32) -> (source: Option<Self>)
        ensures
            match source {
                Some(source) => opening@.step == OpenStep::Opened && opening@.format == Some(
                    source.format,
                ) && source.pid == pid,
                None => opening@.step != OpenStep::Opened || opening@.format is None,
            },
    {
        if opening.step() != OpenStep::Opened {
            return None;
        }
        match opening.format() {
            Some(format) => Some(ProcessLoopbackSource { pid, format }),
            None => None,
        }
    }

    /// The process.
    pub fn pid(&self) -> (pid: u32)
        ensures
            pid == self.pid,
    {
        self.pid
    }

    /// The format of the recording.
    pub fn format(&self) -> (format: EndpointFormat)
        ensures
            format == self.format,
    {
        self.format
    }
}

} // verus!
