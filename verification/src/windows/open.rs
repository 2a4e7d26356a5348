//! How a stream is opened: which call comes next, and what each reply leads to.
//!
//! The calls themselves are made elsewhere. A `StreamOpening` says which one is due and is
//! told how it went; it ends in `OpenStep::Opened` or in an error.

use crate::routing::{EndpointId, INTERNAL_CHANNELS, INTERNAL_SAMPLE_RATE};
use crate::text::{decimal_text, push_decimal};
use crate::windows::endpoint::{
    decode_mix_format, decoded_format, inactive_reason, invalid_format, is_device_not_ready_hresult,
    device_is_gone, le_u16, EndpointFlow, EndpointFormat, WindowsAudioError, WindowsFault,
};
use vstd::prelude::*;

verus! {

/// What a stream is opened for.
#[derive(Clone, Copy, Debug, PartialEq, Eq, Structural)]
pub enum StreamKind {
    /// Plays on a render endpoint.
    Render,
    /// Records from a capture endpoint.
    Capture,
    /// Records what a render endpoint plays.
    DeviceLoopback,
    /// Records what a process and its children play.
    ProcessLoopback,
}

/// The call that is due.
#[derive(Clone, Copy, Debug, PartialEq, Eq, Structural)]
pub enum OpenStep {
    InitializeCom,
    CreateEnumerator,
    GetDevice,
    GetState,
    QueryEndpoint,
    GetDataFlow,
    ActivateClient,
    GetMixFormat,
    CreateEvent,
    CreateCallbackEvent,
    ActivateAsync,
    WaitActivation,
    GetActivateResult,
    WaitCallback,
    InitializeClient,
    GetBufferSize,
    BuildResampler,
    GetService,
    StartClient,
    /// Nothing more is due: the stream runs.
    Opened,
}

/// How a call went.
#[derive(Debug, PartialEq, Eq)]
pub enum OpenEvent {
    /// The call succeeded and has nothing to say.
    Done,
    /// The call failed.
    Failed { hresult: i32 },
    /// What initialising COM returned.
    Com { hresult: i32 },
    /// Whether the device is active.
    State { active: bool },
    /// The direction of the endpoint.
    Flow { flow: EndpointFlow },
    /// The bytes of the mix format: its fixed part and as much of the extension as it
    /// announces. Absent for a null pointer.
    MixFormat { raw: Option<Vec<u8>> },
    /// The frames that the device buffer holds.
    BufferSize { frames: u32 },
    /// The resampler was refused.
    ResamplerFailed { reason: String },
    /// Whether the wait ended with a signal.
    Wait { signaled: bool },
    /// What the activation came to, and whether it gave an audio client.
    Activated { hresult: i32, has_client: bool },
}

/// What an `OpenEvent` says.
#[verifier::ext_equal]
pub enum EventModel {
    Done,
    Failed { hresult: i32 },
    Com { hresult: i32 },
    State { active: bool },
    Flow { flow: EndpointFlow },
    MixFormat { raw: Option<Seq<u8>> },
    BufferSize { frames: u32 },
    ResamplerFailed { reason: Seq<char> },
    Wait { signaled: bool },
    Activated { hresult: i32, has_client: bool },
}

impl View for OpenEvent {
    type V = EventModel;

    open spec fn view(&self) -> EventModel {
        match *self {
            OpenEvent::Done => EventModel::Done,
            OpenEvent::Failed { hresult } => EventModel::Failed { hresult },
            OpenEvent::Com { hresult } => EventModel::Com { hresult },
            OpenEvent::State { active } => EventModel::State { active },
            OpenEvent::Flow { flow } => EventModel::Flow { flow },
            OpenEvent::MixFormat { raw } => EventModel::MixFormat {
                raw: match raw {
                    Some(bytes) => Some(bytes@),
                    None => None,
                },
            },
            OpenEvent::BufferSize { frames } => EventModel::BufferSize { frames },
            OpenEvent::ResamplerFailed { reason } => EventModel::ResamplerFailed { reason: reason@ },
            OpenEvent::Wait { signaled } => EventModel::Wait { signaled },
            OpenEvent::Activated { hresult, has_client } => EventModel::Activated {
                hresult,
                has_client,
            },
        }
    }
}

/// Whether the event can be the reply to the call.
pub open spec fn answers(step: OpenStep, event: EventModel) -> bool {
    match step {
        OpenStep::InitializeCom => event is Com,
        OpenStep::GetState => event is State || event is Failed,
        OpenStep::GetDataFlow => event is Flow || event is Failed,
        OpenStep::GetMixFormat => event is MixFormat || event is Failed,
        OpenStep::GetBufferSize => event is BufferSize || event is Failed,
        OpenStep::BuildResampler => event is Done || event is ResamplerFailed,
        OpenStep::WaitActivation => event is Wait,
        OpenStep::WaitCallback => event is Wait,
        OpenStep::GetActivateResult => event is Activated || event is Failed,
        OpenStep::Opened => false,
        _ => event is Done || event is Failed,
    }
}

/// The name of a call in error messages.
pub open spec fn operation_name(kind: StreamKind, step: OpenStep) -> Seq<char> {
    match step {
        OpenStep::InitializeCom => ""@,
        OpenStep::CreateEnumerator => "CoCreateInstance(MMDeviceEnumerator)"@,
        OpenStep::GetDevice => "IMMDeviceEnumerator::GetDevice"@,
        OpenStep::GetState => "IMMDevice::GetState"@,
        OpenStep::QueryEndpoint => "IMMDevice::QueryInterface(IMMEndpoint)"@,
        OpenStep::GetDataFlow => "IMMEndpoint::GetDataFlow"@,
        OpenStep::ActivateClient => "IMMDevice::Activate(IAudioClient)"@,
        OpenStep::GetMixFormat => "IAudioClient::GetMixFormat"@,
        OpenStep::CreateEvent => "CreateEventW(ProcessLoopback)"@,
        OpenStep::CreateCallbackEvent => "CreateEventW(ProcessLoopback callback)"@,
        OpenStep::ActivateAsync => "ActivateAudioInterfaceAsync(ProcessLoopback)"@,
        OpenStep::WaitActivation => "ActivateAudioInterfaceAsync(ProcessLoopback) 等待"@,
        OpenStep::GetActivateResult =>
            "IActivateAudioInterfaceAsyncOperation::GetActivateResult"@,
        OpenStep::WaitCallback => "ActivateAudioInterfaceAsync(ProcessLoopback) 回调返回等待"@,
        OpenStep::InitializeClient => match kind {
            StreamKind::DeviceLoopback => "IAudioClient::Initialize(shared, loopback)"@,
            StreamKind::ProcessLoopback => "IAudioClient::Initialize(ProcessLoopback)"@,
            _ => "IAudioClient::Initialize(shared)"@,
        },
        OpenStep::GetBufferSize => "IAudioClient::GetBufferSize"@,
        OpenStep::BuildResampler => ""@,
        OpenStep::GetService => match kind {
            StreamKind::Render => "IAudioClient::GetService(IAudioRenderClient)"@,
            StreamKind::ProcessLoopback =>
                "IAudioClient::GetService(IAudioCaptureClient, ProcessLoopback)"@,
            _ => "IAudioClient::GetService(IAudioCaptureClient)"@,
        },
        OpenStep::StartClient => match kind {
            StreamKind::ProcessLoopback => "IAudioClient::Start(ProcessLoopback)"@,
            _ => "IAudioClient::Start"@,
        },
        OpenStep::Opened => ""@,
    }
}

/// The name of a call in error messages.
pub fn operation(kind: StreamKind, step: OpenStep) -> (name: &'static str)
    ensures
        name@ == operation_name(kind, step),
{
    match step {
        OpenStep::InitializeCom => "",
        OpenStep::CreateEnumerator => "CoCreateInstance(MMDeviceEnumerator)",
        OpenStep::GetDevice => "IMMDeviceEnumerator::GetDevice",
        OpenStep::GetState => "IMMDevice::GetState",
        OpenStep::QueryEndpoint => "IMMDevice::QueryInterface(IMMEndpoint)",
        OpenStep::GetDataFlow => "IMMEndpoint::GetDataFlow",
        OpenStep::ActivateClient => "IMMDevice::Activate(IAudioClient)",
        OpenStep::GetMixFormat => "IAudioClient::GetMixFormat",
        OpenStep::CreateEvent => "CreateEventW(ProcessLoopback)",
        OpenStep::CreateCallbackEvent => "CreateEventW(ProcessLoopback callback)",
        OpenStep::ActivateAsync => "ActivateAudioInterfaceAsync(ProcessLoopback)",
        OpenStep::WaitActivation => "ActivateAudioInterfaceAsync(ProcessLoopback) 等待",
        OpenStep::GetActivateResult => "IActivateAudioInterfaceAsyncOperation::GetActivateResult",
        OpenStep::WaitCallback => "ActivateAudioInterfaceAsync(ProcessLoopback) 回调返回等待",
        OpenStep::InitializeClient => match kind {
            StreamKind::DeviceLoopback => "IAudioClient::Initialize(shared, loopback)",
            StreamKind::ProcessLoopback => "IAudioClient::Initialize(ProcessLoopback)",
            _ => "IAudioClient::Initialize(shared)",
        },
        OpenStep::GetBufferSize => "IAudioClient::GetBufferSize",
        OpenStep::BuildResampler => "",
        OpenStep::GetService => match kind {
            StreamKind::Render => "IAudioClient::GetService(IAudioRenderClient)",
            StreamKind::ProcessLoopback =>
                "IAudioClient::GetService(IAudioCaptureClient, ProcessLoopback)",
            _ => "IAudioClient::GetService(IAudioCaptureClient)",
        },
        OpenStep::StartClient => match kind {
            StreamKind::ProcessLoopback => "IAudioClient::Start(ProcessLoopback)",
            _ => "IAudioClient::Start",
        },
        OpenStep::Opened => "",
    }
}

/// The flags that a client of the kind is initialised with: 0x8000_0000 converts samples,
/// 0x0002_0000 records what is played.
pub fn stream_flags(kind: StreamKind) -> (flags: u32)
    ensures
        flags == match kind {
            StreamKind::Render => 0x8000_0000u32,
            StreamKind::Capture => 0,
            StreamKind::DeviceLoopback => 0x0002_0000,
            StreamKind::ProcessLoopback => 0x8002_0000,
        },
{
    match kind {
        StreamKind::Render => 0x8000_0000,
        StreamKind::Capture => 0,
        StreamKind::DeviceLoopback => 0x0002_0000,
        StreamKind::ProcessLoopback => 0x8002_0000,
    }
}

/// The HRESULT of COM that is already initialised in another mode, 0x80010106.
pub const RPC_E_CHANGED_MODE: i32 = -2147417850;

/// The HRESULT of a wait that timed out, 0x800705B4.
pub const HRESULT_TIMEOUT: i32 = -2147023436;

/// The HRESULT of a failure without a reason, 0x80004005.
pub const E_FAIL: i32 = -2147467259;

/// The longest extension that a mix format may announce.
pub const MAX_FORMAT_EXTENSION: u16 = 4096;

/// Whether COM can be used after it was initialised with the result.
pub open spec fn com_usable(hresult: i32) -> bool {
    hresult >= 0 || hresult == RPC_E_CHANGED_MODE
}

/// Why a stream of the kind does not take the endpoint, or its direction.
pub open spec fn endpoint_state(kind: StreamKind, endpoint: Seq<char>, reason: Seq<char>) -> WindowsFault {
    if kind == StreamKind::Render {
        WindowsFault::RenderState { reason, endpoint_id: endpoint }
    } else {
        WindowsFault::CaptureState { reason, endpoint_id: endpoint }
    }
}

/// The direction that a stream of the kind needs.
pub open spec fn needed_flow(kind: StreamKind) -> EndpointFlow {
    if kind == StreamKind::Capture {
        EndpointFlow::Capture
    } else {
        EndpointFlow::Render
    }
}

/// What is said of an endpoint of the other direction.
pub open spec fn wrong_flow_reason(kind: StreamKind) -> Seq<char> {
    match kind {
        StreamKind::Render => "指定 endpoint 不是 render endpoint"@,
        StreamKind::Capture => "指定 endpoint 不是 capture endpoint"@,
        _ => "Device Loopback 目标必须是 render endpoint"@,
    }
}

/// The format that the bytes of a mix format give, or why they are refused.
pub open spec fn read_format(endpoint: Seq<char>, raw: Option<Seq<u8>>) -> Result<
    EndpointFormat,
    WindowsFault,
> {
    match raw {
        None => Err(
            WindowsFault::InvalidFormat {
                reason: "IAudioClient::GetMixFormat 返回空指针"@,
                endpoint_id: Some(endpoint),
            },
        ),
        Some(raw) => if raw.len() >= 18 && le_u16(raw, 16) > MAX_FORMAT_EXTENSION {
            Err(
                WindowsFault::InvalidFormat {
                    reason: "GetMixFormat 返回的 cbSize 过大"@,
                    endpoint_id: Some(endpoint),
                },
            )
        } else {
            match decoded_format(raw) {
                Err(reason) => Err(
                    WindowsFault::InvalidFormat { reason, endpoint_id: Some(endpoint) },
                ),
                Ok(format) => Ok(format),
            }
        },
    }
}

/// The bytes of a mix format, where there are any.
pub open spec fn format_bytes(raw: Option<Vec<u8>>) -> Option<Seq<u8>> {
    match raw {
        Some(bytes) => Some(bytes@),
        None => None,
    }
}

/// Reads the bytes of the mix format of an endpoint.
pub fn read_mix_format(endpoint: &String, raw: &Option<Vec<u8>>) -> (result: Result<
    EndpointFormat,
    WindowsAudioError,
>)
    ensures
        match result {
            Ok(format) => read_format(endpoint@, format_bytes(*raw)) == Ok::<
                EndpointFormat,
                WindowsFault,
            >(format),
            Err(e) => read_format(endpoint@, format_bytes(*raw)) == Err::<
                EndpointFormat,
                WindowsFault,
            >(e@),
        },
{
    let raw = match raw {
        Some(raw) => raw,
        None => {
            return Err(
                invalid_format("IAudioClient::GetMixFormat 返回空指针", Some(endpoint.clone())),
            );
        },
    };
    if raw.len() >= 18 && raw[16] as u16 + 0x100 * raw[17] as u16 > MAX_FORMAT_EXTENSION {
        return Err(invalid_format("GetMixFormat 返回的 cbSize 过大", Some(endpoint.clone())));
    }
    match decode_mix_format(raw.as_slice()) {
        Ok(format) => Ok(format),
        Err(WindowsAudioError::InvalidFormat { reason, .. }) => Err(
            WindowsAudioError::InvalidFormat { reason, endpoint_id: Some(endpoint.clone()) },
        ),
        Err(other) => Err(other),
    }
}

/// The format that a stream of the kind gets from the bytes of a mix format, or why they
/// are refused. Floats of 32 bits in two channels are taken, at any rate.
pub open spec fn inspected_format(
    kind: StreamKind,
    endpoint: Seq<char>,
    raw: Option<Seq<u8>>,
) -> Result<EndpointFormat, WindowsFault> {
    match read_format(endpoint, raw) {
        Err(fault) => Err(fault),
        Ok(format) => if format.renders() {
            Ok(format)
        } else if kind == StreamKind::Render {
            Err(
                WindowsFault::RenderFormatUnsupported {
                    endpoint_id: endpoint,
                    sample_rate: format.sample_rate,
                    bits_per_sample: format.bits_per_sample,
                    channels: format.channels,
                },
            )
        } else {
            Err(
                WindowsFault::CaptureFormatUnsupported {
                    endpoint_id: endpoint,
                    sample_rate: format.sample_rate,
                    bits_per_sample: format.bits_per_sample,
                    channels: format.channels,
                },
            )
        },
    }
}

/// Reads the bytes of a mix format for a stream of the kind.
pub fn inspect_mix_format(kind: StreamKind, endpoint: &String, raw: &Option<Vec<u8>>) -> (result:
    Result<EndpointFormat, WindowsAudioError>)
    ensures
        match result {
            Ok(format) => inspected_format(kind, endpoint@, format_bytes(*raw)) == Ok::<
                EndpointFormat,
                WindowsFault,
            >(format),
            Err(e) => inspected_format(kind, endpoint@, format_bytes(*raw)) == Err::<
                EndpointFormat,
                WindowsFault,
            >(e@),
        },
{
    let format = match read_mix_format(endpoint, raw) {
        Ok(format) => format,
        Err(e) => {
            return Err(e);
        },
    };
    if format.render_compatible() {
        return Ok(format);
    }
    if kind == StreamKind::Render {
        Err(
            WindowsAudioError::RenderFormatUnsupported {
                endpoint_id: endpoint.clone(),
                sample_rate: format.sample_rate,
                bits_per_sample: format.bits_per_sample,
                channels: format.channels,
            },
        )
    } else {
        Err(
            WindowsAudioError::CaptureFormatUnsupported {
                endpoint_id: endpoint.clone(),
                sample_rate: format.sample_rate,
                bits_per_sample: format.bits_per_sample,
                channels: format.channels,
            },
        )
    }
}

/// The format that a process is recorded in.
pub open spec fn process_format_model() -> EndpointFormat {
    EndpointFormat {
        sample_rate: INTERNAL_SAMPLE_RATE,
        bits_per_sample: 32,
        channels: INTERNAL_CHANNELS as u16,
        channel_mask: 0,
        is_float: true,
        is_pcm: false,
    }
}

/// The format that a process is recorded in.
pub fn process_format() -> (format: EndpointFormat)
    ensures
        format == process_format_model(),
{
    EndpointFormat {
        sample_rate: INTERNAL_SAMPLE_RATE,
        bits_per_sample: 32,
        channels: INTERNAL_CHANNELS as u16,
        channel_mask: 0,
        is_float: true,
        is_pcm: false,
    }
}

/// A stream that is being opened.
#[derive(Debug, PartialEq, Eq)]
pub struct StreamOpening {
    kind: StreamKind,
    endpoint: String,
    block_frames: usize,
    step: OpenStep,
    format: Option<EndpointFormat>,
    buffer_frames: u32,
    uninitialize_com: bool,
}

/// What is known of a stream that is being opened.
#[verifier::ext_equal]
pub struct OpeningModel {
    pub kind: StreamKind,
    pub endpoint: Seq<char>,
    pub block_frames: usize,
    /// The call that is due.
    pub step: OpenStep,
    pub format: Option<EndpointFormat>,
    pub buffer_frames: u32,
    /// Whether COM is to be given up with the stream.
    pub uninitialize_com: bool,
}

impl View for StreamOpening {
    type V = OpeningModel;

    closed spec fn view(&self) -> OpeningModel {
        OpeningModel {
            kind: self.kind,
            endpoint: self.endpoint@,
            block_frames: self.block_frames,
            step: self.step,
            format: self.format,
            buffer_frames: self.buffer_frames,
            uninitialize_com: self.uninitialize_com,
        }
    }
}

impl OpeningModel {
    /// The error of a call that failed.
    pub open spec fn call_fault(self, hresult: i32) -> WindowsFault {
        WindowsFault::HResult {
            operation: operation_name(self.kind, self.step),
            hresult,
            endpoint_id: Some(self.endpoint),
        }
    }

    /// Why the stream cannot be opened after the reply, if it cannot.
    pub open spec fn fault(self, event: EventModel) -> Option<WindowsFault> {
        match event {
            EventModel::Done => None,
            EventModel::Failed { hresult } => Some(self.call_fault(hresult)),
            EventModel::Com { hresult } => if !com_usable(hresult) {
                Some(WindowsFault::ComInitialization { hresult })
            } else if self.kind == StreamKind::Render && !(0 < self.block_frames <= u32::MAX) {
                Some(WindowsFault::RenderBlockFramesInvalid { frames: self.block_frames })
            } else {
                None
            },
            EventModel::State { active } => if active {
                None
            } else {
                Some(endpoint_state(self.kind, self.endpoint, inactive_reason()))
            },
            EventModel::Flow { flow } => if flow == needed_flow(self.kind) {
                None
            } else {
                Some(endpoint_state(self.kind, self.endpoint, wrong_flow_reason(self.kind)))
            },
            EventModel::MixFormat { raw } => match inspected_format(self.kind, self.endpoint, raw) {
                Ok(_) => None,
                Err(fault) => Some(fault),
            },
            EventModel::BufferSize { frames } => if frames == 0 && self.kind == StreamKind::Render {
                Some(
                    WindowsFault::RenderState {
                        reason: "IAudioClient::GetBufferSize 返回 0"@,
                        endpoint_id: self.endpoint,
                    },
                )
            } else {
                None
            },
            EventModel::ResamplerFailed { reason } => Some(
                WindowsFault::RenderResample { reason, endpoint_id: self.endpoint },
            ),
            EventModel::Wait { signaled } => if signaled {
                None
            } else {
                Some(self.call_fault(HRESULT_TIMEOUT))
            },
            EventModel::Activated { hresult, has_client } => if hresult < 0 {
                Some(self.call_fault(hresult))
            } else if !has_client {
                Some(self.call_fault(E_FAIL))
            } else {
                None
            },
        }
    }

    /// The call after the one that is due.
    pub open spec fn next_step(self) -> OpenStep {
        match self.step {
            OpenStep::InitializeCom => if self.kind == StreamKind::ProcessLoopback {
                OpenStep::CreateEvent
            } else {
                OpenStep::CreateEnumerator
            },
            OpenStep::CreateEnumerator => OpenStep::GetDevice,
            OpenStep::GetDevice => OpenStep::GetState,
            OpenStep::GetState => OpenStep::QueryEndpoint,
            OpenStep::QueryEndpoint => OpenStep::GetDataFlow,
            OpenStep::GetDataFlow => OpenStep::ActivateClient,
            OpenStep::ActivateClient => OpenStep::GetMixFormat,
            OpenStep::GetMixFormat => OpenStep::InitializeClient,
            OpenStep::CreateEvent => OpenStep::CreateCallbackEvent,
            OpenStep::CreateCallbackEvent => OpenStep::ActivateAsync,
            OpenStep::ActivateAsync => OpenStep::WaitActivation,
            OpenStep::WaitActivation => OpenStep::GetActivateResult,
            OpenStep::GetActivateResult => OpenStep::WaitCallback,
            OpenStep::WaitCallback => OpenStep::InitializeClient,
            OpenStep::InitializeClient => if self.kind == StreamKind::ProcessLoopback {
                OpenStep::GetService
            } else {
                OpenStep::GetBufferSize
            },
            OpenStep::GetBufferSize => if self.kind == StreamKind::Render && self.resamples() {
                OpenStep::BuildResampler
            } else {
                OpenStep::GetService
            },
            OpenStep::BuildResampler => OpenStep::GetService,
            OpenStep::GetService => OpenStep::StartClient,
            OpenStep::StartClient => OpenStep::Opened,
            OpenStep::Opened => OpenStep::Opened,
        }
    }

    /// Whether the device runs at another rate than the mixer.
    pub open spec fn resamples(self) -> bool {
        self.format matches Some(format) && format.sample_rate != INTERNAL_SAMPLE_RATE
    }

    /// What is known after a reply that is no fault.
    pub open spec fn after(self, event: EventModel) -> OpeningModel {
        let learned = match event {
            EventModel::Com { hresult } => OpeningModel {
                uninitialize_com: hresult == 0 || hresult == 1,
                format: if self.kind == StreamKind::ProcessLoopback {
                    Some(process_format_model())
                } else {
                    None
                },
                ..self
            },
            EventModel::MixFormat { raw } => OpeningModel {
                format: match inspected_format(self.kind, self.endpoint, raw) {
                    Ok(format) => Some(format),
                    Err(_) => None,
                },
                ..self
            },
            EventModel::BufferSize { frames } => OpeningModel { buffer_frames: frames, ..self },
            _ => self,
        };
        OpeningModel { step: self.next_step(), ..learned }
    }

    /// What has been made sure of by the time that a call is due.
    pub open spec fn sound(self) -> bool {
        &&& 1 <= rank(self.step) <= rank(OpenStep::GetMixFormat) ==> self.kind
            != StreamKind::ProcessLoopback
        &&& rank(OpenStep::CreateEvent) <= rank(self.step) <= rank(OpenStep::WaitCallback)
            ==> self.kind == StreamKind::ProcessLoopback
        &&& self.step != OpenStep::InitializeCom && self.kind == StreamKind::Render ==> 0
            < self.block_frames <= u32::MAX
        &&& rank(self.step) >= rank(OpenStep::InitializeClient) ==> (self.format matches Some(
            format,
        ) && format.renders())
        &&& rank(self.step) > rank(OpenStep::GetBufferSize) && self.kind == StreamKind::Render
            ==> self.buffer_frames > 0
        &&& self.kind == StreamKind::ProcessLoopback && self.step != OpenStep::InitializeCom
            ==> self.format == Some(process_format_model())
    }
}

/// How far a stream is when the call is due.
pub open spec fn rank(step: OpenStep) -> nat {
    match step {
        OpenStep::InitializeCom => 0,
        OpenStep::CreateEnumerator => 1,
        OpenStep::GetDevice => 2,
        OpenStep::GetState => 3,
        OpenStep::QueryEndpoint => 4,
        OpenStep::GetDataFlow => 5,
        OpenStep::ActivateClient => 6,
        OpenStep::GetMixFormat => 7,
        OpenStep::CreateEvent => 8,
        OpenStep::CreateCallbackEvent => 9,
        OpenStep::ActivateAsync => 10,
        OpenStep::WaitActivation => 11,
        OpenStep::GetActivateResult => 12,
        OpenStep::WaitCallback => 13,
        OpenStep::InitializeClient => 14,
        OpenStep::GetBufferSize => 15,
        OpenStep::BuildResampler => 16,
        OpenStep::GetService => 17,
        OpenStep::StartClient => 18,
        OpenStep::Opened => 19,
    }
}

impl StreamOpening {
    /// Starts to open an endpoint. The frames of a block matter for `StreamKind::Render`
    /// only.
    pub fn endpoint(kind: StreamKind, endpoint_id: &EndpointId, block_frames: usize) -> (opening: Self)
        requires
            kind != StreamKind::ProcessLoopback,
        ensures
            opening@ == (OpeningModel {
                kind,
                endpoint: endpoint_id.0@,
                block_frames,
                step: OpenStep::InitializeCom,
                format: None,
                buffer_frames: 0,
                uninitialize_com: false,
            }),
            opening@.sound(),
    {
        StreamOpening {
            kind,
            endpoint: endpoint_id.0.clone(),
            block_frames,
            step: OpenStep::InitializeCom,
            format: None,
            buffer_frames: 0,
            uninitialize_com: false,
        }
    }

    /// Starts to open the recording of a process. There is no process 0.
    pub fn process(pid: u32) -> (result: Result<Self, WindowsAudioError>)
        ensures
            match result {
                Ok(opening) => pid != 0 && opening@.sound() && opening@ == (OpeningModel {
                    kind: StreamKind::ProcessLoopback,
                    endpoint: "process:"@ + decimal_text(pid as nat),
                    block_frames: 0,
                    step: OpenStep::InitializeCom,
                    format: None,
                    buffer_frames: 0,
                    uninitialize_com: false,
                }),
                Err(e) => pid == 0 && e@ == (WindowsFault::ProcessLoopbackInvalidPid { pid }),
            },
    {
        if pid == 0 {
            return Err(WindowsAudioError::ProcessLoopbackInvalidPid { pid });
        }
        let mut endpoint = "process:".to_owned();
        push_decimal(&mut endpoint, pid as u64);
        Ok(
            StreamOpening {
                kind: StreamKind::ProcessLoopback,
                endpoint,
                block_frames: 0,
                step: OpenStep::InitializeCom,
                format: None,
                buffer_frames: 0,
                uninitialize_com: false,
            },
        )
    }

    /// The call that is due.
    pub fn step(&self) -> (step: OpenStep)
        ensures
            step == self@.step,
    {
        self.step
    }

    /// The format, once it is known.
    pub fn format(&self) -> (format: Option<EndpointFormat>)
        ensures
            format == self@.format,
    {
        self.format
    }

    /// The frames that the device buffer holds, once they are known; 0 before.
    pub fn buffer_frames(&self) -> (frames: u32)
        ensures
            frames == self@.buffer_frames,
    {
        self.buffer_frames
    }

    /// Whether COM is to be given up with the stream.
    pub fn uninitialize_com(&self) -> (due: bool)
        ensures
            due == self@.uninitialize_com,
    {
        self.uninitialize_com
    }

    fn failed(&self, hresult: i32) -> (error: WindowsAudioError)
        ensures
            error@ == self@.call_fault(hresult),
    {
        WindowsAudioError::HResult {
            operation: operation(self.kind, self.step),
            hresult,
            endpoint_id: Some(self.endpoint.clone()),
        }
    }

    fn refused(&self, reason: &'static str) -> (error: WindowsAudioError)
        ensures
            error@ == endpoint_state(self@.kind, self@.endpoint, reason@),
    {
        if self.kind == StreamKind::Render {
            WindowsAudioError::RenderState { reason, endpoint_id: self.endpoint.clone() }
        } else {
            WindowsAudioError::CaptureState { reason, endpoint_id: self.endpoint.clone() }
        }
    }

    fn following_step(&self) -> (step: OpenStep)
        ensures
            step == self@.next_step(),
    {
        match self.step {
            OpenStep::InitializeCom => if self.kind == StreamKind::ProcessLoopback {
                OpenStep::CreateEvent
            } else {
                OpenStep::CreateEnumerator
            },
            OpenStep::CreateEnumerator => OpenStep::GetDevice,
            OpenStep::GetDevice => OpenStep::GetState,
            OpenStep::GetState => OpenStep::QueryEndpoint,
            OpenStep::QueryEndpoint => OpenStep::GetDataFlow,
            OpenStep::GetDataFlow => OpenStep::ActivateClient,
            OpenStep::ActivateClient => OpenStep::GetMixFormat,
            OpenStep::GetMixFormat => OpenStep::InitializeClient,
            OpenStep::CreateEvent => OpenStep::CreateCallbackEvent,
            OpenStep::CreateCallbackEvent => OpenStep::ActivateAsync,
            OpenStep::ActivateAsync => OpenStep::WaitActivation,
            OpenStep::WaitActivation => OpenStep::GetActivateResult,
            OpenStep::GetActivateResult => OpenStep::WaitCallback,
            OpenStep::WaitCallback => OpenStep::InitializeClient,
            OpenStep::InitializeClient => if self.kind == StreamKind::ProcessLoopback {
                OpenStep::GetService
            } else {
                OpenStep::GetBufferSize
            },
            OpenStep::GetBufferSize => {
                let resamples = match self.format {
                    Some(format) => format.sample_rate != INTERNAL_SAMPLE_RATE,
                    None => false,
                };
                if self.kind == StreamKind::Render && resamples {
                    OpenStep::BuildResampler
                } else {
                    OpenStep::GetService
                }
            },
            OpenStep::BuildResampler => OpenStep::GetService,
            OpenStep::GetService => OpenStep::StartClient,
            OpenStep::StartClient => OpenStep::Opened,
            OpenStep::Opened => OpenStep::Opened,
        }
    }

    /// Takes the reply to the call that was due.
    pub fn advance(self, event: OpenEvent) -> (result: Result<Self, WindowsAudioError>)
        requires
            answers(self@.step, event@),
        ensures
            match result {
                Ok(opening) => self@.fault(event@) is None && opening@ == self@.after(event@),
                Err(e) => self@.fault(event@) == Some(e@),
            },
    {
        let step = self.following_step();
        let mut next = self;
        match event {
            OpenEvent::Done => {},
            OpenEvent::Failed { hresult } => {
                return Err(next.failed(hresult));
            },
            OpenEvent::Com { hresult } => {
                if hresult < 0 && hresult != RPC_E_CHANGED_MODE {
                    return Err(WindowsAudioError::ComInitialization { hresult });
                }
                if next.kind == StreamKind::Render && (next.block_frames == 0
                    || next.block_frames as u64 > u32::MAX as u64) {
                    return Err(
                        WindowsAudioError::RenderBlockFramesInvalid { frames: next.block_frames },
                    );
                }
                next.uninitialize_com = hresult == 0 || hresult == 1;
                next.format = if next.kind == StreamKind::ProcessLoopback {
                    Some(process_format())
                } else {
                    None
                };
            },
            OpenEvent::State { active } => {
                if !active {
                    return Err(next.refused("endpoint 不是 active 状态"));
                }
            },
            OpenEvent::Flow { flow } => {
                let needed = if next.kind == StreamKind::Capture {
                    EndpointFlow::Capture
                } else {
                    EndpointFlow::Render
                };
                if flow != needed {
                    let reason = match next.kind {
                        StreamKind::Render => "指定 endpoint 不是 render endpoint",
                        StreamKind::Capture => "指定 endpoint 不是 capture endpoint",
                        _ => "Device Loopback 目标必须是 render endpoint",
                    };
                    return Err(next.refused(reason));
                }
            },
            OpenEvent::MixFormat { raw } => match inspect_mix_format(
                next.kind,
                &next.endpoint,
                &raw,
            ) {
                Ok(format) => {
                    next.format = Some(format);
                },
                Err(e) => {
                    return Err(e);
                },
            },
            OpenEvent::BufferSize { frames } => {
                if frames == 0 && next.kind == StreamKind::Render {
                    return Err(
                        WindowsAudioError::RenderState {
                            reason: "IAudioClient::GetBufferSize 返回 0",
                            endpoint_id: next.endpoint,
                        },
                    );
                }
                next.buffer_frames = frames;
            },
            OpenEvent::ResamplerFailed { reason } => {
                return Err(
                    WindowsAudioError::RenderResample { reason, endpoint_id: next.endpoint },
                );
            },
            OpenEvent::Wait { signaled } => {
                if !signaled {
                    return Err(next.failed(HRESULT_TIMEOUT));
                }
            },
            OpenEvent::Activated { hresult, has_client } => {
                if hresult < 0 {
                    return Err(next.failed(hresult));
                }
                if !has_client {
                    return Err(next.failed(E_FAIL));
                }
            },
        }
        next.step = step;
        Ok(next)
    }
}

/// What has been made sure of stays so: a client is only started on an active endpoint
/// of the right direction whose format the mixer can use, and a render sink has a block
/// size that the device can take and a buffer that is not empty.
pub proof fn law_opening_stays_sound(opening: OpeningModel, event: EventModel)
    requires
        opening.sound(),
        answers(opening.step, event),
        opening.fault(event) is None,
    ensures
        opening.after(event).sound(),
{
}

/// Every reply that is no fault brings the stream nearer to running.
pub proof fn law_opening_progresses(opening: OpeningModel, event: EventModel)
    requires
        answers(opening.step, event),
    ensures
        rank(opening.after(event).step) > rank(opening.step),
{
}

/// An endpoint that is not active is worth another try; one of the wrong direction is
/// not.
pub proof fn law_inactive_endpoint_is_recoverable(opening: OpeningModel)
    ensures
        opening.fault(EventModel::State { active: false }) matches Some(fault)
            && fault.recoverable(),
        opening.kind == StreamKind::Capture ==> (opening.fault(
            EventModel::Flow { flow: EndpointFlow::Render },
        ) matches Some(fault) && !fault.recoverable()),
        opening.kind != StreamKind::Capture ==> (opening.fault(
            EventModel::Flow { flow: EndpointFlow::Capture },
        ) matches Some(fault) && !fault.recoverable()),
{
    reveal_strlit("endpoint 不是 active 状态");
    reveal_strlit("指定 endpoint 不是 render endpoint");
    reveal_strlit("指定 endpoint 不是 capture endpoint");
    reveal_strlit("Device Loopback 目标必须是 render endpoint");
    assert("endpoint 不是 active 状态"@[0] != "指定 endpoint 不是 render endpoint"@[0]);
    assert("endpoint 不是 active 状态"@[0] != "指定 endpoint 不是 capture endpoint"@[0]);
    assert("endpoint 不是 active 状态"@[0] != "Device Loopback 目标必须是 render endpoint"@[0]);
}

/// What the activity check of an endpoint does next.
#[derive(Clone, Copy, Debug, PartialEq, Eq, Structural)]
pub enum ActivityStep {
    /// The call is due.
    Call { step: OpenStep },
    /// The endpoint is active in the expected direction, or is not.
    Known { active: bool },
}

/// Where a reply leads while the activity of an endpoint is checked. A device that is
/// gone for now is inactive, and no error.
pub open spec fn activity_after(
    step: OpenStep,
    event: EventModel,
    endpoint: Seq<char>,
    expected: EndpointFlow,
) -> Result<ActivityStep, WindowsFault> {
    match event {
        EventModel::Failed { hresult } => if step == OpenStep::GetDevice && device_is_gone(hresult) {
            Ok(ActivityStep::Known { active: false })
        } else {
            Err(
                WindowsFault::HResult {
                    operation: operation_name(StreamKind::Render, step),
                    hresult,
                    endpoint_id: if step == OpenStep::CreateEnumerator {
                        None
                    } else {
                        Some(endpoint)
                    },
                },
            )
        },
        EventModel::State { active } => if active {
            Ok(ActivityStep::Call { step: OpenStep::QueryEndpoint })
        } else {
            Ok(ActivityStep::Known { active: false })
        },
        EventModel::Flow { flow } => Ok(ActivityStep::Known { active: flow == expected }),
        _ => Ok(
            ActivityStep::Call {
                step: match step {
                    OpenStep::CreateEnumerator => OpenStep::GetDevice,
                    OpenStep::GetDevice => OpenStep::GetState,
                    _ => OpenStep::GetDataFlow,
                },
            },
        ),
    }
}

/// Whether the call belongs to the activity check.
pub open spec fn checks_activity(step: OpenStep) -> bool {
    OpenStep::CreateEnumerator == step || OpenStep::GetDevice == step || OpenStep::GetState == step
        || OpenStep::QueryEndpoint == step || OpenStep::GetDataFlow == step
}

/// Takes the reply to a call of the activity check, which starts with
/// `OpenStep::CreateEnumerator`.
pub fn advance_activity(
    step: OpenStep,
    event: OpenEvent,
    endpoint_id: &EndpointId,
    expected: EndpointFlow,
) -> (result: Result<ActivityStep, WindowsAudioError>)
    requires
        checks_activity(step),
        answers(step, event@),
    ensures
        match result {
            Ok(next) => activity_after(step, event@, endpoint_id.0@, expected) == Ok::<
                ActivityStep,
                WindowsFault,
            >(next),
            Err(e) => activity_after(step, event@, endpoint_id.0@, expected) == Err::<
                ActivityStep,
                WindowsFault,
            >(e@),
        },
{
    match event {
        OpenEvent::Failed { hresult } => {
            if step == OpenStep::GetDevice && is_device_not_ready_hresult(hresult) {
                return Ok(ActivityStep::Known { active: false });
            }
            let endpoint = if step == OpenStep::CreateEnumerator {
                None
            } else {
                Some(endpoint_id.0.clone())
            };
            Err(
                WindowsAudioError::HResult {
                    operation: operation(StreamKind::Render, step),
                    hresult,
                    endpoint_id: endpoint,
                },
            )
        },
        OpenEvent::State { active } => if active {
            Ok(ActivityStep::Call { step: OpenStep::QueryEndpoint })
        } else {
            Ok(ActivityStep::Known { active: false })
        },
        OpenEvent::Flow { flow } => Ok(ActivityStep::Known { active: flow == expected }),
        _ => Ok(
            ActivityStep::Call {
                step: match step {
                    OpenStep::CreateEnumerator => OpenStep::GetDevice,
                    OpenStep::GetDevice => OpenStep::GetState,
                    _ => OpenStep::GetDataFlow,
                },
            },
        ),
    }
}

} // verus!
