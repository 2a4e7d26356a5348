//! Endpoints, their formats, and what can go wrong with them.

use crate::routing::{AudioFormat, EndpointId, INTERNAL_CHANNELS, INTERNAL_SAMPLE_RATE};
use crate::text::{decimal_text, push_decimal, push_upper_hex, upper_hex_text};
use vstd::prelude::*;
use vstd::string::StringExecFns;

verus! {

/// The direction of an endpoint.
#[derive(Clone, Copy, Debug, PartialEq, Eq, Structural)]
pub enum EndpointFlow {
    Capture,
    Render,
}

impl EndpointFlow {
    /// The name of the direction for programs.
    pub fn as_str(self) -> (name: &'static str)
        ensures
            name@ == match self {
                EndpointFlow::Capture => "capture"@,
                EndpointFlow::Render => "render"@,
            },
    {
        match self {
            EndpointFlow::Capture => "capture",
            EndpointFlow::Render => "render",
        }
    }

    /// The name of the direction for people.
    pub fn display_name(self) -> (name: &'static str)
        ensures
            name@ == match self {
                EndpointFlow::Capture => "Capture"@,
                EndpointFlow::Render => "Render"@,
            },
    {
        match self {
            EndpointFlow::Capture => "Capture",
            EndpointFlow::Render => "Render",
        }
    }
}

/// The mix format of an endpoint.
#[derive(Clone, Copy, Debug, PartialEq, Eq, Structural)]
pub struct EndpointFormat {
    pub sample_rate: u32,
    pub bits_per_sample: u16,
    pub channels: u16,
    /// Which speakers the channels are; 0 where the format does not say.
    pub channel_mask: u32,
    /// Samples are IEEE-754 floats.
    pub is_float: bool,
    /// Samples are integers.
    pub is_pcm: bool,
}

impl EndpointFormat {
    /// Whether blocks of the format can be captured without conversion.
    pub open spec fn captures(self) -> bool {
        self.renders() && self.sample_rate == INTERNAL_SAMPLE_RATE
    }

    /// Whether blocks can be rendered in the format, resampled where the rate differs.
    pub open spec fn renders(self) -> bool {
        self.is_float && self.bits_per_sample == 32 && self.channels == INTERNAL_CHANNELS
    }

    /// The rate and the channels of the format.
    pub fn audio_format(self) -> (format: AudioFormat)
        ensures
            format == (AudioFormat { sample_rate: self.sample_rate, channels: self.channels }),
    {
        AudioFormat { sample_rate: self.sample_rate, channels: self.channels }
    }

    /// Whether an endpoint of the format can be a capture source.
    pub fn capture_compatible(self) -> (compatible: bool)
        ensures
            compatible == self.captures(),
    {
        self.is_float && self.bits_per_sample == 32 && self.channels == INTERNAL_CHANNELS as u16
            && self.sample_rate == INTERNAL_SAMPLE_RATE
    }

    /// Whether an endpoint of the format can be a render sink.
    pub fn render_compatible(self) -> (compatible: bool)
        ensures
            compatible == self.renders(),
    {
        self.is_float && self.bits_per_sample == 32 && self.channels == INTERNAL_CHANNELS as u16
    }
}

/// An active endpoint. The format is absent where it could not be read.
#[derive(Debug, PartialEq, Eq)]
pub struct EndpointInfo {
    pub id: EndpointId,
    pub name: String,
    pub flow: EndpointFlow,
    pub format: Option<AudioFormat>,
    pub bits_per_sample: Option<u16>,
    pub channel_mask: Option<u32>,
    pub is_float: Option<bool>,
    pub is_pcm: Option<bool>,
}

/// A process that plays audio.
#[derive(Debug, PartialEq, Eq)]
pub struct ProcessInfo {
    pub pid: u32,
    pub name: String,
    pub executable_path: Option<String>,
}

impl EndpointInfo {
    /// The format of the endpoint, where all of it is known.
    pub open spec fn known_format(self) -> Option<EndpointFormat> {
        match (self.format, self.bits_per_sample, self.channel_mask, self.is_float, self.is_pcm) {
            (
                Some(format),
                Some(bits_per_sample),
                Some(channel_mask),
                Some(is_float),
                Some(is_pcm),
            ) => Some(
                EndpointFormat {
                    sample_rate: format.sample_rate,
                    bits_per_sample,
                    channels: format.channels,
                    channel_mask,
                    is_float,
                    is_pcm,
                },
            ),
            _ => None,
        }
    }

    /// The format of the endpoint, where all of it is known.
    pub fn endpoint_format(&self) -> (format: Option<EndpointFormat>)
        ensures
            format == self.known_format(),
    {
        match (self.format, self.bits_per_sample, self.channel_mask, self.is_float, self.is_pcm) {
            (
                Some(format),
                Some(bits_per_sample),
                Some(channel_mask),
                Some(is_float),
                Some(is_pcm),
            ) => Some(
                EndpointFormat {
                    sample_rate: format.sample_rate,
                    bits_per_sample,
                    channels: format.channels,
                    channel_mask,
                    is_float,
                    is_pcm,
                },
            ),
            _ => None,
        }
    }
}

/// What went wrong with a device.
#[allow(inconsistent_fields)]
#[derive(Debug, PartialEq, Eq)]
pub enum WindowsAudioError {
    UnsupportedPlatform,
    ProcessLoopbackInvalidPid { pid: u32 },
    ComInitialization { hresult: i32 },
    HResult { operation: &'static str, hresult: i32, endpoint_id: Option<String> },
    InvalidFormat { reason: String, endpoint_id: Option<String> },
    RenderFormatUnsupported {
        endpoint_id: String,
        sample_rate: u32,
        bits_per_sample: u16,
        channels: u16,
    },
    RenderBlockFramesInvalid { frames: usize },
    RenderInputUnaligned { samples: usize, channels: usize },
    RenderBlockTooLarge { expected: usize, actual: usize },
    RenderState { reason: &'static str, endpoint_id: String },
    CaptureFormatUnsupported {
        endpoint_id: String,
        sample_rate: u32,
        bits_per_sample: u16,
        channels: u16,
    },
    CaptureState { reason: &'static str, endpoint_id: String },
    RenderResample { reason: String, endpoint_id: String },
}

/// What a `WindowsAudioError` says.
#[allow(inconsistent_fields)]
#[verifier::ext_equal]
pub enum WindowsFault {
    UnsupportedPlatform,
    ProcessLoopbackInvalidPid { pid: u32 },
    ComInitialization { hresult: i32 },
    HResult { operation: Seq<char>, hresult: i32, endpoint_id: Option<Seq<char>> },
    InvalidFormat { reason: Seq<char>, endpoint_id: Option<Seq<char>> },
    RenderFormatUnsupported {
        endpoint_id: Seq<char>,
        sample_rate: u32,
        bits_per_sample: u16,
        channels: u16,
    },
    RenderBlockFramesInvalid { frames: usize },
    RenderInputUnaligned { samples: usize, channels: usize },
    RenderBlockTooLarge { expected: usize, actual: usize },
    RenderState { reason: Seq<char>, endpoint_id: Seq<char> },
    CaptureFormatUnsupported {
        endpoint_id: Seq<char>,
        sample_rate: u32,
        bits_per_sample: u16,
        channels: u16,
    },
    CaptureState { reason: Seq<char>, endpoint_id: Seq<char> },
    RenderResample { reason: Seq<char>, endpoint_id: Seq<char> },
}

impl View for WindowsAudioError {
    type V = WindowsFault;

    open spec fn view(&self) -> WindowsFault {
        match *self {
            WindowsAudioError::UnsupportedPlatform => WindowsFault::UnsupportedPlatform,
            WindowsAudioError::ProcessLoopbackInvalidPid { pid } =>
                WindowsFault::ProcessLoopbackInvalidPid { pid },
            WindowsAudioError::ComInitialization { hresult } => WindowsFault::ComInitialization {
                hresult,
            },
            WindowsAudioError::HResult { operation, hresult, endpoint_id } =>
                WindowsFault::HResult {
                    operation: operation@,
                    hresult,
                    endpoint_id: crate::routing::optional_text(endpoint_id),
                },
            WindowsAudioError::InvalidFormat { reason, endpoint_id } =>
                WindowsFault::InvalidFormat {
                    reason: reason@,
                    endpoint_id: crate::routing::optional_text(endpoint_id),
                },
            WindowsAudioError::RenderFormatUnsupported {
                endpoint_id,
                sample_rate,
                bits_per_sample,
                channels,
            } => WindowsFault::RenderFormatUnsupported {
                endpoint_id: endpoint_id@,
                sample_rate,
                bits_per_sample,
                channels,
            },
            WindowsAudioError::RenderBlockFramesInvalid { frames } =>
                WindowsFault::RenderBlockFramesInvalid { frames },
            WindowsAudioError::RenderInputUnaligned { samples, channels } =>
                WindowsFault::RenderInputUnaligned { samples, channels },
            WindowsAudioError::RenderBlockTooLarge { expected, actual } =>
                WindowsFault::RenderBlockTooLarge { expected, actual },
            WindowsAudioError::RenderState { reason, endpoint_id } => WindowsFault::RenderState {
                reason: reason@,
                endpoint_id: endpoint_id@,
            },
            WindowsAudioError::CaptureFormatUnsupported {
                endpoint_id,
                sample_rate,
                bits_per_sample,
                channels,
            } => WindowsFault::CaptureFormatUnsupported {
                endpoint_id: endpoint_id@,
                sample_rate,
                bits_per_sample,
                channels,
            },
            WindowsAudioError::CaptureState { reason, endpoint_id } => WindowsFault::CaptureState {
                reason: reason@,
                endpoint_id: endpoint_id@,
            },
            WindowsAudioError::RenderResample { reason, endpoint_id } =>
                WindowsFault::RenderResample { reason: reason@, endpoint_id: endpoint_id@ },
        }
    }
}

/// Whether an error may pass by itself.
#[derive(Clone, Copy, Debug, PartialEq, Eq, Structural)]
pub enum WindowsAudioFailureKind {
    /// The device is gone for now; opening it again may help.
    DeviceUnavailable,
    Other,
}

/// `AUDCLNT_E_DEVICE_INVALIDATED`, 0x88890004.
pub const AUDCLNT_E_DEVICE_INVALIDATED: i32 = -2004287484;

/// `AUDCLNT_E_SERVICE_NOT_RUNNING`, 0x88890010.
pub const AUDCLNT_E_SERVICE_NOT_RUNNING: i32 = -2004287472;

/// 0x88890005, which some diagnostics report for a service that is not running.
pub const AUDCLNT_E_SERVICE_NOT_RUNNING_LEGACY: i32 = -2004287483;

/// `AUDCLNT_E_ENDPOINT_CREATE_FAILED`, 0x8889000F.
pub const AUDCLNT_E_ENDPOINT_CREATE_FAILED: i32 = -2004287473;

/// `ERROR_DEVICE_NOT_CONNECTED` as an HRESULT, 0x8007048F.
pub const HRESULT_ERROR_DEVICE_NOT_CONNECTED: i32 = -2147023729;

/// `ERROR_NOT_FOUND` as an HRESULT, 0x80070490.
pub const HRESULT_ERROR_NOT_FOUND: i32 = -2147023728;

/// Whether an HRESULT says that a device is gone for now.
pub open spec fn device_is_gone(hresult: i32) -> bool {
    ||| hresult == AUDCLNT_E_DEVICE_INVALIDATED
    ||| hresult == AUDCLNT_E_SERVICE_NOT_RUNNING
    ||| hresult == AUDCLNT_E_SERVICE_NOT_RUNNING_LEGACY
    ||| hresult == AUDCLNT_E_ENDPOINT_CREATE_FAILED
    ||| hresult == HRESULT_ERROR_DEVICE_NOT_CONNECTED
    ||| hresult == HRESULT_ERROR_NOT_FOUND
}

/// Whether an HRESULT says that a device is not ready.
pub fn is_device_not_ready_hresult(hresult: i32) -> (not_ready: bool)
    ensures
        not_ready == device_is_gone(hresult),
{
    hresult == AUDCLNT_E_DEVICE_INVALIDATED || hresult == AUDCLNT_E_SERVICE_NOT_RUNNING || hresult
        == AUDCLNT_E_SERVICE_NOT_RUNNING_LEGACY || hresult == AUDCLNT_E_ENDPOINT_CREATE_FAILED
        || hresult == HRESULT_ERROR_DEVICE_NOT_CONNECTED || hresult == HRESULT_ERROR_NOT_FOUND
}

/// Why an endpoint that is unplugged or disabled cannot be opened.
pub open spec fn inactive_reason() -> Seq<char> {
    "endpoint 不是 active 状态"@
}

impl WindowsFault {
    /// The HRESULT that the fault carries.
    pub open spec fn code(self) -> Option<i32> {
        match self {
            WindowsFault::ComInitialization { hresult } => Some(hresult),
            WindowsFault::HResult { hresult, .. } => Some(hresult),
            _ => None,
        }
    }

    /// The endpoint that the fault is about.
    pub open spec fn endpoint(self) -> Option<Seq<char>> {
        match self {
            WindowsFault::HResult { endpoint_id, .. } => endpoint_id,
            WindowsFault::InvalidFormat { endpoint_id, .. } => endpoint_id,
            WindowsFault::RenderFormatUnsupported { endpoint_id, .. } => Some(endpoint_id),
            WindowsFault::RenderState { endpoint_id, .. } => Some(endpoint_id),
            WindowsFault::CaptureFormatUnsupported { endpoint_id, .. } => Some(endpoint_id),
            WindowsFault::CaptureState { endpoint_id, .. } => Some(endpoint_id),
            WindowsFault::RenderResample { endpoint_id, .. } => Some(endpoint_id),
            _ => None,
        }
    }

    /// Whether the device is gone for now: its endpoint is not active, or the system
    /// says so.
    pub open spec fn recoverable(self) -> bool {
        ||| self matches WindowsFault::CaptureState { reason, .. } && reason == inactive_reason()
        ||| self matches WindowsFault::RenderState { reason, .. } && reason == inactive_reason()
        ||| self.code() matches Some(hresult) && device_is_gone(hresult)
    }
}

/// The text of an optional text as `Debug` writes it.
pub uninterp spec fn debug_text(text: Option<Seq<char>>) -> Seq<char>;

/// Calls the `Debug` formatting of std on an optional string, which quotes and escapes
/// the text. What comes out depends on the text alone.
#[verifier::external_body]
fn debug_optional(text: &Option<String>) -> (shown: String)
    ensures
        shown@ == debug_text(crate::routing::optional_text(*text)),
{
    format!("{:?}", text)
}

/// The first part of the message about an HRESULT.
pub open spec fn hresult_text(hresult: i32) -> Seq<char> {
    "HRESULT=0x"@ + upper_hex_text(hresult as u32)
}

/// The part of a message that describes a format.
pub open spec fn refused_format_text(
    endpoint_id: Seq<char>,
    sample_rate: u32,
    bits_per_sample: u16,
    channels: u16,
) -> Seq<char> {
    endpoint_id + ", "@ + decimal_text(sample_rate as nat) + " Hz, "@ + decimal_text(
        bits_per_sample as nat,
    ) + " bit, "@ + decimal_text(channels as nat) + " channels"@
}

/// The message of a fault.
pub open spec fn fault_text(fault: WindowsFault) -> Seq<char> {
    match fault {
        WindowsFault::UnsupportedPlatform => "Windows 音频 endpoint 仅支持 Windows 平台"@,
        WindowsFault::ProcessLoopbackInvalidPid { pid } => "Process Loopback 进程 ID 无效: "@
            + decimal_text(pid as nat),
        WindowsFault::ComInitialization { hresult } => "COM 初始化失败: "@ + hresult_text(hresult),
        WindowsFault::HResult { operation, hresult, endpoint_id } => "WASAPI 操作 "@ + operation
            + " 失败: "@ + hresult_text(hresult) + ", endpoint="@ + debug_text(endpoint_id),
        WindowsFault::InvalidFormat { reason, endpoint_id } => "endpoint 音频格式无效: "@ + reason
            + ", endpoint="@ + debug_text(endpoint_id),
        WindowsFault::RenderFormatUnsupported {
            endpoint_id,
            sample_rate,
            bits_per_sample,
            channels,
        } => "render endpoint 格式不满足 MVP 要求（32-bit IEEE float、2 声道）: endpoint="@
            + refused_format_text(endpoint_id, sample_rate, bits_per_sample, channels),
        WindowsFault::RenderBlockFramesInvalid { frames } => "render block frame 数无效: "@
            + decimal_text(frames as nat),
        WindowsFault::RenderInputUnaligned { samples, channels } => "render 输入样本数 "@
            + decimal_text(samples as nat) + " 不能按 "@ + decimal_text(channels as nat)
            + " 声道对齐"@,
        WindowsFault::RenderBlockTooLarge { expected, actual } => "render 输入 block 为 "@
            + decimal_text(actual as nat) + " frame，超过计划的 "@ + decimal_text(expected as nat)
            + " frame"@,
        WindowsFault::RenderState { reason, endpoint_id } => "render endpoint 缓冲区状态无效: "@
            + reason + ", endpoint="@ + endpoint_id,
        WindowsFault::CaptureFormatUnsupported {
            endpoint_id,
            sample_rate,
            bits_per_sample,
            channels,
        } => "capture endpoint 格式不满足 MVP 要求（48 kHz、32-bit IEEE float、2 声道）: endpoint="@
            + refused_format_text(endpoint_id, sample_rate, bits_per_sample, channels),
        WindowsFault::CaptureState { reason, endpoint_id } => "capture endpoint 缓冲区状态无效: "@
            + reason + ", endpoint="@ + endpoint_id,
        WindowsFault::RenderResample { reason, endpoint_id } => "render 重采样失败: "@ + reason
            + ", endpoint="@ + endpoint_id,
    }
}

fn push_hresult(text: &mut String, hresult: i32)
    ensures
        final(text)@ == old(text)@ + hresult_text(hresult),
{
    let ghost before = text@;
    text.append("HRESULT=0x");
    push_upper_hex(
        text,
        #[verifier::truncate]
        (hresult as u32),
    );
    assert(text@ =~= before + hresult_text(hresult));
}

fn push_refused_format(
    text: &mut String,
    endpoint_id: &String,
    sample_rate: u32,
    bits_per_sample: u16,
    channels: u16,
)
    ensures
        final(text)@ == old(text)@ + refused_format_text(
            endpoint_id@,
            sample_rate,
            bits_per_sample,
            channels,
        ),
{
    let ghost before = text@;
    text.append(endpoint_id.as_str());
    text.append(", ");
    push_decimal(text, sample_rate as u64);
    text.append(" Hz, ");
    push_decimal(text, bits_per_sample as u64);
    text.append(" bit, ");
    push_decimal(text, channels as u64);
    text.append(" channels");
    assert(text@ =~= before + refused_format_text(
        endpoint_id@,
        sample_rate,
        bits_per_sample,
        channels,
    ));
}

impl WindowsAudioError {
    /// The HRESULT that the error carries.
    pub fn hresult(&self) -> (hresult: Option<i32>)
        ensures
            hresult == self@.code(),
    {
        match self {
            WindowsAudioError::ComInitialization { hresult } => Some(*hresult),
            WindowsAudioError::HResult { hresult, .. } => Some(*hresult),
            _ => None,
        }
    }

    /// The endpoint that the error is about.
    pub fn endpoint_id(&self) -> (endpoint: Option<&str>)
        ensures
            match endpoint {
                Some(id) => self@.endpoint() == Some(id@),
                None => self@.endpoint() is None,
            },
    {
        match self {
            WindowsAudioError::HResult { endpoint_id, .. } => match endpoint_id {
                Some(id) => Some(id.as_str()),
                None => None,
            },
            WindowsAudioError::InvalidFormat { endpoint_id, .. } => match endpoint_id {
                Some(id) => Some(id.as_str()),
                None => None,
            },
            WindowsAudioError::RenderFormatUnsupported { endpoint_id, .. } => Some(
                endpoint_id.as_str(),
            ),
            WindowsAudioError::RenderState { endpoint_id, .. } => Some(endpoint_id.as_str()),
            WindowsAudioError::CaptureFormatUnsupported { endpoint_id, .. } => Some(
                endpoint_id.as_str(),
            ),
            WindowsAudioError::CaptureState { endpoint_id, .. } => Some(endpoint_id.as_str()),
            WindowsAudioError::RenderResample { endpoint_id, .. } => Some(endpoint_id.as_str()),
            _ => None,
        }
    }

    /// Whether the error may pass by itself.
    pub fn failure_kind(&self) -> (kind: WindowsAudioFailureKind)
        ensures
            kind == if self@.recoverable() {
                WindowsAudioFailureKind::DeviceUnavailable
            } else {
                WindowsAudioFailureKind::Other
            },
    {
        let inactive = "endpoint 不是 active 状态".to_owned();
        match self {
            WindowsAudioError::CaptureState { reason, .. } => {
                if (*reason).to_owned() == inactive {
                    return WindowsAudioFailureKind::DeviceUnavailable;
                }
            },
            WindowsAudioError::RenderState { reason, .. } => {
                if (*reason).to_owned() == inactive {
                    return WindowsAudioFailureKind::DeviceUnavailable;
                }
            },
            _ => {},
        }
        match self.hresult() {
            Some(hresult) => if is_device_not_ready_hresult(hresult) {
                WindowsAudioFailureKind::DeviceUnavailable
            } else {
                WindowsAudioFailureKind::Other
            },
            None => WindowsAudioFailureKind::Other,
        }
    }

    /// Whether the error comes of a device that is gone for now.
    pub fn is_device_failure(&self) -> (gone: bool)
        ensures
            gone == self@.recoverable(),
    {
        self.failure_kind() == WindowsAudioFailureKind::DeviceUnavailable
    }

    /// The message of the error.
    pub fn message(&self) -> (text: String)
        ensures
            text@ == fault_text(self@),
    {
        match self {
            WindowsAudioError::UnsupportedPlatform =>
                "Windows 音频 endpoint 仅支持 Windows 平台".to_owned(),
            WindowsAudioError::ProcessLoopbackInvalidPid { pid } => {
                let mut text = "Process Loopback 进程 ID 无效: ".to_owned();
                push_decimal(&mut text, *pid as u64);
                text
            },
            WindowsAudioError::ComInitialization { hresult } => {
                let mut text = "COM 初始化失败: ".to_owned();
                push_hresult(&mut text, *hresult);
                text
            },
            WindowsAudioError::HResult { operation, hresult, endpoint_id } => {
                let mut text = "WASAPI 操作 ".to_owned();
                text.append(operation);
                text.append(" 失败: ");
                push_hresult(&mut text, *hresult);
                text.append(", endpoint=");
                text.append(debug_optional(endpoint_id).as_str());
                text
            },
            WindowsAudioError::InvalidFormat { reason, endpoint_id } => {
                let mut text = "endpoint 音频格式无效: ".to_owned();
                text.append(reason.as_str());
                text.append(", endpoint=");
                text.append(debug_optional(endpoint_id).as_str());
                text
            },
            WindowsAudioError::RenderFormatUnsupported {
                endpoint_id,
                sample_rate,
                bits_per_sample,
                channels,
            } => {
                let mut text =
                    "render endpoint 格式不满足 MVP 要求（32-bit IEEE float、2 声道）: endpoint=".to_owned();
                push_refused_format(&mut text, endpoint_id, *sample_rate, *bits_per_sample, *channels);
                text
            },
            WindowsAudioError::RenderBlockFramesInvalid { frames } => {
                let mut text = "render block frame 数无效: ".to_owned();
                push_decimal(&mut text, *frames as u64);
                text
            },
            WindowsAudioError::RenderInputUnaligned { samples, channels } => {
                let mut text = "render 输入样本数 ".to_owned();
                push_decimal(&mut text, *samples as u64);
                text.append(" 不能按 ");
                push_decimal(&mut text, *channels as u64);
                text.append(" 声道对齐");
                text
            },
            WindowsAudioError::RenderBlockTooLarge { expected, actual } => {
                let mut text = "render 输入 block 为 ".to_owned();
                push_decimal(&mut text, *actual as u64);
                text.append(" frame，超过计划的 ");
                push_decimal(&mut text, *expected as u64);
                text.append(" frame");
                text
            },
            WindowsAudioError::RenderState { reason, endpoint_id } => {
                let mut text = "render endpoint 缓冲区状态无效: ".to_owned();
                text.append(reason);
                text.append(", endpoint=");
                text.append(endpoint_id.as_str());
                text
            },
            WindowsAudioError::CaptureFormatUnsupported {
                endpoint_id,
                sample_rate,
                bits_per_sample,
                channels,
            } => {
                let mut text =
                    "capture endpoint 格式不满足 MVP 要求（48 kHz、32-bit IEEE float、2 声道）: endpoint=".to_owned();
                push_refused_format(&mut text, endpoint_id, *sample_rate, *bits_per_sample, *channels);
                text
            },
            WindowsAudioError::CaptureState { reason, endpoint_id } => {
                let mut text = "capture endpoint 缓冲区状态无效: ".to_owned();
                text.append(reason);
                text.append(", endpoint=");
                text.append(endpoint_id.as_str());
                text
            },
            WindowsAudioError::RenderResample { reason, endpoint_id } => {
                let mut text = "render 重采样失败: ".to_owned();
                text.append(reason.as_str());
                text.append(", endpoint=");
                text.append(endpoint_id.as_str());
                text
            },
        }
    }
}

/// A format error.
pub fn invalid_format(reason: &str, endpoint_id: Option<String>) -> (error: WindowsAudioError)
    ensures
        error@ == (WindowsFault::InvalidFormat {
            reason: reason@,
            endpoint_id: crate::routing::optional_text(endpoint_id),
        }),
{
    WindowsAudioError::InvalidFormat { reason: reason.to_owned(), endpoint_id }
}

/// The number that two bytes make, the least significant first.
pub open spec fn le_u16(raw: Seq<u8>, at: int) -> int {
    raw[at] + 0x100 * raw[at + 1]
}

/// The number that four bytes make, the least significant first.
pub open spec fn le_u32(raw: Seq<u8>, at: int) -> int {
    raw[at] + 0x100 * raw[at + 1] + 0x1_0000 * raw[at + 2] + 0x100_0000 * raw[at + 3]
}

/// The identifier of a sample type in an extensible format. The types differ in their
/// first byte only.
pub open spec fn subformat(first: u8) -> Seq<u8> {
    seq![
        first, 0x00, 0x00, 0x00, 0x00, 0x00, 0x10, 0x00, 0x80, 0x00, 0x00, 0xaa, 0x00, 0x38, 0x9b,
        0x71,
    ]
}

/// Whether a format is an extensible one with the fields that make it so.
pub open spec fn is_extensible(raw: Seq<u8>) -> bool {
    le_u16(raw, 0) == 0xfffe && le_u16(raw, 16) >= 22
}

/// Whether the samples of a format are of the type that `tag` numbers.
pub open spec fn has_sample_type(raw: Seq<u8>, tag: u8) -> bool {
    le_u16(raw, 0) == tag || (is_extensible(raw) && raw.len() >= 40 && raw.subrange(24, 40)
        == subformat(tag))
}

/// What the bytes of a mix format say, or why they are refused: the length is looked at
/// first, then the channels, the rate, and the length of the extension.
pub open spec fn decoded_format(raw: Seq<u8>) -> Result<EndpointFormat, Seq<char>> {
    if raw.len() < 18 {
        Err("WAVEFORMATEX 长度不足"@)
    } else if le_u16(raw, 2) == 0 {
        Err("声道数为 0"@)
    } else if le_u32(raw, 4) == 0 {
        Err("采样率为 0"@)
    } else if raw.len() < 18 + le_u16(raw, 16) {
        Err("cbSize 超出返回缓冲区"@)
    } else {
        Ok(
            EndpointFormat {
                sample_rate: le_u32(raw, 4) as u32,
                bits_per_sample: le_u16(raw, 14) as u16,
                channels: le_u16(raw, 2) as u16,
                channel_mask: if is_extensible(raw) {
                    le_u32(raw, 20) as u32
                } else {
                    0
                },
                is_float: has_sample_type(raw, 3),
                is_pcm: has_sample_type(raw, 1),
            },
        )
    }
}

fn read_u16(raw: &[u8], at: usize) -> (number: u16)
    requires
        at + 2 <= raw@.len(),
    ensures
        number == le_u16(raw@, at as int),
{
    raw[at] as u16 + 0x100 * raw[at + 1] as u16
}

fn read_u32(raw: &[u8], at: usize) -> (number: u32)
    requires
        at + 4 <= raw@.len(),
    ensures
        number == le_u32(raw@, at as int),
{
    raw[at] as u32 + 0x100 * raw[at + 1] as u32 + 0x1_0000 * raw[at + 2] as u32 + 0x100_0000
        * raw[at + 3] as u32
}

fn has_subformat(raw: &[u8], first: u8) -> (same: bool)
    requires
        raw@.len() >= 40,
    ensures
        same == (raw@.subrange(24, 40) == subformat(first)),
{
    let expected: [u8; 16] = [
        first, 0x00, 0x00, 0x00, 0x00, 0x00, 0x10, 0x00, 0x80, 0x00, 0x00, 0xaa, 0x00, 0x38, 0x9b,
        0x71,
    ];
    assert(expected@ =~= subformat(first));
    for i in 0usize..16
        invariant
            raw@.len() >= 40,
            expected@ == subformat(first),
            forall|j: int| 0 <= j < i ==> raw@[24 + j] == #[trigger] expected@[j],
    {
        if raw[24 + i] != expected[i] {
            assert(raw@.subrange(24, 40)[i as int] != subformat(first)[i as int]);
            return false;
        }
    }
    assert(raw@.subrange(24, 40) =~= subformat(first));
    true
}

/// Reads the bytes of a `WAVEFORMATEX` or `WAVEFORMATEXTENSIBLE`.
pub fn decode_mix_format(raw: &[u8]) -> (result: Result<EndpointFormat, WindowsAudioError>)
    ensures
        match result {
            Ok(format) => decoded_format(raw@) == Ok::<EndpointFormat, Seq<char>>(format),
            Err(e) => decoded_format(raw@) matches Err(reason) && e@ == (
            WindowsFault::InvalidFormat { reason, endpoint_id: None }),
        },
{
    if raw.len() < 18 {
        return Err(invalid_format("WAVEFORMATEX 长度不足", None));
    }
    let format_tag = read_u16(raw, 0);
    let channels = read_u16(raw, 2);
    let sample_rate = read_u32(raw, 4);
    let bits_per_sample = read_u16(raw, 14);
    let extension = read_u16(raw, 16) as usize;
    if channels == 0 {
        return Err(invalid_format("声道数为 0", None));
    }
    if sample_rate == 0 {
        return Err(invalid_format("采样率为 0", None));
    }
    if raw.len() < 18 + extension {
        return Err(invalid_format("cbSize 超出返回缓冲区", None));
    }
    let extensible = format_tag == 0xfffe && extension >= 22;
    let channel_mask = if extensible {
        read_u32(raw, 20)
    } else {
        0
    };
    let is_float = format_tag == 3 || (extensible && has_subformat(raw, 3));
    let is_pcm = format_tag == 1 || (extensible && has_subformat(raw, 1));
    Ok(
        EndpointFormat {
            sample_rate,
            bits_per_sample,
            channels,
            channel_mask,
            is_float,
            is_pcm,
        },
    )
}

/// A format is never both of floats and of integers.
pub proof fn law_sample_types_exclude_each_other(raw: Seq<u8>)
    requires
        decoded_format(raw) is Ok,
    ensures
        !(decoded_format(raw)->Ok_0.is_float && decoded_format(raw)->Ok_0.is_pcm),
{
    assert(subformat(1)[0] != subformat(3)[0]);
}

/// What is captured without conversion can also be rendered.
pub proof fn law_capture_implies_render(format: EndpointFormat)
    ensures
        format.captures() ==> format.renders(),
{
}

} // verus!
