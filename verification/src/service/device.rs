//! Devices and processes as they are shown.

pub mod laws;

use crate::routing::{AudioFormat, EndpointId, INTERNAL_CHANNELS, INTERNAL_SAMPLE_RATE};
use crate::service::error::{hint_of, ServiceError, ServiceFault};
use crate::text::{
    chars_of, contains_chars, decimal_text, has_text, lower_chars, lower_text, push_decimal,
};
use crate::windows::backend::WindowsAudioBackend;
use crate::windows::conversion::{encoding, encoding_of, SampleEncoding};
use crate::windows::endpoint::{
    EndpointFlow, EndpointFormat, EndpointInfo, ProcessInfo, WindowsAudioError, WindowsFault,
};
use crate::windows::listing::endpoint_record;
use crate::windows::process::{process_models as listed_processes, ProcessRecord};
use vstd::prelude::*;
use vstd::string::StringExecFns;

verus! {

/// The direction of a device.
#[derive(Clone, Copy, Debug, PartialEq, Eq, Structural)]
pub enum DeviceFlow {
    Capture,
    Render,
}

/// The name of a direction.
pub open spec fn flow_name(flow: DeviceFlow) -> Seq<char> {
    match flow {
        DeviceFlow::Capture => "capture"@,
        DeviceFlow::Render => "render"@,
    }
}

impl DeviceFlow {
    /// The name of the direction.
    pub fn as_str(self) -> (name: &'static str)
        ensures
            name@ == flow_name(self),
    {
        match self {
            DeviceFlow::Capture => "capture",
            DeviceFlow::Render => "render",
        }
    }
}

/// What a device can be used for.
#[derive(Debug, PartialEq, Eq)]
pub enum DeviceCompatibility {
    CaptureReady,
    RenderReady,
    Unsupported { reason: String },
}

/// What a `DeviceCompatibility` says.
#[verifier::ext_equal]
pub enum CompatibilityModel {
    CaptureReady,
    RenderReady,
    Unsupported { reason: Seq<char> },
}

impl View for DeviceCompatibility {
    type V = CompatibilityModel;

    open spec fn view(&self) -> CompatibilityModel {
        match *self {
            DeviceCompatibility::CaptureReady => CompatibilityModel::CaptureReady,
            DeviceCompatibility::RenderReady => CompatibilityModel::RenderReady,
            DeviceCompatibility::Unsupported { reason } => CompatibilityModel::Unsupported {
                reason: reason@,
            },
        }
    }
}

/// What has to be done with the samples of a device.
#[derive(Clone, Copy, Debug, PartialEq, Eq, Structural)]
pub enum DeviceFormatSupport {
    Native,
    ConversionRequired,
    Unsupported,
    Unknown,
}

/// What a device is, going by its name.
#[derive(Clone, Copy, Debug, PartialEq, Eq, Structural)]
pub enum DeviceCategory {
    InputMic,
    InputLoopback,
    InputVirtual,
    Output,
}

/// What a device is, going by its name: anything that plays is an output; of what
/// records, a name that hints at a virtual cable comes before one that hints at a loop.
pub open spec fn category_of(name: Seq<char>, flow: DeviceFlow) -> DeviceCategory {
    let lower = lower_text(name);
    if flow == DeviceFlow::Render {
        DeviceCategory::Output
    } else if has_text(lower, "virtual"@) || has_text(lower, "vb-audio"@) || has_text(
        lower,
        "voicemeeter"@,
    ) || has_text(lower, "cable"@) {
        DeviceCategory::InputVirtual
    } else if has_text(lower, "loop"@) || has_text(lower, "loopback"@) || has_text(lower, "回环"@)
        || has_text(lower, "环回"@) {
        DeviceCategory::InputLoopback
    } else {
        DeviceCategory::InputMic
    }
}

fn mentions(text: &Vec<char>, part: &str) -> (found: bool)
    ensures
        found == has_text(text@, part@),
{
    let part = chars_of(part);
    contains_chars(text.as_slice(), part.as_slice())
}

impl DeviceCategory {
    /// The name of the category.
    pub fn as_str(self) -> (name: &'static str)
        ensures
            name@ == match self {
                DeviceCategory::InputMic => "input_mic"@,
                DeviceCategory::InputLoopback => "input_loopback"@,
                DeviceCategory::InputVirtual => "input_virtual"@,
                DeviceCategory::Output => "output"@,
            },
    {
        match self {
            DeviceCategory::InputMic => "input_mic",
            DeviceCategory::InputLoopback => "input_loopback",
            DeviceCategory::InputVirtual => "input_virtual",
            DeviceCategory::Output => "output",
        }
    }

    /// What a device is, going by its name.
    pub fn classify(name: &str, flow: DeviceFlow) -> (category: Self)
        ensures
            category == category_of(name@, flow),
    {
        if flow == DeviceFlow::Render {
            return DeviceCategory::Output;
        }
        let lower = lower_chars(name);
        if mentions(&lower, "virtual") || mentions(&lower, "vb-audio") || mentions(
            &lower,
            "voicemeeter",
        ) || mentions(&lower, "cable") {
            DeviceCategory::InputVirtual
        } else if mentions(&lower, "loop") || mentions(&lower, "loopback") || mentions(
            &lower,
            "回环",
        ) || mentions(&lower, "环回") {
            DeviceCategory::InputLoopback
        } else {
            DeviceCategory::InputMic
        }
    }
}

/// Whether a device can be used.
#[derive(Clone, Copy, Debug, PartialEq, Eq, Structural)]
pub enum DeviceStatus {
    Active,
    Unavailable,
    Unsupported,
    Error,
}

/// A device as it is shown.
#[derive(Debug, PartialEq, Eq)]
pub struct DeviceModel {
    pub id: EndpointId,
    pub name: String,
    pub flow: DeviceFlow,
    pub native_format: Option<AudioFormat>,
    pub bits_per_sample: Option<u16>,
    pub channel_mask: Option<u32>,
    pub is_float: Option<bool>,
    pub is_pcm: Option<bool>,
    /// The native format in words.
    pub native_format_description: Option<String>,
    /// Whether samples have to be converted.
    pub format_support: DeviceFormatSupport,
    /// Why.
    pub format_support_reason: String,
    pub compatibility: DeviceCompatibility,
    pub status: DeviceStatus,
    pub category: DeviceCategory,
}

/// What a `DeviceModel` says.
#[verifier::ext_equal]
pub struct DeviceRecord {
    pub id: Seq<char>,
    pub name: Seq<char>,
    pub flow: DeviceFlow,
    pub native_format: Option<AudioFormat>,
    pub bits_per_sample: Option<u16>,
    pub channel_mask: Option<u32>,
    pub is_float: Option<bool>,
    pub is_pcm: Option<bool>,
    pub native_format_description: Option<Seq<char>>,
    pub format_support: DeviceFormatSupport,
    pub format_support_reason: Seq<char>,
    pub compatibility: CompatibilityModel,
    pub status: DeviceStatus,
    pub category: DeviceCategory,
}

impl View for DeviceModel {
    type V = DeviceRecord;

    open spec fn view(&self) -> DeviceRecord {
        DeviceRecord {
            id: self.id@,
            name: self.name@,
            flow: self.flow,
            native_format: self.native_format,
            bits_per_sample: self.bits_per_sample,
            channel_mask: self.channel_mask,
            is_float: self.is_float,
            is_pcm: self.is_pcm,
            native_format_description: crate::routing::optional_text(
                self.native_format_description,
            ),
            format_support: self.format_support,
            format_support_reason: self.format_support_reason@,
            compatibility: self.compatibility@,
            status: self.status,
            category: self.category,
        }
    }
}

/// A sample rate in words: in whole kilohertz, with one decimal where that is exact, or in
/// hertz.
pub open spec fn rate_text(rate: nat) -> Seq<char> {
    if rate % 1000 == 0 {
        decimal_text(rate / 1000) + " kHz"@
    } else if rate % 100 == 0 {
        decimal_text(rate / 1000) + "."@ + decimal_text(rate % 1000 / 100) + " kHz"@
    } else {
        decimal_text(rate) + " Hz"@
    }
}

/// An encoding in words.
pub open spec fn encoding_text(format: EndpointFormat) -> Seq<char> {
    match encoding_of(format) {
        Some(SampleEncoding::Float32) => "32-bit IEEE float"@,
        Some(SampleEncoding::Pcm16) => "16-bit PCM"@,
        None => decimal_text(format.bits_per_sample as nat) + if format.is_float {
            "-bit IEEE float"@
        } else if format.is_pcm {
            "-bit PCM"@
        } else {
            "-bit 未知编码"@
        },
    }
}

/// A format in words.
pub open spec fn format_text(format: EndpointFormat) -> Seq<char> {
    rate_text(format.sample_rate as nat) + " / "@ + encoding_text(format) + " / "@ + decimal_text(
        format.channels as nat,
    ) + " 声道"@
}

/// Describes a format in words.
pub fn endpoint_format_description(format: EndpointFormat) -> (text: String)
    ensures
        text@ == format_text(format),
{
    let rate = format.sample_rate as u64;
    let mut text = String::new();
    if rate % 1000 == 0 {
        push_decimal(&mut text, rate / 1000);
        text.append(" kHz");
    } else if rate % 100 == 0 {
        push_decimal(&mut text, rate / 1000);
        text.append(".");
        push_decimal(&mut text, rate % 1000 / 100);
        text.append(" kHz");
    } else {
        push_decimal(&mut text, rate);
        text.append(" Hz");
    }
    assert(text@ =~= rate_text(rate as nat));
    text.append(" / ");
    let ghost before = text@;
    match encoding(format) {
        Some(SampleEncoding::Float32) => {
            text.append("32-bit IEEE float");
        },
        Some(SampleEncoding::Pcm16) => {
            text.append("16-bit PCM");
        },
        None => {
            push_decimal(&mut text, format.bits_per_sample as u64);
            if format.is_float {
                text.append("-bit IEEE float");
            } else if format.is_pcm {
                text.append("-bit PCM");
            } else {
                text.append("-bit 未知编码");
            }
        },
    }
    assert(text@ =~= before + encoding_text(format));
    text.append(" / ");
    push_decimal(&mut text, format.channels as u64);
    text.append(" 声道");
    assert(text@ =~= format_text(format));
    text
}

/// What a format means for a device.
#[verifier::ext_equal]
pub struct SupportModel {
    pub compatibility: CompatibilityModel,
    pub status: DeviceStatus,
    pub support: DeviceFormatSupport,
    pub reason: Seq<char>,
}

/// Whether a format is that of the mixer.
pub open spec fn is_internal_format(format: EndpointFormat) -> bool {
    format.sample_rate == INTERNAL_SAMPLE_RATE && format.channels == INTERNAL_CHANNELS
        && encoding_of(format) == Some(SampleEncoding::Float32)
}

/// What a format means for a device of a direction.
pub open spec fn support_of(flow: DeviceFlow, format: EndpointFormat) -> SupportModel {
    let usable = match flow {
        DeviceFlow::Capture => format.captures(),
        DeviceFlow::Render => format.renders(),
    };
    let compatibility = match flow {
        DeviceFlow::Capture => CompatibilityModel::CaptureReady,
        DeviceFlow::Render => CompatibilityModel::RenderReady,
    };
    if !usable {
        let reason = "当前音频边界不支持此 "@ + flow_name(flow) + " 格式："@ + format_text(format);
        SupportModel {
            compatibility: CompatibilityModel::Unsupported { reason },
            status: DeviceStatus::Unsupported,
            support: DeviceFormatSupport::Unsupported,
            reason,
        }
    } else if is_internal_format(format) {
        SupportModel {
            compatibility,
            status: DeviceStatus::Active,
            support: DeviceFormatSupport::Native,
            reason: "原生格式与内部 48 kHz / 32-bit IEEE float / 2 声道格式一致"@,
        }
    } else {
        SupportModel {
            compatibility,
            status: DeviceStatus::Active,
            support: DeviceFormatSupport::ConversionRequired,
            reason: "设备可用；原生格式为 "@ + format_text(format) + "；将"@ + match flow {
                DeviceFlow::Capture => "转换为内部 48 kHz / 32-bit IEEE float / 2 声道"@,
                DeviceFlow::Render => "由内部 48 kHz / 32-bit IEEE float / 2 声道转换后写入"@,
            },
        }
    }
}

/// What an unknown format means for a device.
pub open spec fn unknown_support() -> SupportModel {
    SupportModel {
        compatibility: CompatibilityModel::Unsupported {
            reason: "无法读取设备格式，不能确认音频边界是否可安全处理"@,
        },
        status: DeviceStatus::Unsupported,
        support: DeviceFormatSupport::Unknown,
        reason: "无法读取编码、采样率、位深或声道信息"@,
    }
}

/// What a format means for a device.
#[derive(Debug, PartialEq, Eq)]
pub struct FormatSupport {
    pub compatibility: DeviceCompatibility,
    pub status: DeviceStatus,
    pub support: DeviceFormatSupport,
    pub reason: String,
}

impl View for FormatSupport {
    type V = SupportModel;

    open spec fn view(&self) -> SupportModel {
        SupportModel {
            compatibility: self.compatibility@,
            status: self.status,
            support: self.support,
            reason: self.reason@,
        }
    }
}

/// What a format means for a device of a direction.
pub fn project_format_support(flow: DeviceFlow, format: EndpointFormat) -> (support: FormatSupport)
    ensures
        support@ == support_of(flow, format),
{
    let usable = match flow {
        DeviceFlow::Capture => format.capture_compatible(),
        DeviceFlow::Render => format.render_compatible(),
    };
    let description = endpoint_format_description(format);
    if !usable {
        let mut reason = "当前音频边界不支持此 ".to_owned();
        reason.append(flow.as_str());
        reason.append(" 格式：");
        reason.append(description.as_str());
        return FormatSupport {
            compatibility: DeviceCompatibility::Unsupported { reason: reason.clone() },
            status: DeviceStatus::Unsupported,
            support: DeviceFormatSupport::Unsupported,
            reason,
        };
    }
    let compatibility = match flow {
        DeviceFlow::Capture => DeviceCompatibility::CaptureReady,
        DeviceFlow::Render => DeviceCompatibility::RenderReady,
    };
    if format.sample_rate == INTERNAL_SAMPLE_RATE && format.channels == INTERNAL_CHANNELS as u16
        && encoding(format) == Some(SampleEncoding::Float32) {
        return FormatSupport {
            compatibility,
            status: DeviceStatus::Active,
            support: DeviceFormatSupport::Native,
            reason: "原生格式与内部 48 kHz / 32-bit IEEE float / 2 声道格式一致".to_owned(),
        };
    }
    let mut reason = "设备可用；原生格式为 ".to_owned();
    reason.append(description.as_str());
    reason.append("；将");
    match flow {
        DeviceFlow::Capture => {
            reason.append("转换为内部 48 kHz / 32-bit IEEE float / 2 声道");
        },
        DeviceFlow::Render => {
            reason.append("由内部 48 kHz / 32-bit IEEE float / 2 声道转换后写入");
        },
    }
    FormatSupport {
        compatibility,
        status: DeviceStatus::Active,
        support: DeviceFormatSupport::ConversionRequired,
        reason,
    }
}

/// The direction of an endpoint as that of a device.
pub open spec fn device_flow(flow: EndpointFlow) -> DeviceFlow {
    match flow {
        EndpointFlow::Capture => DeviceFlow::Capture,
        EndpointFlow::Render => DeviceFlow::Render,
    }
}

/// An endpoint as a device.
pub open spec fn device_of(info: EndpointInfo) -> DeviceRecord {
    let flow = device_flow(info.flow);
    let support = match info.known_format() {
        Some(format) => support_of(flow, format),
        None => unknown_support(),
    };
    DeviceRecord {
        id: info.id@,
        name: info.name@,
        flow,
        native_format: info.format,
        bits_per_sample: info.bits_per_sample,
        channel_mask: info.channel_mask,
        is_float: info.is_float,
        is_pcm: info.is_pcm,
        native_format_description: match info.known_format() {
            Some(format) => Some(format_text(format)),
            None => None,
        },
        format_support: support.support,
        format_support_reason: support.reason,
        compatibility: support.compatibility,
        status: support.status,
        category: category_of(info.name@, flow),
    }
}

impl DeviceModel {
    /// An endpoint as a device.
    pub fn from_endpoint(info: &EndpointInfo) -> (device: Self)
        ensures
            device@ == device_of(*info),
    {
        let flow = match info.flow {
            EndpointFlow::Capture => DeviceFlow::Capture,
            EndpointFlow::Render => DeviceFlow::Render,
        };
        let (support, description) = match info.endpoint_format() {
            Some(format) => (
                project_format_support(flow, format),
                Some(endpoint_format_description(format)),
            ),
            None => (
                FormatSupport {
                    compatibility: DeviceCompatibility::Unsupported {
                        reason: "无法读取设备格式，不能确认音频边界是否可安全处理".to_owned(),
                    },
                    status: DeviceStatus::Unsupported,
                    support: DeviceFormatSupport::Unknown,
                    reason: "无法读取编码、采样率、位深或声道信息".to_owned(),
                },
                None,
            ),
        };
        let category = DeviceCategory::classify(info.name.as_str(), flow);
        DeviceModel {
            id: info.id.clone(),
            name: info.name.clone(),
            flow,
            native_format: info.format,
            bits_per_sample: info.bits_per_sample,
            channel_mask: info.channel_mask,
            is_float: info.is_float,
            is_pcm: info.is_pcm,
            native_format_description: description,
            format_support: support.support,
            format_support_reason: support.reason,
            compatibility: support.compatibility,
            status: support.status,
            category,
        }
    }
}

/// The devices of a list.
pub open spec fn device_records(devices: Seq<DeviceModel>) -> Seq<DeviceRecord> {
    devices.map_values(|d: DeviceModel| d@)
}

/// Endpoints as devices.
pub fn device_models(endpoints: &Vec<EndpointInfo>) -> (devices: Vec<DeviceModel>)
    ensures
        device_records(devices@) == devices_of(endpoints@),
{
    let mut devices: Vec<DeviceModel> = Vec::new();
    for i in 0..endpoints.len()
        invariant
            devices@.len() == i,
            forall|j: int| 0 <= j < i ==> (#[trigger] devices@[j])@ == device_of(endpoints@[j]),
    {
        devices.push(DeviceModel::from_endpoint(&endpoints[i]));
    }
    assert(device_records(devices@) =~= devices_of(endpoints@));
    devices
}

/// The devices that stand for endpoints.
pub open spec fn devices_of(endpoints: Seq<EndpointInfo>) -> Seq<DeviceRecord> {
    endpoints.map_values(|e: EndpointInfo| device_of(e))
}

/// Whether a device is the first one of an identifier, or there is none of it.
pub open spec fn finds_device(
    devices: Seq<DeviceRecord>,
    id: Seq<char>,
    found: Option<DeviceRecord>,
) -> bool {
    match found {
        Some(device) => device.id == id && exists|i: int|
            0 <= i < devices.len() && #[trigger] devices[i] == device && forall|j: int|
                0 <= j < i ==> (#[trigger] devices[j]).id != id,
        None => forall|i: int| 0 <= i < devices.len() ==> (#[trigger] devices[i]).id != id,
    }
}

/// What is known of a device that may be there.
pub open spec fn device_record(device: Option<DeviceModel>) -> Option<DeviceRecord> {
    match device {
        Some(device) => Some(device@),
        None => None,
    }
}

/// The first device of an identifier.
pub fn find_device_in(devices: Vec<DeviceModel>, id: &EndpointId) -> (device: Option<DeviceModel>)
    ensures
        finds_device(device_records(devices@), id@, device_record(device)),
{
    let ghost records = device_records(devices@);
    let mut rest = devices;
    let count = rest.len();
    for i in 0..count
        invariant
            rest@ == devices@,
            count == rest@.len(),
            records == device_records(devices@),
            forall|j: int| 0 <= j < i ==> (#[trigger] records[j]).id != id@,
    {
        assert(records[i as int] == devices@[i as int]@);
        if rest[i].id.0 == id.0 {
            let device = rest.swap_remove(i);
            assert(device == devices@[i as int]);
            return Some(device);
        }
    }
    None
}

/// What a refused call is told with.
pub open spec fn service_fault(fault: WindowsFault) -> ServiceFault {
    ServiceFault::Windows { source: fault, hint: hint_of(fault) }
}

/// The devices of the machine. Each call takes what the audio service answered.
#[derive(Debug)]
pub struct DeviceRepository {
    backend: WindowsAudioBackend,
}

impl DeviceRepository {
    /// The service that the devices are of.
    pub closed spec fn service(&self) -> WindowsAudioBackend {
        self.backend
    }

    /// The devices of a service, once it is connected.
    pub fn new(backend: Result<WindowsAudioBackend, WindowsAudioError>) -> (result: Result<
        Self,
        ServiceError,
    >)
        ensures
            match (backend, result) {
                (Ok(b), Ok(repository)) => repository.service() == b,
                (Err(e), Err(f)) => f@ == service_fault(e@),
                _ => false,
            },
    {
        match backend {
            Ok(backend) => Ok(DeviceRepository { backend }),
            Err(e) => Err(ServiceError::from_windows(e)),
        }
    }

    /// All devices, where `answer` is what the service lists.
    pub fn list_devices(&self, answer: Result<Vec<EndpointInfo>, WindowsAudioError>) -> (result:
        Result<Vec<DeviceModel>, ServiceError>)
        ensures
            match (answer, result) {
                (Ok(endpoints), Ok(devices)) => device_records(devices@) == devices_of(endpoints@),
                (Err(e), Err(f)) => f@ == service_fault(e@),
                _ => false,
            },
    {
        match answer {
            Ok(endpoints) => Ok(device_models(&endpoints)),
            Err(e) => Err(ServiceError::from_windows(e)),
        }
    }

    /// The device of an identifier, where `answer` is what the service lists.
    pub fn find_device(
        &self,
        id: &EndpointId,
        answer: Result<Vec<EndpointInfo>, WindowsAudioError>,
    ) -> (result: Result<Option<DeviceModel>, ServiceError>)
        ensures
            match (answer, result) {
                (Ok(endpoints), Ok(device)) => finds_device(
                    devices_of(endpoints@),
                    id@,
                    device_record(device),
                ),
                (Err(e), Err(f)) => f@ == service_fault(e@),
                _ => false,
            },
    {
        match self.list_devices(answer) {
            Ok(devices) => Ok(find_device_in(devices, id)),
            Err(e) => Err(e),
        }
    }
}

/// Every refresh goes through the same model: an endpoint that is listed twice is shown as
/// the same device both times, wherever it stands and whatever is listed besides.
pub proof fn law_refreshes_agree(
    first: Seq<EndpointInfo>,
    second: Seq<EndpointInfo>,
    i: int,
    j: int,
)
    requires
        0 <= i < first.len(),
        0 <= j < second.len(),
        endpoint_record(first[i]) == endpoint_record(second[j]),
    ensures
        devices_of(first)[i] == devices_of(second)[j],
{
}

/// One device is found by its identifier: it is one of those listed, it is found exactly
/// where an endpoint of the identifier is listed, and it is the only answer.
pub proof fn law_device_is_found_by_its_identifier(
    endpoints: Seq<EndpointInfo>,
    id: Seq<char>,
    found: Option<DeviceRecord>,
    other: Option<DeviceRecord>,
)
    requires
        finds_device(devices_of(endpoints), id, found),
        finds_device(devices_of(endpoints), id, other),
    ensures
        found matches Some(device) ==> device.id == id && devices_of(endpoints).contains(device),
        found is Some <==> exists|i: int|
            0 <= i < endpoints.len() && (#[trigger] endpoints[i]).id@ == id,
        found == other,
{
    let devices = devices_of(endpoints);
    assert forall|i: int| 0 <= i < endpoints.len() implies devices[i].id == (
    #[trigger] endpoints[i]).id@ by {}
    if found is Some {
        let i = choose|i: int|
            0 <= i < devices.len() && #[trigger] devices[i] == found->Some_0 && forall|j: int|
                0 <= j < i ==> (#[trigger] devices[j]).id != id;
        assert(endpoints[i].id@ == id);
        if other is Some {
            let k = choose|k: int|
                0 <= k < devices.len() && #[trigger] devices[k] == other->Some_0 && forall|j: int|
                    0 <= j < k ==> (#[trigger] devices[j]).id != id;
            assert(i == k);
        }
    }
}

/// A process as it is shown.
#[derive(Debug, PartialEq, Eq)]
pub struct ProcessModel {
    pub pid: u32,
    pub name: String,
    pub executable_path: Option<String>,
}

impl View for ProcessModel {
    type V = ProcessRecord;

    open spec fn view(&self) -> ProcessRecord {
        ProcessRecord {
            pid: self.pid,
            name: self.name@,
            executable_path: crate::routing::optional_text(self.executable_path),
        }
    }
}

impl ProcessModel {
    /// A process as it is shown.
    pub fn from_info(info: &ProcessInfo) -> (process: Self)
        ensures
            process@ == info@,
    {
        let executable_path = match &info.executable_path {
            Some(path) => Some(path.clone()),
            None => None,
        };
        ProcessModel { pid: info.pid, name: info.name.clone(), executable_path }
    }
}

/// Processes as they are shown.
pub fn process_models(processes: &Vec<ProcessInfo>) -> (models: Vec<ProcessModel>)
    ensures
        process_records(models@) == listed_processes(processes@),
{
    let mut models: Vec<ProcessModel> = Vec::new();
    for i in 0..processes.len()
        invariant
            models@.len() == i,
            forall|j: int| 0 <= j < i ==> (#[trigger] models@[j])@ == processes@[j]@,
    {
        models.push(ProcessModel::from_info(&processes[i]));
    }
    assert(process_records(models@) =~= listed_processes(processes@));
    models
}

/// What is known of the processes of a list.
pub open spec fn process_records(processes: Seq<ProcessModel>) -> Seq<ProcessRecord> {
    processes.map_values(|p: ProcessModel| p@)
}

/// Whether a process is the first one of a number, or there is none of it.
pub open spec fn finds_process(
    processes: Seq<ProcessRecord>,
    pid: u32,
    found: Option<ProcessRecord>,
) -> bool {
    match found {
        Some(process) => process.pid == pid && exists|i: int|
            0 <= i < processes.len() && #[trigger] processes[i] == process && forall|j: int|
                0 <= j < i ==> (#[trigger] processes[j]).pid != pid,
        None => forall|i: int| 0 <= i < processes.len() ==> (#[trigger] processes[i]).pid != pid,
    }
}

/// What is known of a process that may be there.
pub open spec fn process_record(process: Option<ProcessModel>) -> Option<ProcessRecord> {
    match process {
        Some(process) => Some(process@),
        None => None,
    }
}

/// The first process of a number.
pub fn find_process_in(processes: Vec<ProcessModel>, pid: u32) -> (process: Option<ProcessModel>)
    ensures
        finds_process(process_records(processes@), pid, process_record(process)),
{
    let ghost records = process_records(processes@);
    let mut rest = processes;
    let count = rest.len();
    for i in 0..count
        invariant
            rest@ == processes@,
            count == rest@.len(),
            records == process_records(processes@),
            forall|j: int| 0 <= j < i ==> (#[trigger] records[j]).pid != pid,
    {
        assert(records[i as int] == processes@[i as int]@);
        if rest[i].pid == pid {
            let process = rest.swap_remove(i);
            assert(process == processes@[i as int]);
            return Some(process);
        }
    }
    None
}

/// The processes that play audio. Each call takes what the audio service answered.
#[derive(Debug)]
pub struct ProcessRepository {
    backend: WindowsAudioBackend,
}

impl ProcessRepository {
    /// The service that the processes play on.
    pub closed spec fn service(&self) -> WindowsAudioBackend {
        self.backend
    }

    /// The processes of a service, once it is connected.
    pub fn new(backend: Result<WindowsAudioBackend, WindowsAudioError>) -> (result: Result<
        Self,
        ServiceError,
    >)
        ensures
            match (backend, result) {
                (Ok(b), Ok(repository)) => repository.service() == b,
                (Err(e), Err(f)) => f@ == service_fault(e@),
                _ => false,
            },
    {
        match backend {
            Ok(backend) => Ok(ProcessRepository { backend }),
            Err(e) => Err(ServiceError::from_windows(e)),
        }
    }

    /// The processes that play audio, where `answer` is what the service lists.
    pub fn list_audio_processes(
        &self,
        answer: Result<Vec<ProcessInfo>, WindowsAudioError>,
    ) -> (result: Result<Vec<ProcessModel>, ServiceError>)
        ensures
            match (answer, result) {
                (Ok(listed), Ok(processes)) => process_records(processes@) == listed_processes(
                    listed@,
                ),
                (Err(e), Err(f)) => f@ == service_fault(e@),
                _ => false,
            },
    {
        match answer {
            Ok(processes) => Ok(process_models(&processes)),
            Err(e) => Err(ServiceError::from_windows(e)),
        }
    }

    /// The process of a number, where `answer` is what the service lists.
    pub fn find_process(
        &self,
        pid: u32,
        answer: Result<Vec<ProcessInfo>, WindowsAudioError>,
    ) -> (result: Result<Option<ProcessModel>, ServiceError>)
        ensures
            match (answer, result) {
                (Ok(listed), Ok(process)) => finds_process(
                    listed_processes(listed@),
                    pid,
                    process_record(process),
                ),
                (Err(e), Err(f)) => f@ == service_fault(e@),
                _ => false,
            },
    {
        match self.list_audio_processes(answer) {
            Ok(processes) => Ok(find_process_in(processes, pid)),
            Err(e) => Err(e),
        }
    }
}

/// One process is found by its number: it is one of those listed, it is found exactly where
/// a process of the number is listed, and it is the only answer.
pub proof fn law_process_is_found_by_its_number(
    listed: Seq<ProcessInfo>,
    pid: u32,
    found: Option<ProcessRecord>,
    other: Option<ProcessRecord>,
)
    requires
        finds_process(listed_processes(listed), pid, found),
        finds_process(listed_processes(listed), pid, other),
    ensures
        found matches Some(process) ==> process.pid == pid && listed_processes(listed).contains(
            process,
        ),
        found is Some <==> exists|i: int|
            0 <= i < listed.len() && (#[trigger] listed[i]).pid == pid,
        found == other,
{
    let processes = listed_processes(listed);
    assert forall|i: int| 0 <= i < listed.len() implies processes[i].pid == (
    #[trigger] listed[i]).pid by {}
    if found is Some {
        let i = choose|i: int|
            0 <= i < processes.len() && #[trigger] processes[i] == found->Some_0 && forall|j: int|
                0 <= j < i ==> (#[trigger] processes[j]).pid != pid;
        assert(listed[i].pid == pid);
        if other is Some {
            let k = choose|k: int|
                0 <= k < processes.len() && #[trigger] processes[k] == other->Some_0
                    && forall|j: int| 0 <= j < k ==> (#[trigger] processes[j]).pid != pid;
            assert(i == k);
        }
    }
}

/// A device is active exactly where it can be used.
pub proof fn law_active_devices_are_usable(info: EndpointInfo)
    ensures
        device_of(info).status == DeviceStatus::Active <==> !(device_of(
            info,
        ).compatibility is Unsupported),
        device_of(info).status == DeviceStatus::Active ==> info.known_format() is Some,
{
}

} // verus!
