//! Errors with advice for the user.

use crate::arithmetic::is_unary;
use crate::decibels::Decibels;
use crate::routing::{graph_fault_text, shown_gain, GraphFault, RouteGraphError};
use crate::runtime::config::{engine_fault_text, AudioEngineError, EngineFault};
use crate::text::joined;
use crate::windows::endpoint::{
    fault_text, WindowsAudioError, WindowsAudioFailureKind, WindowsFault,
};
use vstd::prelude::*;
use vstd::string::StringExecFns;

verus! {

/// Why the service does not do what it is told.
#[derive(Debug, PartialEq, Eq)]
pub enum ServiceError {
    Windows {
        source: WindowsAudioError,
        /// What the user can do.
        hint: String,
    },
    Engine(AudioEngineError),
    Graph(RouteGraphError),
    NotReady(String),
    Rejected { reason: String },
}

/// What a `ServiceError` says.
#[verifier::ext_equal]
pub enum ServiceFault {
    Windows { source: WindowsFault, hint: Seq<char> },
    Engine(EngineFault),
    Graph(GraphFault),
    NotReady(Seq<char>),
    Rejected { reason: Seq<char> },
}

impl View for ServiceError {
    type V = ServiceFault;

    open spec fn view(&self) -> ServiceFault {
        match *self {
            ServiceError::Windows { source, hint } => ServiceFault::Windows {
                source: source@,
                hint: hint@,
            },
            ServiceError::Engine(e) => ServiceFault::Engine(e@),
            ServiceError::Graph(e) => ServiceFault::Graph(e@),
            ServiceError::NotReady(reason) => ServiceFault::NotReady(reason@),
            ServiceError::Rejected { reason } => ServiceFault::Rejected { reason: reason@ },
        }
    }
}

/// What the user can do about an error that does not pass by itself.
pub open spec fn lasting_hint(fault: WindowsFault) -> Seq<char> {
    match fault {
        WindowsFault::RenderFormatUnsupported { .. } | WindowsFault::CaptureFormatUnsupported {
            ..
        } => "设备格式不受当前音频边界支持：请选择 48/44.1 kHz、16-bit PCM 或 32-bit IEEE float 的设备。"@,
        WindowsFault::ComInitialization { .. } =>
            "COM 初始化失败：请确认 Windows 音频服务正在运行，或重启应用后重试。"@,
        WindowsFault::InvalidFormat { .. } => "设备格式信息无效：请更新音频驱动程序后重试。"@,
        WindowsFault::ProcessLoopbackInvalidPid { .. } =>
            "目标进程已退出或 PID 无效：请重新选择音源进程。"@,
        WindowsFault::RenderResample { .. } => "音频转换失败：请尝试更换输出设备后重试。"@,
        WindowsFault::RenderBlockFramesInvalid { .. } | WindowsFault::RenderInputUnaligned {
            ..
        } | WindowsFault::RenderBlockTooLarge { .. } =>
            "输出 block 配置或输入数据无效：请检查应用配置后重试。"@,
        _ => "操作失败：请查看错误详情后重试。"@,
    }
}

/// What the user can do about an error of a device.
pub open spec fn hint_of(fault: WindowsFault) -> Seq<char> {
    if fault.recoverable() {
        "设备不可用：请检查设备连接与供电，确认后重试；设备可能正在被系统重新枚举。"@
    } else {
        lasting_hint(fault)
    }
}

/// What the user can do about an error that does not pass by itself.
pub fn recovery_hint(error: &WindowsAudioError) -> (hint: String)
    ensures
        hint@ == lasting_hint(error@),
{
    match error {
        WindowsAudioError::RenderFormatUnsupported { .. }
        | WindowsAudioError::CaptureFormatUnsupported { .. } =>
            "设备格式不受当前音频边界支持：请选择 48/44.1 kHz、16-bit PCM 或 32-bit IEEE float 的设备。".to_owned(),
        WindowsAudioError::ComInitialization { .. } =>
            "COM 初始化失败：请确认 Windows 音频服务正在运行，或重启应用后重试。".to_owned(),
        WindowsAudioError::InvalidFormat { .. } =>
            "设备格式信息无效：请更新音频驱动程序后重试。".to_owned(),
        WindowsAudioError::ProcessLoopbackInvalidPid { .. } =>
            "目标进程已退出或 PID 无效：请重新选择音源进程。".to_owned(),
        WindowsAudioError::RenderResample { .. } =>
            "音频转换失败：请尝试更换输出设备后重试。".to_owned(),
        WindowsAudioError::RenderBlockFramesInvalid { .. }
        | WindowsAudioError::RenderInputUnaligned { .. }
        | WindowsAudioError::RenderBlockTooLarge { .. } =>
            "输出 block 配置或输入数据无效：请检查应用配置后重试。".to_owned(),
        _ => "操作失败：请查看错误详情后重试。".to_owned(),
    }
}

/// The message of a fault. `shown` writes a gain as a number.
pub open spec fn service_fault_text(fault: ServiceFault, shown: spec_fn(Decibels) -> Seq<char>) -> Seq<
    char,
> {
    match fault {
        ServiceFault::Windows { source, hint } => fault_text(source) + "；建议："@ + hint,
        ServiceFault::Engine(fault) => "引擎错误: "@ + engine_fault_text(fault, shown),
        ServiceFault::Graph(fault) => "路由图错误: "@ + graph_fault_text(fault, shown),
        ServiceFault::NotReady(reason) => "服务未就绪: "@ + reason,
        ServiceFault::Rejected { reason } => "命令被拒绝: "@ + reason,
    }
}

impl ServiceError {
    /// An error of a device, with advice.
    pub fn from_windows(source: WindowsAudioError) -> (error: Self)
        ensures
            error@ == (ServiceFault::Windows { source: source@, hint: hint_of(source@) }),
    {
        let hint = match source.failure_kind() {
            WindowsAudioFailureKind::DeviceUnavailable =>
                "设备不可用：请检查设备连接与供电，确认后重试；设备可能正在被系统重新枚举。".to_owned(),
            WindowsAudioFailureKind::Other => recovery_hint(&source),
        };
        ServiceError::Windows { source, hint }
    }

    /// The HRESULT that the error carries.
    pub fn hresult(&self) -> (hresult: Option<i32>)
        ensures
            hresult == match self@ {
                ServiceFault::Windows { source, .. } => source.code(),
                _ => None,
            },
    {
        match self {
            ServiceError::Windows { source, .. } => source.hresult(),
            _ => None,
        }
    }

    /// The endpoint that the error is about.
    pub fn endpoint_id(&self) -> (endpoint: Option<&str>)
        ensures
            match endpoint {
                Some(id) => self@ matches ServiceFault::Windows { source, .. } && source.endpoint()
                    == Some(id@),
                None => self@ matches ServiceFault::Windows { source, .. }
                    ==> source.endpoint() is None,
            },
    {
        match self {
            ServiceError::Windows { source, .. } => source.endpoint_id(),
            _ => None,
        }
    }

    /// What the user can do.
    pub fn hint(&self) -> (hint: Option<&str>)
        ensures
            match hint {
                Some(text) => self@ matches ServiceFault::Windows { hint, .. } && hint == text@,
                None => !(self@ is Windows),
            },
    {
        match self {
            ServiceError::Windows { hint, .. } => Some(hint.as_str()),
            _ => None,
        }
    }

    /// The message of the error. `show_gain` writes a gain as a number.
    pub fn message<F: Fn(Decibels) -> String>(&self, show_gain: &F) -> (text: String)
        requires
            is_unary::<Decibels, String, F>(*show_gain),
        ensures
            text@ == service_fault_text(self@, shown_gain(*show_gain)),
    {
        match self {
            ServiceError::Windows { source, hint } => {
                let mut text = source.message();
                text.append("；建议：");
                text.append(hint.as_str());
                text
            },
            ServiceError::Engine(e) => joined("引擎错误: ", e.message(show_gain).as_str()),
            ServiceError::Graph(e) => joined("路由图错误: ", e.message(show_gain).as_str()),
            ServiceError::NotReady(reason) => joined("服务未就绪: ", reason.as_str()),
            ServiceError::Rejected { reason } => joined("命令被拒绝: ", reason.as_str()),
        }
    }
}

} // verus!
