//! How serving the console begins: which call comes next, and what a failed one means.

use crate::paths::beside;
use crate::text::joined;
use crate::web::server::{
    any_address, bind_text, own_address, web_fault_text, BindAddress, Readiness, WebServerConfig,
    WebServerError, WebServerFault,
};
use crate::web::tls::tls_dir_for;
use vstd::prelude::*;
use vstd::string::StringExecFns;

verus! {

/// What is to be done next.
#[derive(Debug, PartialEq, Eq)]
pub enum ServeStep {
    /// Bind a listener to the configured address.
    Bind,
    /// Ask the listener where it listens.
    ReadAddress,
    /// Make sure that a directory holds a certificate and its key.
    PrepareTls { directory: String },
    /// Load the certificate and its key.
    LoadTls { directory: String },
    /// Tell where the console is, and answer requests.
    Serve { address: BindAddress },
}

/// What a `ServeStep` says.
#[verifier::ext_equal]
pub enum ServeStepModel {
    Bind,
    ReadAddress,
    PrepareTls { directory: Seq<char> },
    LoadTls { directory: Seq<char> },
    Serve { address: BindAddress },
}

impl View for ServeStep {
    type V = ServeStepModel;

    open spec fn view(&self) -> ServeStepModel {
        match *self {
            ServeStep::Bind => ServeStepModel::Bind,
            ServeStep::ReadAddress => ServeStepModel::ReadAddress,
            ServeStep::PrepareTls { directory } => ServeStepModel::PrepareTls {
                directory: directory@,
            },
            ServeStep::LoadTls { directory } => ServeStepModel::LoadTls { directory: directory@ },
            ServeStep::Serve { address } => ServeStepModel::Serve { address },
        }
    }
}

/// How the call of a step went.
#[derive(Debug, PartialEq, Eq)]
pub enum ServeEvent {
    /// It is done.
    Done,
    /// The listener listens here.
    Address(BindAddress),
    /// The call failed.
    Failed { reason: String },
    /// The task that made the call ended without an answer.
    TaskFailed { reason: String },
}

/// What a `ServeEvent` says.
#[verifier::ext_equal]
pub enum ServeEventModel {
    Done,
    Address(BindAddress),
    Failed { reason: Seq<char> },
    TaskFailed { reason: Seq<char> },
}

impl View for ServeEvent {
    type V = ServeEventModel;

    open spec fn view(&self) -> ServeEventModel {
        match *self {
            ServeEvent::Done => ServeEventModel::Done,
            ServeEvent::Address(address) => ServeEventModel::Address(address),
            ServeEvent::Failed { reason } => ServeEventModel::Failed { reason: reason@ },
            ServeEvent::TaskFailed { reason } => ServeEventModel::TaskFailed { reason: reason@ },
        }
    }
}

/// A start of the console.
#[derive(Debug, PartialEq, Eq)]
pub struct ServerStart {
    config: WebServerConfig,
    config_path: String,
    /// Where the console can be reached, once that is known.
    address: BindAddress,
    step: ServeStep,
}

/// What a `ServerStart` says.
#[verifier::ext_equal]
pub struct StartModel {
    pub config: WebServerConfig,
    pub config_path: Seq<char>,
    pub address: BindAddress,
    pub step: ServeStepModel,
}

/// Where a listener can be reached from the machine itself.
pub open spec fn reachable(address: BindAddress) -> BindAddress {
    if address.ip == any_address() {
        BindAddress { ip: own_address(), port: address.port }
    } else {
        address
    }
}

/// The address that the console is bound to.
pub open spec fn bound_to(config: WebServerConfig) -> BindAddress {
    BindAddress { ip: any_address(), port: config.port }
}

impl StartModel {
    /// A start of which nothing is done.
    pub open spec fn fresh(config: WebServerConfig, config_path: Seq<char>) -> Self {
        StartModel { config, config_path, address: bound_to(config), step: ServeStepModel::Bind }
    }

    /// The start with another step to do.
    pub open spec fn doing(self, step: ServeStepModel) -> Self {
        StartModel { step, ..self }
    }

    /// What becomes of the start when a call went so. An event that does not answer the
    /// step changes nothing.
    pub open spec fn next(self, event: ServeEventModel) -> Result<StartModel, Seq<char>> {
        match (self.step, event) {
            (ServeStepModel::Bind, ServeEventModel::Done) => Ok(
                self.doing(ServeStepModel::ReadAddress),
            ),
            (ServeStepModel::Bind, ServeEventModel::Failed { reason }) => Err(
                "绑定 "@ + bind_text(bound_to(self.config)) + " 失败: "@ + reason,
            ),
            (ServeStepModel::ReadAddress, ServeEventModel::Address(address)) => {
                let found = StartModel { address: reachable(address), ..self };
                if !self.config.tls {
                    Ok(found.doing(ServeStepModel::Serve { address: found.address }))
                } else {
                    match beside(self.config_path, "tls"@) {
                        Some(directory) => Ok(
                            found.doing(ServeStepModel::PrepareTls { directory }),
                        ),
                        None => Err(web_fault_text(WebServerFault::NoConfigDir)),
                    }
                }
            },
            (ServeStepModel::ReadAddress, ServeEventModel::Failed { reason }) => Err(
                "读取监听地址失败: "@ + reason,
            ),
            (ServeStepModel::PrepareTls { directory }, ServeEventModel::Done) => Ok(
                self.doing(ServeStepModel::LoadTls { directory }),
            ),
            (ServeStepModel::PrepareTls { .. }, ServeEventModel::Failed { reason }) => Err(reason),
            (ServeStepModel::PrepareTls { .. }, ServeEventModel::TaskFailed { reason }) => Err(
                "TLS 材料任务失败: "@ + reason,
            ),
            (ServeStepModel::LoadTls { .. }, ServeEventModel::Done) => Ok(
                self.doing(ServeStepModel::Serve { address: self.address }),
            ),
            (ServeStepModel::LoadTls { .. }, ServeEventModel::Failed { reason }) => Err(
                "加载 TLS 配置失败: "@ + reason,
            ),
            _ => Ok(self),
        }
    }

    /// How many steps are left at most.
    pub open spec fn left(self) -> nat {
        match self.step {
            ServeStepModel::Bind => 4,
            ServeStepModel::ReadAddress => 3,
            ServeStepModel::PrepareTls { .. } => 2,
            ServeStepModel::LoadTls { .. } => 1,
            ServeStepModel::Serve { .. } => 0,
        }
    }

    /// Whether an event answers the step.
    pub open spec fn answered_by(self, event: ServeEventModel) -> bool {
        match self.step {
            ServeStepModel::Bind => event is Done || event is Failed,
            ServeStepModel::ReadAddress => event is Address || event is Failed,
            ServeStepModel::PrepareTls { .. } => event !is Address,
            ServeStepModel::LoadTls { .. } => event is Done || event is Failed,
            ServeStepModel::Serve { .. } => false,
        }
    }
}

impl View for ServerStart {
    type V = StartModel;

    closed spec fn view(&self) -> StartModel {
        StartModel {
            config: self.config,
            config_path: self.config_path@,
            address: self.address,
            step: self.step@,
        }
    }
}

impl ServerStart {
    /// A start of which nothing is done.
    pub fn new(config: WebServerConfig, config_path: String) -> (start: Self)
        ensures
            start@ == StartModel::fresh(config, config_path@),
    {
        ServerStart { config, config_path, address: config.bind_addr(), step: ServeStep::Bind }
    }

    /// What is to be done next.
    pub fn step(&self) -> (step: &ServeStep)
        ensures
            step@ == self@.step,
    {
        &self.step
    }

    /// The address that the listener is to be bound to.
    pub fn bind_text(&self) -> (text: String)
        ensures
            text@ == bind_text(bound_to(self@.config)),
    {
        self.config.bind_addr().text()
    }

    /// Goes on after a call, or says why the console is not served.
    pub fn advance(self, event: ServeEvent) -> (result: Result<ServerStart, String>)
        ensures
            match result {
                Ok(start) => self@.next(event@) == Ok::<StartModel, Seq<char>>(start@),
                Err(reason) => self@.next(event@) == Err::<StartModel, Seq<char>>(reason@),
            },
    {
        let ServerStart { config, config_path, address, step } = self;
        match (step, event) {
            (ServeStep::Bind, ServeEvent::Done) => Ok(
                ServerStart { config, config_path, address, step: ServeStep::ReadAddress },
            ),
            (ServeStep::Bind, ServeEvent::Failed { reason }) => {
                let mut text = joined("绑定 ", config.bind_addr().text().as_str());
                text.append(" 失败: ");
                text.append(reason.as_str());
                Err(text)
            },
            (ServeStep::ReadAddress, ServeEvent::Address(bound)) => {
                let address = bound.reported();
                if !config.tls {
                    let step = ServeStep::Serve { address };
                    return Ok(ServerStart { config, config_path, address, step });
                }
                match tls_dir_for(config_path.as_str()) {
                    Some(directory) => {
                        let step = ServeStep::PrepareTls { directory };
                        Ok(ServerStart { config, config_path, address, step })
                    },
                    None => Err(WebServerError::NoConfigDir.message()),
                }
            },
            (ServeStep::ReadAddress, ServeEvent::Failed { reason }) => Err(
                joined("读取监听地址失败: ", reason.as_str()),
            ),
            (ServeStep::PrepareTls { directory }, ServeEvent::Done) => Ok(
                ServerStart {
                    config,
                    config_path,
                    address,
                    step: ServeStep::LoadTls { directory },
                },
            ),
            (ServeStep::PrepareTls { .. }, ServeEvent::Failed { reason }) => Err(reason),
            (ServeStep::PrepareTls { .. }, ServeEvent::TaskFailed { reason }) => Err(
                joined("TLS 材料任务失败: ", reason.as_str()),
            ),
            (ServeStep::LoadTls { .. }, ServeEvent::Done) => Ok(
                ServerStart { config, config_path, address, step: ServeStep::Serve { address } },
            ),
            (ServeStep::LoadTls { .. }, ServeEvent::Failed { reason }) => Err(
                joined("加载 TLS 配置失败: ", reason.as_str()),
            ),
            (step, _) => Ok(ServerStart { config, config_path, address, step }),
        }
    }
}

/// What is told to whoever waits for the console, once the start has come this far: nothing
/// before requests are answered or the start has failed.
pub fn readiness(result: &Result<ServerStart, String>) -> (told: Option<Readiness>)
    ensures
        match *result {
            Ok(start) => match start@.step {
                ServeStepModel::Serve { address } => told == Some(Readiness::Ready(address)),
                _ => told is None,
            },
            Err(reason) => told matches Some(Readiness::Failed(told)) && told@ == reason@,
        },
{
    match result {
        Ok(start) => match &start.step {
            ServeStep::Serve { address } => Some(Readiness::Ready(*address)),
            _ => None,
        },
        Err(reason) => Some(Readiness::Failed(reason.clone())),
    }
}

/// Every answer brings the start on, or ends it.
pub proof fn law_start_progresses(start: StartModel, event: ServeEventModel)
    requires
        start.answered_by(event),
    ensures
        match start.next(event) {
            Ok(next) => next.left() < start.left(),
            Err(_) => true,
        },
{
}

/// A console that is to be encrypted is served only once its certificate was loaded.
pub proof fn law_tls_is_never_skipped(start: StartModel, event: ServeEventModel)
    requires
        start.next(event) matches Ok(next) && next.step is Serve,
        start.step !is Serve,
    ensures
        start.config.tls ==> start.step is LoadTls && event is Done,
{
}

/// The address that is told can be connected to: it never stands for every address.
pub proof fn law_told_address_is_reachable(start: StartModel, event: ServeEventModel)
    requires
        start.step is ReadAddress,
    ensures
        start.next(event) matches Ok(next) ==> next.step is ReadAddress || next.address.ip
            != any_address(),
{
}

} // verus!
