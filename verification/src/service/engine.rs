//! The engine as the application drives it: commands in, events out.

use crate::decibels::Decibels;
use crate::editor::{change_send, with_send, SettingChange};
use crate::routing::{
    EndpointId, GraphModel, RouteGraph, SendId, SendModel, SinkModel, SourceModel,
    DEFAULT_BLOCK_FRAMES,
};
use crate::runtime::config::{
    config_fault, AudioEngineConfig, EngineFault, DEFAULT_FIFO_CAPACITY_BLOCKS,
};
use crate::runtime::engine::{AudioEngine, EngineModel, EngineReport};
use crate::runtime::status::{
    no_stats, state_name, AudioEngineState, AudioEngineStats, AudioEngineStatus,
};
use crate::service::error::{ServiceError, ServiceFault};
use crate::snapshot::RouteGraphSnapshot;
use crate::text::{contains_text, has_text, joined};
use vstd::prelude::*;
use vstd::string::StringExecFns;

verus! {

/// What an engine is told.
#[derive(Debug)]
pub enum EngineCommand {
    Start,
    Stop,
    /// Another graph, whole.
    ApplyRoute(RouteGraphSnapshot),
    SetGain { send_id: SendId, gain_db: Decibels },
    SetMuted { send_id: SendId, muted: bool },
    SetSendEnabled { send_id: SendId, enabled: bool },
}

/// What an `EngineCommand` says.
#[verifier::ext_equal]
pub enum CommandModel {
    Start,
    Stop,
    ApplyRoute(GraphModel),
    SetGain { send_id: Seq<char>, gain_db: Decibels },
    SetMuted { send_id: Seq<char>, muted: bool },
    SetSendEnabled { send_id: Seq<char>, enabled: bool },
}

impl View for EngineCommand {
    type V = CommandModel;

    open spec fn view(&self) -> CommandModel {
        match *self {
            EngineCommand::Start => CommandModel::Start,
            EngineCommand::Stop => CommandModel::Stop,
            EngineCommand::ApplyRoute(graph) => CommandModel::ApplyRoute(graph@),
            EngineCommand::SetGain { send_id, gain_db } => CommandModel::SetGain {
                send_id: send_id@,
                gain_db,
            },
            EngineCommand::SetMuted { send_id, muted } => CommandModel::SetMuted {
                send_id: send_id@,
                muted,
            },
            EngineCommand::SetSendEnabled { send_id, enabled } => CommandModel::SetSendEnabled {
                send_id: send_id@,
                enabled,
            },
        }
    }
}

/// What the application is told.
#[derive(Debug, PartialEq, Eq)]
pub enum ServiceEvent {
    StateChanged(AudioEngineState),
    StatsChanged(AudioEngineStats),
    DeviceLost(EndpointId),
    DeviceRestored(EndpointId),
}

/// What a `ServiceEvent` says.
#[verifier::ext_equal]
pub enum ServiceEventModel {
    StateChanged(AudioEngineState),
    StatsChanged(AudioEngineStats),
    DeviceLost(Seq<char>),
    DeviceRestored(Seq<char>),
}

impl View for ServiceEvent {
    type V = ServiceEventModel;

    open spec fn view(&self) -> ServiceEventModel {
        match *self {
            ServiceEvent::StateChanged(state) => ServiceEventModel::StateChanged(state),
            ServiceEvent::StatsChanged(stats) => ServiceEventModel::StatsChanged(stats),
            ServiceEvent::DeviceLost(id) => ServiceEventModel::DeviceLost(id@),
            ServiceEvent::DeviceRestored(id) => ServiceEventModel::DeviceRestored(id@),
        }
    }
}

/// The events of a list.
pub open spec fn event_models(events: Seq<ServiceEvent>) -> Seq<ServiceEventModel> {
    events.map_values(|e: ServiceEvent| e@)
}

/// The endpoints of a list.
pub open spec fn endpoint_texts(endpoints: Seq<EndpointId>) -> Seq<Seq<char>> {
    endpoints.map_values(|e: EndpointId| e@)
}

/// Whether an error names an endpoint.
pub open spec fn mentions_endpoint(error: Seq<char>, endpoint: Seq<char>) -> bool {
    ||| has_text(error, "endpoint="@ + endpoint)
    ||| has_text(error, "endpoint=Some(\""@ + endpoint + "\")"@)
    ||| has_text(error, "endpoint_id="@ + endpoint)
    ||| has_text(error, "endpoint_id=Some(\""@ + endpoint + "\")"@)
}

fn quoted(prefix: &str, endpoint: &str) -> (marker: String)
    ensures
        marker@ == prefix@ + endpoint@ + "\")"@,
{
    let mut marker = prefix.to_owned();
    marker.append(endpoint);
    marker.append("\")");
    marker
}

/// Whether an error names an endpoint.
pub fn error_mentions_endpoint(error: &str, endpoint: &str) -> (mentioned: bool)
    ensures
        mentioned == mentions_endpoint(error@, endpoint@),
{
    contains_text(error, joined("endpoint=", endpoint).as_str()) || contains_text(
        error,
        quoted("endpoint=Some(\"", endpoint).as_str(),
    ) || contains_text(error, joined("endpoint_id=", endpoint).as_str()) || contains_text(
        error,
        quoted("endpoint_id=Some(\"", endpoint).as_str(),
    )
}

/// The endpoints of the first sources that have one.
pub open spec fn source_endpoints(sources: Seq<SourceModel>, n: nat) -> Seq<Seq<char>>
    decreases n,
{
    if n == 0 {
        Seq::empty()
    } else {
        let rest = source_endpoints(sources, (n - 1) as nat);
        match sources[n - 1].endpoint_id {
            Some(id) => rest.push(id),
            None => rest,
        }
    }
}

/// The endpoints of a graph: those of the sources, then those of the sinks.
pub open spec fn endpoints_of(graph: GraphModel) -> Seq<Seq<char>> {
    source_endpoints(graph.sources, graph.sources.len()) + graph.sinks.map_values(
        |s: SinkModel| s.endpoint_id,
    )
}

/// The endpoints of a graph.
pub fn graph_endpoints(graph: &RouteGraph) -> (endpoints: Vec<EndpointId>)
    ensures
        endpoint_texts(endpoints@) == endpoints_of(graph@),
{
    let mut endpoints: Vec<EndpointId> = Vec::new();
    assert(endpoint_texts(endpoints@) =~= source_endpoints(graph@.sources, 0));
    for i in 0..graph.sources.len()
        invariant
            endpoint_texts(endpoints@) == source_endpoints(graph@.sources, i as nat),
    {
        assert(graph@.sources[i as int] == graph.sources@[i as int]@);
        let ghost before = endpoint_texts(endpoints@);
        if let Some(endpoint) = &graph.sources[i].endpoint_id {
            endpoints.push(endpoint.clone());
            assert(endpoint_texts(endpoints@) =~= before.push(endpoint@));
        }
    }
    let ghost first = endpoint_texts(endpoints@);
    let ghost all = graph@.sinks.map_values(|s: SinkModel| s.endpoint_id);
    assert(first + all.take(0) =~= first);
    for i in 0..graph.sinks.len()
        invariant
            all == graph@.sinks.map_values(|s: SinkModel| s.endpoint_id),
            endpoint_texts(endpoints@) == first + all.take(i as int),
    {
        assert(graph@.sinks[i as int] == graph.sinks@[i as int]@);
        let ghost before = endpoint_texts(endpoints@);
        endpoints.push(graph.sinks[i].endpoint_id.clone());
        assert(endpoint_texts(endpoints@) =~= before.push(all[i as int]));
        assert(all.take(i + 1) =~= all.take(i as int).push(all[i as int]));
        assert(endpoint_texts(endpoints@) =~= first + all.take(i + 1));
    }
    assert(all.take(all.len() as int) =~= all);
    endpoints
}

/// The first of some endpoints that an error names.
pub open spec fn named_endpoints(endpoints: Seq<Seq<char>>, error: Seq<char>) -> Seq<Seq<char>>
    decreases endpoints.len(),
{
    if endpoints.len() == 0 {
        Seq::empty()
    } else {
        let rest = named_endpoints(endpoints.drop_last(), error);
        if mentions_endpoint(error, endpoints.last()) {
            rest.push(endpoints.last())
        } else {
            rest
        }
    }
}

/// The endpoints of a graph that an error names; none without an error.
pub open spec fn failed_endpoints(graph: GraphModel, last_error: Option<Seq<char>>) -> Seq<
    Seq<char>,
> {
    match last_error {
        Some(error) => named_endpoints(endpoints_of(graph), error),
        None => Seq::empty(),
    }
}

/// The endpoints of a graph that an error names.
pub fn failed_graph_endpoints(graph: &RouteGraph, last_error: Option<&str>) -> (endpoints: Vec<
    EndpointId,
>)
    ensures
        endpoint_texts(endpoints@) == failed_endpoints(
            graph@,
            match last_error {
                Some(error) => Some(error@),
                None => None,
            },
        ),
{
    let mut failed: Vec<EndpointId> = Vec::new();
    assert(endpoint_texts(failed@) =~= Seq::<Seq<char>>::empty());
    let error = match last_error {
        Some(error) => error,
        None => {
            return failed;
        },
    };
    let endpoints = graph_endpoints(graph);
    let ghost all = endpoint_texts(endpoints@);
    for i in 0..endpoints.len()
        invariant
            all == endpoint_texts(endpoints@),
            endpoint_texts(failed@) == named_endpoints(all.take(i as int), error@),
    {
        assert(all.take(i + 1).drop_last() =~= all.take(i as int));
        assert(all.take(i + 1).last() == endpoints@[i as int]@);
        let ghost before = endpoint_texts(failed@);
        if error_mentions_endpoint(error, endpoints[i].0.as_str()) {
            failed.push(endpoints[i].clone());
            assert(endpoint_texts(failed@) =~= before.push(endpoints@[i as int]@));
        }
    }
    assert(all.take(all.len() as int) =~= all);
    failed
}

/// The engine and what the application was told of it.
#[derive(Debug)]
pub struct EngineService {
    /// The engine.
    pub engine: AudioEngine,
    /// The graph that was last accepted.
    graph: RouteGraphSnapshot,
    faulted: Vec<EndpointId>,
    last_state: Option<AudioEngineState>,
    last_stats: Option<AudioEngineStats>,
}

/// What an `EngineService` is.
#[verifier::ext_equal]
pub struct ServiceModel {
    pub engine: EngineModel,
    pub graph: GraphModel,
    /// The endpoints that were reported lost.
    pub faulted: Seq<Seq<char>>,
    /// The state that was last told.
    pub last_state: Option<AudioEngineState>,
    /// The counts that were last told.
    pub last_stats: Option<AudioEngineStats>,
}

impl View for EngineService {
    type V = ServiceModel;

    closed spec fn view(&self) -> ServiceModel {
        ServiceModel {
            engine: self.engine@,
            graph: self.graph@,
            faulted: endpoint_texts(self.faulted@),
            last_state: self.last_state,
            last_stats: self.last_stats,
        }
    }
}

/// Whether a state is that of a lost device.
pub open spec fn is_degraded(state: AudioEngineState) -> bool {
    state == AudioEngineState::Degraded || state == AudioEngineState::Reconnecting
}

/// Whether going from one state to another loses devices.
pub open spec fn loses_devices(
    previous: Option<AudioEngineState>,
    current: AudioEngineState,
) -> bool {
    is_degraded(current) && previous == Some(AudioEngineState::Running)
}

/// Whether going from one state to another brings devices back.
pub open spec fn restores_devices(
    previous: Option<AudioEngineState>,
    current: AudioEngineState,
) -> bool {
    current == AudioEngineState::Running && (previous matches Some(state) && (is_degraded(state)
        || state == AudioEngineState::Failed))
}

/// That endpoints were lost.
pub open spec fn lost_events(endpoints: Seq<Seq<char>>) -> Seq<ServiceEventModel> {
    endpoints.map_values(|e: Seq<char>| ServiceEventModel::DeviceLost(e))
}

/// That endpoints are back.
pub open spec fn restored_events(endpoints: Seq<Seq<char>>) -> Seq<ServiceEventModel> {
    endpoints.map_values(|e: Seq<char>| ServiceEventModel::DeviceRestored(e))
}

impl ServiceModel {
    /// Why a change of a send is refused, if it is: the engine does not run, the send is
    /// not there, the graph is no longer valid, or the engine refuses it.
    pub open spec fn send_fault(self, send_id: Seq<char>, change: spec_fn(SendModel) -> SendModel)
        -> Option<ServiceFault> {
        if self.engine.state != AudioEngineState::Running {
            Some(
                ServiceFault::Rejected {
                    reason: "引擎当前处于 "@ + state_name(self.engine.state)
                        + "，send 级命令仅对运行中的引擎生效"@,
                },
            )
        } else {
            match with_send(self.graph, send_id, change) {
                Err(_) => Some(ServiceFault::Rejected { reason: "send 不存在: "@ + send_id }),
                Ok(next) => match next.fault() {
                    Some(fault) => Some(ServiceFault::Graph(fault)),
                    None => match self.engine.update_fault(next) {
                        Some(fault) => Some(ServiceFault::Engine(fault)),
                        None => None,
                    },
                },
            }
        }
    }

    /// With another graph.
    pub open spec fn with_graph(self, graph: GraphModel) -> ServiceModel {
        ServiceModel { graph, engine: EngineModel { graph, ..self.engine }, ..self }
    }

    /// With a send changed.
    pub open spec fn with_changed_send(
        self,
        send_id: Seq<char>,
        change: spec_fn(SendModel) -> SendModel,
    ) -> ServiceModel {
        match with_send(self.graph, send_id, change) {
            Ok(next) => self.with_graph(next),
            Err(_) => self,
        }
    }

    /// How a command changes a send, where it does.
    pub open spec fn send_change(command: CommandModel) -> Option<
        (Seq<char>, spec_fn(SendModel) -> SendModel),
    > {
        match command {
            CommandModel::SetGain { send_id, gain_db } => Some(
                (send_id, |s: SendModel| SendModel { gain_db, ..s }),
            ),
            CommandModel::SetMuted { send_id, muted } => Some(
                (send_id, |s: SendModel| SendModel { muted, ..s }),
            ),
            CommandModel::SetSendEnabled { send_id, enabled } => Some(
                (send_id, |s: SendModel| SendModel { enabled, ..s }),
            ),
            _ => None,
        }
    }

    /// Why a command is refused, if it is.
    pub open spec fn command_fault(self, command: CommandModel) -> Option<ServiceFault> {
        match command {
            CommandModel::Start => if self.engine.state != AudioEngineState::Stopped {
                Some(ServiceFault::Engine(EngineFault::AlreadyRunning))
            } else {
                None
            },
            CommandModel::Stop => if self.engine.state == AudioEngineState::Stopped {
                Some(ServiceFault::Engine(EngineFault::NotRunning))
            } else {
                None
            },
            CommandModel::ApplyRoute(graph) => match self.engine.update_fault(graph) {
                Some(fault) => Some(ServiceFault::Engine(fault)),
                None => None,
            },
            _ => {
                let (send_id, change) = ServiceModel::send_change(command)->0;
                self.send_fault(send_id, change)
            },
        }
    }

    /// After a command that is not refused.
    pub open spec fn after_command(self, command: CommandModel) -> ServiceModel {
        match command {
            CommandModel::Start => ServiceModel { engine: started(self.engine), ..self },
            CommandModel::Stop => ServiceModel { engine: stopped(self.engine), ..self },
            CommandModel::ApplyRoute(graph) => self.with_graph(graph),
            _ => {
                let (send_id, change) = ServiceModel::send_change(command)->0;
                self.with_changed_send(send_id, change)
            },
        }
    }

    /// What is told of a change of the state.
    pub open spec fn transition_events(self) -> Seq<ServiceEventModel> {
        let lost = if loses_devices(self.last_state, self.engine.state) {
            lost_events(failed_endpoints(self.graph, self.engine.last_error))
        } else {
            Seq::empty()
        };
        let restored = if restores_devices(self.last_state, self.engine.state) {
            restored_events(self.faulted)
        } else {
            Seq::empty()
        };
        seq![ServiceEventModel::StateChanged(self.engine.state)] + lost + restored
    }

    /// The endpoints that are reported lost after a change of the state.
    pub open spec fn faulted_after(self) -> Seq<Seq<char>> {
        if restores_devices(self.last_state, self.engine.state) {
            Seq::empty()
        } else if loses_devices(self.last_state, self.engine.state) {
            failed_endpoints(self.graph, self.engine.last_error)
        } else {
            self.faulted
        }
    }

    /// What is told since the last time: a change of the state, then one of the counts.
    pub open spec fn news(self) -> Seq<ServiceEventModel> {
        let transition = if self.last_state == Some(self.engine.state) {
            Seq::empty()
        } else {
            self.transition_events()
        };
        let counts = if self.last_stats == Some(self.engine.stats) {
            Seq::empty()
        } else {
            seq![ServiceEventModel::StatsChanged(self.engine.stats)]
        };
        transition + counts
    }
}

/// The service of a graph, whose engine stands still.
pub open spec fn fresh_service(graph: GraphModel) -> ServiceModel {
    ServiceModel {
        engine: EngineModel {
            graph,
            block_frames: DEFAULT_BLOCK_FRAMES,
            fifo_capacity_frames: (DEFAULT_BLOCK_FRAMES * DEFAULT_FIFO_CAPACITY_BLOCKS) as usize,
            state: AudioEngineState::Stopped,
            stop_requested: false,
            last_error: None,
            stats: no_stats(),
            session_open: false,
        },
        graph,
        faulted: Seq::empty(),
        last_state: None,
        last_stats: None,
    }
}

/// An engine that was started.
pub open spec fn started(engine: EngineModel) -> EngineModel {
    EngineModel {
        state: AudioEngineState::Running,
        stop_requested: false,
        last_error: None,
        ..engine
    }
}

/// An engine that was stopped.
pub open spec fn stopped(engine: EngineModel) -> EngineModel {
    EngineModel {
        state: AudioEngineState::Stopped,
        stop_requested: true,
        session_open: false,
        ..engine
    }
}

/// Why a new try is refused, if it is: an engine that stands still or runs needs none.
pub open spec fn reconnect_fault(state: AudioEngineState) -> Option<ServiceFault> {
    match state {
        AudioEngineState::Stopped => Some(ServiceFault::NotReady("引擎未启动，无需重连"@)),
        AudioEngineState::Running => Some(
            ServiceFault::Rejected { reason: "引擎运行正常，无需重连"@ },
        ),
        _ => None,
    }
}

impl EngineService {
    /// A service for a graph, whose engine stands still.
    pub fn new(graph: RouteGraph) -> (result: Result<Self, ServiceError>)
        ensures
            match result {
                Ok(service) => {
                    &&& graph@.fault() is None
                    &&& config_fault(
                        graph@,
                        DEFAULT_BLOCK_FRAMES as nat,
                        (DEFAULT_BLOCK_FRAMES * DEFAULT_FIFO_CAPACITY_BLOCKS) as nat,
                    ) is None
                    &&& service@ == fresh_service(graph@)
                },
                Err(e) => match graph@.fault() {
                    Some(fault) => e@ == ServiceFault::Graph(fault),
                    None => config_fault(
                        graph@,
                        DEFAULT_BLOCK_FRAMES as nat,
                        (DEFAULT_BLOCK_FRAMES * DEFAULT_FIFO_CAPACITY_BLOCKS) as nat,
                    ) matches Some(fault) && e@ == ServiceFault::Engine(fault),
                },
            },
    {
        let snapshot = match RouteGraphSnapshot::new(graph) {
            Ok(snapshot) => snapshot,
            Err(e) => {
                return Err(ServiceError::Graph(e));
            },
        };
        proof {
            crate::routing::law_fault_iff_not_well_formed(graph@);
        }
        let engine = match AudioEngine::new(AudioEngineConfig::new(snapshot.clone())) {
            Ok(engine) => engine,
            Err(e) => {
                return Err(ServiceError::Engine(e));
            },
        };
        let faulted: Vec<EndpointId> = Vec::new();
        assert(endpoint_texts(faulted@) =~= Seq::<Seq<char>>::empty());
        Ok(
            EngineService { engine, graph: snapshot, faulted, last_state: None, last_stats: None },
        )
    }

    /// Takes a report of the engine's threads.
    pub fn take_report(&mut self, report: EngineReport)
        ensures
            final(self)@ == (ServiceModel {
                engine: old(self)@.engine.reported(report),
                ..old(self)@
            }),
    {
        self.engine.take_report(report);
    }

    /// What is told of the engine.
    pub fn status(&self) -> (status: AudioEngineStatus)
        ensures
            status.state == self@.engine.state,
            status.running == (self@.engine.state == AudioEngineState::Running),
            status.failed == (self@.engine.state == AudioEngineState::Failed),
            crate::routing::optional_text(status.last_error) == self@.engine.last_error,
            status.stats == self@.engine.stats,
    {
        self.engine.status()
    }

    /// Starts the engine.
    pub fn start(&mut self) -> (result: Result<(), ServiceError>)
        ensures
            match result {
                Ok(_) => old(self)@.command_fault(CommandModel::Start) is None && final(self)@
                    == old(self)@.after_command(CommandModel::Start),
                Err(e) => old(self)@.command_fault(CommandModel::Start) == Some(e@)
                    && final(self)@ == old(self)@,
            },
    {
        match self.engine.start() {
            Ok(_) => Ok(()),
            Err(e) => Err(ServiceError::Engine(e)),
        }
    }

    /// Stops the engine, once its threads are gone.
    pub fn stop(&mut self) -> (result: Result<(), ServiceError>)
        ensures
            match result {
                Ok(_) => old(self)@.command_fault(CommandModel::Stop) is None && final(self)@
                    == old(self)@.after_command(CommandModel::Stop),
                Err(e) => old(self)@.command_fault(CommandModel::Stop) == Some(e@) && final(self)@
                    == old(self)@,
            },
    {
        match self.engine.stop() {
            Ok(_) => Ok(()),
            Err(e) => Err(ServiceError::Engine(e)),
        }
    }

    fn apply_route(&mut self, snapshot: RouteGraphSnapshot) -> (result: Result<(), ServiceError>)
        ensures
            match result {
                Ok(_) => old(self)@.engine.update_fault(snapshot@) is None && final(self)@
                    == old(self)@.with_graph(snapshot@),
                Err(e) => (old(self)@.engine.update_fault(snapshot@) matches Some(fault) && e@
                    == ServiceFault::Engine(fault)) && final(self)@ == old(self)@,
            },
    {
        match self.engine.update_graph(snapshot.clone()) {
            Ok(_) => {
                self.graph = snapshot;
                Ok(())
            },
            Err(e) => Err(ServiceError::Engine(e)),
        }
    }

    /// Gives the engine another graph, which has to differ in sends alone.
    pub fn update_graph(&mut self, graph: RouteGraph) -> (result: Result<(), ServiceError>)
        ensures
            match result {
                Ok(_) => graph@.fault() is None && old(self)@.engine.update_fault(graph@) is None
                    && final(self)@ == old(self)@.with_graph(graph@),
                Err(e) => final(self)@ == old(self)@ && match graph@.fault() {
                    Some(fault) => e@ == ServiceFault::Graph(fault),
                    None => old(self)@.engine.update_fault(graph@) matches Some(fault) && e@
                        == ServiceFault::Engine(fault),
                },
            },
    {
        proof {
            crate::routing::law_fault_iff_not_well_formed(graph@);
        }
        match RouteGraphSnapshot::new(graph) {
            Ok(snapshot) => self.apply_route(snapshot),
            Err(e) => Err(ServiceError::Graph(e)),
        }
    }

    fn update_send(&mut self, send_id: &SendId, change: SettingChange) -> (result: Result<
        (),
        ServiceError,
    >)
        ensures
            match result {
                Ok(_) => old(self)@.send_fault(
                    send_id@,
                    |s: SendModel| change.changed(s),
                ) is None && final(self)@ == old(self)@.with_changed_send(
                    send_id@,
                    |s: SendModel| change.changed(s),
                ),
                Err(e) => old(self)@.send_fault(send_id@, |s: SendModel| change.changed(s)) == Some(
                    e@,
                ) && final(self)@ == old(self)@,
            },
    {
        let state = self.engine.status().state;
        if state != AudioEngineState::Running {
            let mut reason = "引擎当前处于 ".to_owned();
            reason.append(state.as_str());
            reason.append("，send 级命令仅对运行中的引擎生效");
            return Err(ServiceError::Rejected { reason });
        }
        let mut next = self.graph.graph().clone();
        if let Err(_) = change_send(&mut next, send_id, change) {
            return Err(
                ServiceError::Rejected { reason: joined("send 不存在: ", send_id.0.as_str()) },
            );
        }
        proof {
            crate::routing::law_fault_iff_not_well_formed(next@);
        }
        match RouteGraphSnapshot::new(next) {
            Ok(snapshot) => self.apply_route(snapshot),
            Err(e) => Err(ServiceError::Graph(e)),
        }
    }

    /// Carries out a command. One that is refused changes nothing.
    pub fn command(&mut self, command: EngineCommand) -> (result: Result<(), ServiceError>)
        ensures
            match result {
                Ok(_) => old(self)@.command_fault(command@) is None && final(self)@
                    == old(self)@.after_command(command@),
                Err(e) => old(self)@.command_fault(command@) == Some(e@) && final(self)@ == old(self)@,
            },
    {
        match command {
            EngineCommand::Start => self.start(),
            EngineCommand::Stop => self.stop(),
            EngineCommand::ApplyRoute(snapshot) => self.apply_route(snapshot),
            EngineCommand::SetGain { send_id, gain_db } => {
                let change = SettingChange::Gain(gain_db);
                assert((|s: SendModel| change.changed(s)) =~= (|s: SendModel| SendModel {
                    gain_db,
                    ..s
                }));
                self.update_send(&send_id, change)
            },
            EngineCommand::SetMuted { send_id, muted } => {
                let change = SettingChange::Muted(muted);
                assert((|s: SendModel| change.changed(s)) =~= (|s: SendModel| SendModel {
                    muted,
                    ..s
                }));
                self.update_send(&send_id, change)
            },
            EngineCommand::SetSendEnabled { send_id, enabled } => {
                let change = SettingChange::Enabled(enabled);
                assert((|s: SendModel| change.changed(s)) =~= (|s: SendModel| SendModel {
                    enabled,
                    ..s
                }));
                self.update_send(&send_id, change)
            },
        }
    }

    /// Whether a new try makes sense now.
    pub fn check_reconnect(&self) -> (result: Result<(), ServiceError>)
        ensures
            match result {
                Ok(_) => reconnect_fault(self@.engine.state) is None,
                Err(e) => reconnect_fault(self@.engine.state) == Some(e@),
            },
    {
        match self.engine.state {
            AudioEngineState::Stopped => Err(
                ServiceError::NotReady("引擎未启动，无需重连".to_owned()),
            ),
            AudioEngineState::Running => Err(
                ServiceError::Rejected { reason: "引擎运行正常，无需重连".to_owned() },
            ),
            _ => Ok(()),
        }
    }

    /// Starts a new try with the same graph, once the threads of the last one are gone.
    pub fn request_reconnect(&mut self) -> (result: Result<(), ServiceError>)
        ensures
            match result {
                Ok(_) => reconnect_fault(old(self)@.engine.state) is None && final(self)@ == (
                ServiceModel { engine: started(stopped(old(self)@.engine)), ..old(self)@ }),
                Err(e) => reconnect_fault(old(self)@.engine.state) == Some(e@) && final(self)@
                    == old(self)@,
            },
    {
        if let Err(e) = self.check_reconnect() {
            return Err(e);
        }
        if let Err(e) = self.engine.stop() {
            return Err(ServiceError::Engine(e));
        }
        match self.engine.start() {
            Ok(_) => Ok(()),
            Err(e) => Err(ServiceError::Engine(e)),
        }
    }

    /// What a new subscriber is told first: how things stand.
    pub fn subscribe(&self) -> (events: Vec<ServiceEvent>)
        ensures
            event_models(events@) == seq![
                ServiceEventModel::StateChanged(self@.engine.state),
                ServiceEventModel::StatsChanged(self@.engine.stats),
            ],
    {
        let status = self.status();
        let mut events: Vec<ServiceEvent> = Vec::new();
        events.push(ServiceEvent::StateChanged(status.state));
        events.push(ServiceEvent::StatsChanged(status.stats));
        assert(event_models(events@) =~= seq![
            ServiceEventModel::StateChanged(self@.engine.state),
            ServiceEventModel::StatsChanged(self@.engine.stats),
        ]);
        events
    }

    fn push_transition(&mut self, events: &mut Vec<ServiceEvent>)
        ensures
            final(self)@ == (ServiceModel { faulted: old(self)@.faulted_after(), ..old(self)@ }),
            event_models(final(events)@) == event_models(old(events)@) + old(self)@.transition_events(),
    {
        let ghost model = self@;
        let ghost before = event_models(events@);
        let status = self.engine.status();
        let current = status.state;
        let previous = self.last_state;
        events.push(ServiceEvent::StateChanged(current));
        assert(event_models(events@) =~= before + seq![ServiceEventModel::StateChanged(current)]);
        let degraded = current == AudioEngineState::Degraded || current
            == AudioEngineState::Reconnecting;
        let was_running = match previous {
            Some(state) => state == AudioEngineState::Running,
            None => false,
        };
        let was_faulted = match previous {
            Some(state) => state == AudioEngineState::Degraded || state
                == AudioEngineState::Reconnecting || state == AudioEngineState::Failed,
            None => false,
        };
        if degraded && was_running {
            let last_error = match &status.last_error {
                Some(text) => Some(text.as_str()),
                None => None,
            };
            let endpoints = failed_graph_endpoints(self.graph.graph(), last_error);
            let ghost start = event_models(events@);
            push_lost(events, &endpoints);
            self.faulted = endpoints;
        }
        if current == AudioEngineState::Running && was_faulted {
            push_restored(events, &self.faulted);
            self.faulted = Vec::new();
        }
        assert(endpoint_texts(self.faulted@) =~= model.faulted_after());
        assert(event_models(events@) =~= before + model.transition_events());
    }

    /// What the application is told since the last time.
    pub fn poll(&mut self) -> (events: Vec<ServiceEvent>)
        ensures
            event_models(events@) == old(self)@.news(),
            final(self)@ == (ServiceModel {
                faulted: if old(self)@.last_state == Some(old(self)@.engine.state) {
                    old(self)@.faulted
                } else {
                    old(self)@.faulted_after()
                },
                last_state: Some(old(self)@.engine.state),
                last_stats: Some(old(self)@.engine.stats),
                ..old(self)@
            }),
    {
        let ghost model = self@;
        let mut events: Vec<ServiceEvent> = Vec::new();
        assert(event_models(events@) =~= Seq::<ServiceEventModel>::empty());
        let state = self.engine.state;
        let told = match self.last_state {
            Some(last) => last == state,
            None => false,
        };
        if !told {
            self.push_transition(&mut events);
            self.last_state = Some(state);
        }
        let ghost transition = event_models(events@);
        let stats = self.engine.stats;
        let counted = match self.last_stats {
            Some(last) => last == stats,
            None => false,
        };
        if !counted {
            self.last_stats = Some(stats);
            events.push(ServiceEvent::StatsChanged(stats));
        }
        assert(event_models(events@) =~= model.news());
        events
    }
}

fn push_lost(events: &mut Vec<ServiceEvent>, endpoints: &Vec<EndpointId>)
    ensures
        event_models(final(events)@) == event_models(old(events)@) + lost_events(
            endpoint_texts(endpoints@),
        ),
{
    let ghost before = event_models(events@);
    let ghost all = lost_events(endpoint_texts(endpoints@));
    assert(before + all.take(0) =~= before);
    for i in 0..endpoints.len()
        invariant
            all == lost_events(endpoint_texts(endpoints@)),
            event_models(events@) == before + all.take(i as int),
    {
        let ghost prior = event_models(events@);
        events.push(ServiceEvent::DeviceLost(endpoints[i].clone()));
        assert(event_models(events@) =~= prior.push(all[i as int]));
        assert(all.take(i + 1) =~= all.take(i as int).push(all[i as int]));
        assert(event_models(events@) =~= before + all.take(i + 1));
    }
    assert(all.take(all.len() as int) =~= all);
}

fn push_restored(events: &mut Vec<ServiceEvent>, endpoints: &Vec<EndpointId>)
    ensures
        event_models(final(events)@) == event_models(old(events)@) + restored_events(
            endpoint_texts(endpoints@),
        ),
{
    let ghost before = event_models(events@);
    let ghost all = restored_events(endpoint_texts(endpoints@));
    assert(before + all.take(0) =~= before);
    for i in 0..endpoints.len()
        invariant
            all == restored_events(endpoint_texts(endpoints@)),
            event_models(events@) == before + all.take(i as int),
    {
        let ghost prior = event_models(events@);
        events.push(ServiceEvent::DeviceRestored(endpoints[i].clone()));
        assert(event_models(events@) =~= prior.push(all[i as int]));
        assert(all.take(i + 1) =~= all.take(i as int).push(all[i as int]));
        assert(event_models(events@) =~= before + all.take(i + 1));
    }
    assert(all.take(all.len() as int) =~= all);
}

/// Where nothing has changed since the last time, nothing is told.
pub proof fn law_no_news_without_change(service: ServiceModel)
    requires
        service.last_state == Some(service.engine.state),
        service.last_stats == Some(service.engine.stats),
    ensures
        service.news() == Seq::<ServiceEventModel>::empty(),
{
    assert(service.news() =~= Seq::<ServiceEventModel>::empty());
}

/// What is reported lost is reported back: a recovery names the endpoints of the loss.
pub proof fn law_restored_are_the_lost(lost: ServiceModel, back: ServiceModel)
    requires
        loses_devices(lost.last_state, lost.engine.state),
        back.faulted == lost.faulted_after(),
        back.last_state == Some(lost.engine.state),
        back.engine.state == AudioEngineState::Running,
    ensures
        lost.transition_events() == seq![ServiceEventModel::StateChanged(lost.engine.state)]
            + lost_events(lost.faulted_after()),
        back.transition_events() == seq![ServiceEventModel::StateChanged(back.engine.state)]
            + restored_events(lost.faulted_after()),
        back.faulted_after() == Seq::<Seq<char>>::empty(),
{
    assert(lost.transition_events() =~= seq![ServiceEventModel::StateChanged(lost.engine.state)]
        + lost_events(lost.faulted_after()));
    assert(back.transition_events() =~= seq![ServiceEventModel::StateChanged(back.engine.state)]
        + restored_events(lost.faulted_after()));
}

} // verus!
