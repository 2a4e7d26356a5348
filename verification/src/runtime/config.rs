//! What an engine is started with, and what it refuses.

use crate::decibels::Decibels;
use crate::arithmetic::is_unary;
use crate::faults::{first_fault, lemma_first_fault_at, lemma_first_fault_none};
use crate::fifo::{
    fifo_fault, fifo_fault_text, AudioFifo, AudioFifoConsumer, AudioFifoProducer, FifoConfigError,
};
use crate::mixer::{mixer_fault_text, MixerError, MixerFault};
use crate::routing::{
    shown_gain, EndpointId, GraphModel, RouteGraph, SinkKind, SinkModel, SourceKind, SourceModel,
    SourceSpec, DEFAULT_BLOCK_FRAMES, INTERNAL_CHANNELS,
};
use crate::snapshot::RouteGraphSnapshot;
use crate::text::joined;
use crate::windows::endpoint::{fault_text, EndpointFlow, WindowsAudioError, WindowsFault};
use vstd::prelude::*;

verus! {

/// The blocks that are collected before a stream is fed.
pub const STARTUP_PREFILL_BLOCKS: usize = 2;

/// The blocks that have to be missing before it counts.
pub const UNDERFLOW_GRACE_BLOCKS: u64 = 2;

/// The blocks that a queue holds unless configured otherwise.
pub const DEFAULT_FIFO_CAPACITY_BLOCKS: usize = 32;

/// How often a lost device is looked for.
pub const DEFAULT_RECONNECT_ATTEMPTS: usize = 60;

/// The milliseconds between two looks for a lost device.
pub const RECONNECT_DELAY_MILLIS: u64 = 500;

/// What an engine is started with.
#[derive(Debug)]
pub struct AudioEngineConfig {
    pub graph: RouteGraphSnapshot,
    pub block_frames: usize,
    pub fifo_capacity_frames: usize,
}

impl AudioEngineConfig {
    /// The usual blocks and queues for a graph.
    pub fn new(graph: RouteGraphSnapshot) -> (config: Self)
        ensures
            config.graph@ == graph@,
            config.block_frames == DEFAULT_BLOCK_FRAMES,
            config.fifo_capacity_frames == DEFAULT_BLOCK_FRAMES * DEFAULT_FIFO_CAPACITY_BLOCKS,
    {
        AudioEngineConfig {
            graph,
            block_frames: DEFAULT_BLOCK_FRAMES,
            fifo_capacity_frames: DEFAULT_BLOCK_FRAMES * DEFAULT_FIFO_CAPACITY_BLOCKS,
        }
    }
}

impl Clone for AudioEngineConfig {
    fn clone(&self) -> (copy: Self)
        ensures
            copy.graph@ == self.graph@,
            copy.block_frames == self.block_frames,
            copy.fifo_capacity_frames == self.fifo_capacity_frames,
    {
        AudioEngineConfig {
            graph: self.graph.clone(),
            block_frames: self.block_frames,
            fifo_capacity_frames: self.fifo_capacity_frames,
        }
    }
}

/// Why the engine does not do what it is told.
#[derive(Debug, PartialEq, Eq)]
pub enum AudioEngineError {
    AlreadyRunning,
    NotRunning,
    ZeroBlockFrames,
    FifoTooSmall,
    UnsupportedTopology,
    UnsupportedSourceKind,
    MissingSourceEndpoint,
    MissingProcessId,
    EndpointChangeRequiresRestart,
    Windows(WindowsAudioError),
    Mixer(MixerError),
    Fifo(FifoConfigError),
}

/// What an `AudioEngineError` says.
#[verifier::ext_equal]
pub enum EngineFault {
    AlreadyRunning,
    NotRunning,
    ZeroBlockFrames,
    FifoTooSmall,
    UnsupportedTopology,
    UnsupportedSourceKind,
    MissingSourceEndpoint,
    MissingProcessId,
    EndpointChangeRequiresRestart,
    Windows(WindowsFault),
    Mixer(MixerFault),
    Fifo(FifoConfigError),
}

impl View for AudioEngineError {
    type V = EngineFault;

    open spec fn view(&self) -> EngineFault {
        match *self {
            AudioEngineError::AlreadyRunning => EngineFault::AlreadyRunning,
            AudioEngineError::NotRunning => EngineFault::NotRunning,
            AudioEngineError::ZeroBlockFrames => EngineFault::ZeroBlockFrames,
            AudioEngineError::FifoTooSmall => EngineFault::FifoTooSmall,
            AudioEngineError::UnsupportedTopology => EngineFault::UnsupportedTopology,
            AudioEngineError::UnsupportedSourceKind => EngineFault::UnsupportedSourceKind,
            AudioEngineError::MissingSourceEndpoint => EngineFault::MissingSourceEndpoint,
            AudioEngineError::MissingProcessId => EngineFault::MissingProcessId,
            AudioEngineError::EndpointChangeRequiresRestart =>
                EngineFault::EndpointChangeRequiresRestart,
            AudioEngineError::Windows(e) => EngineFault::Windows(e@),
            AudioEngineError::Mixer(e) => EngineFault::Mixer(e@),
            AudioEngineError::Fifo(e) => EngineFault::Fifo(e),
        }
    }
}

/// The message of a fault. `shown` writes a gain as a number.
pub open spec fn engine_fault_text(fault: EngineFault, shown: spec_fn(Decibels) -> Seq<char>) -> Seq<
    char,
> {
    match fault {
        EngineFault::AlreadyRunning => "引擎已经启动；如需重新启动，必须先停止"@,
        EngineFault::NotRunning => "引擎没有运行"@,
        EngineFault::ZeroBlockFrames => "block frame 数必须大于 0"@,
        EngineFault::FifoTooSmall => "FIFO 容量必须不小于 block frame 数"@,
        EngineFault::UnsupportedTopology => "路由图至少需要一个 source 和一个 sink"@,
        EngineFault::UnsupportedSourceKind => "source 必须是设备捕获 source"@,
        EngineFault::MissingSourceEndpoint => "source 未配置 endpoint ID"@,
        EngineFault::MissingProcessId => "Process Loopback source 未配置有效 process ID"@,
        EngineFault::EndpointChangeRequiresRestart =>
            "运行中的引擎不支持更换 endpoint；必须停止后重新启动"@,
        EngineFault::Windows(fault) => "WASAPI worker 错误: "@ + fault_text(fault),
        EngineFault::Mixer(fault) => "混音计划错误: "@ + mixer_fault_text(fault, shown),
        EngineFault::Fifo(fault) => "FIFO 配置错误: "@ + fifo_fault_text(fault),
    }
}

impl AudioEngineError {
    /// The message of the error. `show_gain` writes a gain as a number.
    pub fn message<F: Fn(Decibels) -> String>(&self, show_gain: &F) -> (text: String)
        requires
            is_unary::<Decibels, String, F>(*show_gain),
        ensures
            text@ == engine_fault_text(self@, shown_gain(*show_gain)),
    {
        match self {
            AudioEngineError::AlreadyRunning => "引擎已经启动；如需重新启动，必须先停止".to_owned(),
            AudioEngineError::NotRunning => "引擎没有运行".to_owned(),
            AudioEngineError::ZeroBlockFrames => "block frame 数必须大于 0".to_owned(),
            AudioEngineError::FifoTooSmall => "FIFO 容量必须不小于 block frame 数".to_owned(),
            AudioEngineError::UnsupportedTopology => "路由图至少需要一个 source 和一个 sink".to_owned(),
            AudioEngineError::UnsupportedSourceKind => "source 必须是设备捕获 source".to_owned(),
            AudioEngineError::MissingSourceEndpoint => "source 未配置 endpoint ID".to_owned(),
            AudioEngineError::MissingProcessId =>
                "Process Loopback source 未配置有效 process ID".to_owned(),
            AudioEngineError::EndpointChangeRequiresRestart =>
                "运行中的引擎不支持更换 endpoint；必须停止后重新启动".to_owned(),
            AudioEngineError::Windows(e) => joined("WASAPI worker 错误: ", e.message().as_str()),
            AudioEngineError::Mixer(e) => joined(
                "混音计划错误: ",
                e.message(show_gain).as_str(),
            ),
            AudioEngineError::Fifo(e) => joined("FIFO 配置错误: ", e.message().as_str()),
        }
    }
}

/// What a source lacks, if it lacks something: a device its endpoint, a process its
/// number, which is not 0.
pub open spec fn source_lack(source: SourceModel) -> Option<EngineFault> {
    match source.kind {
        SourceKind::DeviceCapture | SourceKind::DeviceLoopback => if source.endpoint_id is None {
            Some(EngineFault::MissingSourceEndpoint)
        } else {
            None
        },
        SourceKind::ProcessLoopback => match source.process_id {
            Some(pid) => if pid == 0 {
                Some(EngineFault::MissingProcessId)
            } else {
                None
            },
            None => Some(EngineFault::MissingProcessId),
        },
        SourceKind::Vban => None,
    }
}

/// Why an engine cannot be started so, if it cannot. Sizes come first, then the number of
/// nodes, then the sources in their order.
pub open spec fn config_fault(graph: GraphModel, block_frames: nat, fifo_capacity_frames: nat) -> Option<
    EngineFault,
> {
    if block_frames == 0 {
        Some(EngineFault::ZeroBlockFrames)
    } else if fifo_capacity_frames < block_frames {
        Some(EngineFault::FifoTooSmall)
    } else if graph.sources.len() == 0 || graph.sinks.len() == 0 {
        Some(EngineFault::UnsupportedTopology)
    } else {
        first_fault(graph.sources.len(), |i: int| source_lack(graph.sources[i]))
    }
}

fn check_source(source: &SourceSpec) -> (result: Result<(), AudioEngineError>)
    ensures
        match result {
            Ok(_) => source_lack(source@) is None,
            Err(e) => source_lack(source@) == Some(e@),
        },
{
    match source.kind {
        SourceKind::DeviceCapture | SourceKind::DeviceLoopback => {
            if source.endpoint_id.is_none() {
                return Err(AudioEngineError::MissingSourceEndpoint);
            }
        },
        SourceKind::ProcessLoopback => match source.process_id {
            Some(pid) => {
                if pid == 0 {
                    return Err(AudioEngineError::MissingProcessId);
                }
            },
            None => {
                return Err(AudioEngineError::MissingProcessId);
            },
        },
        SourceKind::Vban => {},
    }
    Ok(())
}

/// Checks what an engine is to be started with.
pub fn validate_config(config: &AudioEngineConfig) -> (result: Result<(), AudioEngineError>)
    ensures
        match result {
            Ok(_) => config_fault(
                config.graph@,
                config.block_frames as nat,
                config.fifo_capacity_frames as nat,
            ) is None,
            Err(e) => config_fault(
                config.graph@,
                config.block_frames as nat,
                config.fifo_capacity_frames as nat,
            ) == Some(e@),
        },
{
    if config.block_frames == 0 {
        return Err(AudioEngineError::ZeroBlockFrames);
    }
    if config.fifo_capacity_frames < config.block_frames {
        return Err(AudioEngineError::FifoTooSmall);
    }
    let routes = config.graph.graph();
    if routes.sources.len() == 0 || routes.sinks.len() == 0 {
        return Err(AudioEngineError::UnsupportedTopology);
    }
    let ghost check = |i: int| source_lack(routes@.sources[i]);
    for i in 0..routes.sources.len()
        invariant
            check == |i: int| source_lack(routes@.sources[i]),
            first_fault(i as nat, check) is None,
            routes@ == config.graph@,
            config.block_frames > 0,
            config.fifo_capacity_frames >= config.block_frames,
            routes@.sinks.len() > 0,
    {
        assert(routes@.sources[i as int] == routes.sources@[i as int]@);
        if let Err(e) = check_source(&routes.sources[i]) {
            proof {
                lemma_first_fault_at(routes@.sources.len(), check, i as nat);
            }
            return Err(e);
        }
    }
    Ok(())
}

/// What of a source the running streams depend on.
#[verifier::ext_equal]
pub struct SourceStream {
    pub id: Seq<char>,
    pub kind: SourceKind,
    pub endpoint_id: Option<Seq<char>>,
    pub process_id: Option<u32>,
}

/// What of the sources the running streams depend on.
pub open spec fn source_streams(graph: GraphModel) -> Seq<SourceStream> {
    graph.sources.map_values(
        |source: SourceModel|
            SourceStream {
                id: source.id,
                kind: source.kind,
                endpoint_id: source.endpoint_id,
                process_id: source.process_id,
            },
    )
}

/// What of the sinks the running streams depend on.
pub open spec fn sink_streams(graph: GraphModel) -> Seq<(Seq<char>, Seq<char>)> {
    graph.sinks.map_values(|sink: SinkModel| (sink.id, sink.endpoint_id))
}

fn same_source(first: &SourceSpec, second: &SourceSpec) -> (same: bool)
    ensures
        same == (first@.id == second@.id && first@.kind == second@.kind && first@.endpoint_id
            == second@.endpoint_id && first@.process_id == second@.process_id),
{
    let same_endpoint = match (&first.endpoint_id, &second.endpoint_id) {
        (Some(a), Some(b)) => a.0 == b.0,
        (None, None) => true,
        _ => false,
    };
    let same_process = match (first.process_id, second.process_id) {
        (Some(a), Some(b)) => a == b,
        (None, None) => true,
        _ => false,
    };
    first.id.0 == second.id.0 && first.kind == second.kind && same_endpoint && same_process
}

/// Whether going from one graph to another needs other streams. Gains, mutes and channel
/// maps do not.
pub fn topology_changed(previous: &RouteGraph, next: &RouteGraph) -> (changed: bool)
    ensures
        changed == (source_streams(previous@) != source_streams(next@) || sink_streams(previous@)
            != sink_streams(next@)),
{
    assert(source_streams(previous@).len() == previous.sources@.len());
    assert(source_streams(next@).len() == next.sources@.len());
    assert(sink_streams(previous@).len() == previous.sinks@.len());
    assert(sink_streams(next@).len() == next.sinks@.len());
    if previous.sources.len() != next.sources.len() || previous.sinks.len() != next.sinks.len() {
        return true;
    }
    for i in 0..previous.sources.len()
        invariant
            previous.sources@.len() == next.sources@.len(),
            forall|j: int|
                0 <= j < i ==> #[trigger] source_streams(previous@)[j] == source_streams(next@)[j],
    {
        assert(previous@.sources[i as int] == previous.sources@[i as int]@);
        assert(next@.sources[i as int] == next.sources@[i as int]@);
        if !same_source(&previous.sources[i], &next.sources[i]) {
            assert(source_streams(previous@)[i as int] != source_streams(next@)[i as int]);
            return true;
        }
    }
    assert(source_streams(previous@) =~= source_streams(next@));
    for i in 0..previous.sinks.len()
        invariant
            previous.sinks@.len() == next.sinks@.len(),
            forall|j: int|
                0 <= j < i ==> #[trigger] sink_streams(previous@)[j] == sink_streams(next@)[j],
    {
        assert(previous@.sinks[i as int] == previous.sinks@[i as int]@);
        assert(next@.sinks[i as int] == next.sinks@[i as int]@);
        if previous.sinks[i].id.0 != next.sinks[i].id.0 || previous.sinks[i].endpoint_id.0
            != next.sinks[i].endpoint_id.0 {
            assert(sink_streams(previous@)[i as int] != sink_streams(next@)[i as int]);
            return true;
        }
    }
    assert(sink_streams(previous@) =~= sink_streams(next@));
    false
}

/// The endpoints of the sinks.
pub fn graph_sink_endpoints(graph: &RouteGraphSnapshot) -> (endpoints: Vec<EndpointId>)
    ensures
        endpoints@.map_values(|e: EndpointId| e@) == graph@.sinks.map_values(
            |s: SinkModel| s.endpoint_id,
        ),
{
    let graph = graph.graph();
    let mut endpoints: Vec<EndpointId> = Vec::new();
    for i in 0..graph.sinks.len()
        invariant
            endpoints@.len() == i,
            forall|j: int|
                0 <= j < i ==> (#[trigger] endpoints@[j])@ == graph@.sinks[j].endpoint_id,
    {
        assert(graph@.sinks[i as int] == graph.sinks@[i as int]@);
        endpoints.push(graph.sinks[i].endpoint_id.clone());
    }
    assert(endpoints@.map_values(|e: EndpointId| e@) =~= graph@.sinks.map_values(
        |s: SinkModel| s.endpoint_id,
    ));
    endpoints
}

/// Whether a source records from a device.
pub open spec fn records_device(source: SourceModel) -> bool {
    source.kind == SourceKind::DeviceCapture || source.kind == SourceKind::DeviceLoopback
}

/// Whether endpoints have to be looked for before a lost session is started again.
pub fn endpoints_need_check(graph: &RouteGraphSnapshot) -> (needed: bool)
    ensures
        needed == exists|i: int|
            0 <= i < graph@.sources.len() && records_device(#[trigger] graph@.sources[i]),
{
    let routes = graph.graph();
    for i in 0..routes.sources.len()
        invariant
            routes@ == graph@,
            forall|j: int| 0 <= j < i ==> !records_device(#[trigger] graph@.sources[j]),
    {
        assert(graph@.sources[i as int] == routes.sources@[i as int]@);
        match routes.sources[i].kind {
            SourceKind::DeviceCapture | SourceKind::DeviceLoopback => {
                assert(records_device(graph@.sources[i as int]));
                return true;
            },
            _ => {},
        }
    }
    false
}

/// An endpoint that has to be active.
#[derive(Debug, PartialEq, Eq)]
pub struct EndpointCheck {
    /// Absent where the graph does not name it: then nothing is active.
    pub endpoint_id: Option<EndpointId>,
    pub flow: EndpointFlow,
}

/// What an `EndpointCheck` says.
#[verifier::ext_equal]
pub struct CheckModel {
    pub endpoint_id: Option<Seq<char>>,
    pub flow: EndpointFlow,
}

impl View for EndpointCheck {
    type V = CheckModel;

    open spec fn view(&self) -> CheckModel {
        CheckModel {
            endpoint_id: crate::routing::optional_endpoint(self.endpoint_id),
            flow: self.flow,
        }
    }
}

/// What has to be active for a source.
pub open spec fn source_checks(source: SourceModel) -> Seq<CheckModel> {
    match source.kind {
        SourceKind::DeviceCapture => seq![
            CheckModel { endpoint_id: source.endpoint_id, flow: EndpointFlow::Capture },
        ],
        SourceKind::DeviceLoopback => seq![
            CheckModel { endpoint_id: source.endpoint_id, flow: EndpointFlow::Render },
        ],
        _ => Seq::empty(),
    }
}

/// What has to be active for a sink.
pub open spec fn sink_checks(sink: SinkModel) -> Seq<CheckModel> {
    match sink.kind {
        SinkKind::Device => seq![
            CheckModel { endpoint_id: Some(sink.endpoint_id), flow: EndpointFlow::Render },
        ],
        SinkKind::Vban => Seq::empty(),
    }
}

/// What has to be active for the first sources.
pub open spec fn sources_checks(graph: GraphModel, n: nat) -> Seq<CheckModel>
    decreases n,
{
    if n == 0 {
        Seq::empty()
    } else {
        sources_checks(graph, (n - 1) as nat) + source_checks(graph.sources[n - 1])
    }
}

/// What has to be active for the first sinks.
pub open spec fn sinks_checks(graph: GraphModel, n: nat) -> Seq<CheckModel>
    decreases n,
{
    if n == 0 {
        Seq::empty()
    } else {
        sinks_checks(graph, (n - 1) as nat) + sink_checks(graph.sinks[n - 1])
    }
}

/// The checks of a list.
pub open spec fn check_models(checks: Seq<EndpointCheck>) -> Seq<CheckModel> {
    checks.map_values(|c: EndpointCheck| c@)
}

/// The endpoints that have to be active for a graph, in the order in which they are
/// looked for: those of the sources, then those of the sinks.
pub fn endpoint_checks(graph: &RouteGraphSnapshot) -> (checks: Vec<EndpointCheck>)
    ensures
        check_models(checks@) == sources_checks(graph@, graph@.sources.len()) + sinks_checks(
            graph@,
            graph@.sinks.len(),
        ),
{
    let graph = graph.graph();
    let mut checks: Vec<EndpointCheck> = Vec::new();
    assert(check_models(checks@) =~= sources_checks(graph@, 0));
    for i in 0..graph.sources.len()
        invariant
            check_models(checks@) == sources_checks(graph@, i as nat),
    {
        let source = &graph.sources[i];
        assert(graph@.sources[i as int] == source@);
        let flow = match source.kind {
            SourceKind::DeviceCapture => Some(EndpointFlow::Capture),
            SourceKind::DeviceLoopback => Some(EndpointFlow::Render),
            _ => None,
        };
        let ghost before = check_models(checks@);
        if let Some(flow) = flow {
            let endpoint_id = match &source.endpoint_id {
                Some(id) => Some(id.clone()),
                None => None,
            };
            checks.push(EndpointCheck { endpoint_id, flow });
        }
        assert(check_models(checks@) =~= before + source_checks(source@));
    }
    let ghost first = check_models(checks@);
    assert(first + sinks_checks(graph@, 0) =~= first);
    for i in 0..graph.sinks.len()
        invariant
            check_models(checks@) == first + sinks_checks(graph@, i as nat),
    {
        let sink = &graph.sinks[i];
        assert(graph@.sinks[i as int] == sink@);
        let ghost before = check_models(checks@);
        if sink.kind == SinkKind::Device {
            checks.push(
                EndpointCheck {
                    endpoint_id: Some(sink.endpoint_id.clone()),
                    flow: EndpointFlow::Render,
                },
            );
        }
        assert(check_models(checks@) =~= before + sink_checks(sink@));
        assert(before + sink_checks(sink@) =~= first + sinks_checks(graph@, (i + 1) as nat));
    }
    checks
}

/// What the replies to the checks come to: the first that does not say "active" decides.
pub open spec fn activity_verdict(replies: Seq<Result<bool, WindowsAudioError>>) -> Result<
    bool,
    WindowsFault,
>
    decreases replies.len(),
{
    if replies.len() == 0 {
        Ok(true)
    } else {
        match replies[0] {
            Ok(true) => activity_verdict(replies.skip(1)),
            Ok(false) => Ok(false),
            Err(e) => Err(e@),
        }
    }
}

/// Judges the replies to the checks, in their order.
pub fn all_endpoints_active(replies: Vec<Result<bool, WindowsAudioError>>) -> (result: Result<
    bool,
    WindowsAudioError,
>)
    ensures
        match result {
            Ok(active) => activity_verdict(replies@) == Ok::<bool, WindowsFault>(active),
            Err(e) => activity_verdict(replies@) == Err::<bool, WindowsFault>(e@),
        },
{
    let ghost all = replies@;
    let mut rest = replies;
    let mut at: usize = 0;
    assert(all.skip(0) =~= all);
    while at < rest.len()
        invariant
            at <= rest@.len(),
            rest@ == all,
            all == replies@,
            activity_verdict(all.skip(at as int)) == activity_verdict(all),
        decreases rest@.len() - at,
    {
        let failed = match &rest[at] {
            Ok(active) => {
                if !*active {
                    return Ok(false);
                }
                false
            },
            Err(_) => true,
        };
        if failed {
            let reply = rest.swap_remove(at);
            assert(reply == all[at as int]);
            return reply;
        }
        assert(all.skip(at as int).skip(1) =~= all.skip(at + 1));
        at = at + 1;
    }
    Ok(true)
}

/// Makes queues, and gives their ends in two lists of the same order.
pub fn split_fifo_vec(count: usize, capacity_frames: usize) -> (result: Result<
    (Vec<AudioFifoProducer>, Vec<AudioFifoConsumer>),
    FifoConfigError,
>)
    requires
        fifo_fault(capacity_frames as nat, INTERNAL_CHANNELS as nat) is None ==> capacity_frames
            * INTERNAL_CHANNELS * 4 <= isize::MAX,
    ensures
        match result {
            Ok((producers, consumers)) => {
                &&& count > 0 ==> fifo_fault(
                    capacity_frames as nat,
                    INTERNAL_CHANNELS as nat,
                ) is None
                &&& producers@.len() == count && consumers@.len() == count
                &&& forall|i: int|
                    0 <= i < count ==> fresh_queue(
                        #[trigger] producers@[i],
                        consumers@[i],
                        capacity_frames,
                    )
            },
            Err(e) => count > 0 && fifo_fault(
                capacity_frames as nat,
                INTERNAL_CHANNELS as nat,
            ) == Some(e),
        },
{
    let mut producers: Vec<AudioFifoProducer> = Vec::new();
    let mut consumers: Vec<AudioFifoConsumer> = Vec::new();
    for i in 0..count
        invariant
            fifo_fault(capacity_frames as nat, INTERNAL_CHANNELS as nat) is None
                ==> capacity_frames * INTERNAL_CHANNELS * 4 <= isize::MAX,
            i > 0 ==> fifo_fault(capacity_frames as nat, INTERNAL_CHANNELS as nat) is None,
            producers@.len() == i,
            consumers@.len() == i,
            forall|j: int|
                0 <= j < i ==> fresh_queue(
                    #[trigger] producers@[j],
                    consumers@[j],
                    capacity_frames,
                ),
    {
        match AudioFifo::split(capacity_frames, INTERNAL_CHANNELS) {
            Ok((producer, consumer)) => {
                producers.push(producer);
                consumers.push(consumer);
            },
            Err(e) => {
                return Err(e);
            },
        }
    }
    Ok((producers, consumers))
}

/// Whether two ends are those of one empty stereo queue of the size.
pub open spec fn fresh_queue(
    producer: AudioFifoProducer,
    consumer: AudioFifoConsumer,
    capacity_frames: usize,
) -> bool {
    &&& producer.wf() && consumer.wf()
    &&& producer.channel_count() == INTERNAL_CHANNELS && consumer.channel_count()
        == INTERNAL_CHANNELS
    &&& producer.capacity() == capacity_frames && consumer.capacity() == capacity_frames
    &&& producer.written() == Seq::<u32>::empty() && consumer.read() == Seq::<u32>::empty()
    &&& producer.traffic() == consumer.traffic()
    &&& producer.room() == capacity_frames
}

/// Whatever differs between two graphs in sends alone does not change the streams.
pub proof fn law_sends_do_not_change_topology(previous: GraphModel, next: GraphModel)
    requires
        previous.sources == next.sources,
        previous.sinks == next.sinks,
    ensures
        source_streams(previous) == source_streams(next),
        sink_streams(previous) == sink_streams(next),
{
}

/// A graph that an engine accepts has an endpoint for every device source and a number
/// for every process source.
pub proof fn law_accepted_sources_are_complete(
    graph: GraphModel,
    block_frames: nat,
    fifo_capacity_frames: nat,
    i: int,
)
    requires
        config_fault(graph, block_frames, fifo_capacity_frames) is None,
        0 <= i < graph.sources.len(),
    ensures
        records_device(graph.sources[i]) ==> graph.sources[i].endpoint_id is Some,
        graph.sources[i].kind == SourceKind::ProcessLoopback ==> (
        graph.sources[i].process_id matches Some(pid) && pid != 0),
{
    let check = |i: int| source_lack(graph.sources[i]);
    lemma_first_fault_none(graph.sources.len(), check);
    assert(check(i) is None);
}

} // verus!
