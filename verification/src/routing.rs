//! The routing model: sources, buses, sinks and the sends between them.

pub mod laws;

use crate::decibels::{gain_allowed, Decibels};
use crate::faults::{first_fault, lemma_first_fault_at, lemma_first_fault_none, or_fault};
use crate::arithmetic::{call_unary, is_unary, unary};
use crate::text::joined;
use vstd::prelude::*;
use vstd::string::StringExecFns;

verus! {

/// Frames per second inside the engine.
pub const INTERNAL_SAMPLE_RATE: u32 = 48_000;

/// Channels of an interleaved frame inside the engine.
pub const INTERNAL_CHANNELS: usize = 2;

/// Frames of an audio block unless configured otherwise.
pub const DEFAULT_BLOCK_FRAMES: usize = 480;

/// A sample rate and a channel count.
#[derive(Clone, Copy, Debug, PartialEq, Eq, Structural)]
pub struct AudioFormat {
    pub sample_rate: u32,
    pub channels: u16,
}

impl AudioFormat {
    /// The format that every block inside the engine has.
    pub fn internal() -> (format: AudioFormat)
        ensures
            format.sample_rate == INTERNAL_SAMPLE_RATE,
            format.channels == INTERNAL_CHANNELS,
    {
        AudioFormat { sample_rate: INTERNAL_SAMPLE_RATE, channels: INTERNAL_CHANNELS as u16 }
    }
}

/// The stable identifier of a device endpoint.
#[derive(Debug, PartialEq, Eq, Hash)]
pub struct EndpointId(pub String);

/// The stable identifier of a source.
#[derive(Debug, PartialEq, Eq, Hash)]
pub struct SourceId(pub String);

/// The stable identifier of a bus.
#[derive(Debug, PartialEq, Eq, Hash)]
pub struct BusId(pub String);

/// The stable identifier of a sink.
#[derive(Debug, PartialEq, Eq, Hash)]
pub struct SinkId(pub String);

/// The stable identifier of a send. Several sends may join the same two nodes,
/// so a send is found by its own identifier and never by its ends.
#[derive(Debug, PartialEq, Eq, Hash)]
pub struct SendId(pub String);

impl View for EndpointId {
    type V = Seq<char>;

    open spec fn view(&self) -> Seq<char> {
        self.0@
    }
}

impl View for SourceId {
    type V = Seq<char>;

    open spec fn view(&self) -> Seq<char> {
        self.0@
    }
}

impl View for BusId {
    type V = Seq<char>;

    open spec fn view(&self) -> Seq<char> {
        self.0@
    }
}

impl View for SinkId {
    type V = Seq<char>;

    open spec fn view(&self) -> Seq<char> {
        self.0@
    }
}

impl View for SendId {
    type V = Seq<char>;

    open spec fn view(&self) -> Seq<char> {
        self.0@
    }
}

impl Clone for EndpointId {
    fn clone(&self) -> (copy: Self)
        ensures
            copy == *self,
    {
        EndpointId(self.0.clone())
    }
}

impl Clone for SourceId {
    fn clone(&self) -> (copy: Self)
        ensures
            copy == *self,
    {
        SourceId(self.0.clone())
    }
}

impl Clone for BusId {
    fn clone(&self) -> (copy: Self)
        ensures
            copy == *self,
    {
        BusId(self.0.clone())
    }
}

impl Clone for SinkId {
    fn clone(&self) -> (copy: Self)
        ensures
            copy == *self,
    {
        SinkId(self.0.clone())
    }
}

impl Clone for SendId {
    fn clone(&self) -> (copy: Self)
        ensures
            copy == *self,
    {
        SendId(self.0.clone())
    }
}

/// Where the audio of a source comes from.
#[derive(Clone, Copy, Debug, PartialEq, Eq, Structural)]
pub enum SourceKind {
    /// A capture endpoint.
    DeviceCapture,
    /// Everything that a render endpoint plays.
    DeviceLoopback,
    /// Everything that one process tree plays.
    ProcessLoopback,
    /// A VBAN stream of the network.
    Vban,
}

/// Where the audio of a sink goes.
#[derive(Clone, Copy, Debug, PartialEq, Eq, Structural)]
pub enum SinkKind {
    /// A render endpoint.
    Device,
    /// A VBAN stream of the network.
    Vban,
}

/// An input of the routing graph.
#[derive(Debug, PartialEq, Eq)]
pub struct SourceSpec {
    pub id: SourceId,
    pub kind: SourceKind,
    pub endpoint_id: Option<EndpointId>,
    pub process_id: Option<u32>,
    pub executable_path: Option<String>,
    pub stream_name: Option<String>,
    pub display_name: String,
}

/// An output of the routing graph.
#[derive(Debug, PartialEq, Eq)]
pub struct SinkSpec {
    pub id: SinkId,
    pub endpoint_id: EndpointId,
    pub display_name: String,
    pub kind: SinkKind,
    pub stream_name: Option<String>,
    pub remote_addr: Option<String>,
}

/// A mixing node inside the program. A bus is never a device endpoint.
#[derive(Debug, PartialEq, Eq)]
pub struct BusSpec {
    pub id: BusId,
    pub display_name: String,
}

/// A connection of the routing graph.
#[derive(Debug, PartialEq, Eq)]
pub enum SendSpec {
    /// From a source into a bus.
    SourceToBus {
        id: SendId,
        source_id: SourceId,
        bus_id: BusId,
        gain_db: Decibels,
        muted: bool,
        enabled: bool,
        channel_map: Vec<(u16, u16)>,
    },
    /// From a bus to a sink.
    BusToSink {
        id: SendId,
        bus_id: BusId,
        sink_id: SinkId,
        gain_db: Decibels,
        muted: bool,
        enabled: bool,
        channel_map: Vec<(u16, u16)>,
    },
}

/// The sources, buses, sinks and sends of a configuration.
#[derive(Debug, PartialEq, Eq)]
pub struct RouteGraph {
    pub sources: Vec<SourceSpec>,
    pub buses: Vec<BusSpec>,
    pub sinks: Vec<SinkSpec>,
    pub sends: Vec<SendSpec>,
}

/// The text of an optional string.
pub open spec fn optional_text(text: Option<String>) -> Option<Seq<char>> {
    match text {
        Some(s) => Some(s@),
        None => None,
    }
}

/// The text of an optional endpoint identifier.
pub open spec fn optional_endpoint(endpoint: Option<EndpointId>) -> Option<Seq<char>> {
    match endpoint {
        Some(id) => Some(id@),
        None => None,
    }
}

/// What a source says.
#[verifier::ext_equal]
pub struct SourceModel {
    pub id: Seq<char>,
    pub kind: SourceKind,
    pub endpoint_id: Option<Seq<char>>,
    pub process_id: Option<u32>,
    pub executable_path: Option<Seq<char>>,
    pub stream_name: Option<Seq<char>>,
    pub display_name: Seq<char>,
}

/// What a sink says.
#[verifier::ext_equal]
pub struct SinkModel {
    pub id: Seq<char>,
    pub endpoint_id: Seq<char>,
    pub display_name: Seq<char>,
    pub kind: SinkKind,
    pub stream_name: Option<Seq<char>>,
    pub remote_addr: Option<Seq<char>>,
}

/// What a bus says.
#[verifier::ext_equal]
pub struct BusModel {
    pub id: Seq<char>,
    pub display_name: Seq<char>,
}

/// The two nodes that a send joins.
#[verifier::ext_equal]
pub enum SendEnds {
    SourceToBus { source_id: Seq<char>, bus_id: Seq<char> },
    BusToSink { bus_id: Seq<char>, sink_id: Seq<char> },
}

/// What a send says.
#[verifier::ext_equal]
pub struct SendModel {
    pub id: Seq<char>,
    pub ends: SendEnds,
    pub gain_db: Decibels,
    pub muted: bool,
    pub enabled: bool,
    pub channel_map: Seq<(u16, u16)>,
}

/// What a routing graph says.
#[verifier::ext_equal]
pub struct GraphModel {
    pub sources: Seq<SourceModel>,
    pub buses: Seq<BusModel>,
    pub sinks: Seq<SinkModel>,
    pub sends: Seq<SendModel>,
}

impl View for SourceSpec {
    type V = SourceModel;

    open spec fn view(&self) -> SourceModel {
        SourceModel {
            id: self.id@,
            kind: self.kind,
            endpoint_id: optional_endpoint(self.endpoint_id),
            process_id: self.process_id,
            executable_path: optional_text(self.executable_path),
            stream_name: optional_text(self.stream_name),
            display_name: self.display_name@,
        }
    }
}

impl View for SinkSpec {
    type V = SinkModel;

    open spec fn view(&self) -> SinkModel {
        SinkModel {
            id: self.id@,
            endpoint_id: self.endpoint_id@,
            display_name: self.display_name@,
            kind: self.kind,
            stream_name: optional_text(self.stream_name),
            remote_addr: optional_text(self.remote_addr),
        }
    }
}

impl View for BusSpec {
    type V = BusModel;

    open spec fn view(&self) -> BusModel {
        BusModel { id: self.id@, display_name: self.display_name@ }
    }
}

impl View for SendSpec {
    type V = SendModel;

    open spec fn view(&self) -> SendModel {
        match *self {
            SendSpec::SourceToBus { id, source_id, bus_id, gain_db, muted, enabled, channel_map } =>
                SendModel {
                    id: id@,
                    ends: SendEnds::SourceToBus { source_id: source_id@, bus_id: bus_id@ },
                    gain_db,
                    muted,
                    enabled,
                    channel_map: channel_map@,
                },
            SendSpec::BusToSink { id, bus_id, sink_id, gain_db, muted, enabled, channel_map } =>
                SendModel {
                    id: id@,
                    ends: SendEnds::BusToSink { bus_id: bus_id@, sink_id: sink_id@ },
                    gain_db,
                    muted,
                    enabled,
                    channel_map: channel_map@,
                },
        }
    }
}

/// What the sources of a list say.
pub open spec fn source_models(sources: Seq<SourceSpec>) -> Seq<SourceModel> {
    sources.map_values(|s: SourceSpec| s@)
}

/// What the buses of a list say.
pub open spec fn bus_models(buses: Seq<BusSpec>) -> Seq<BusModel> {
    buses.map_values(|b: BusSpec| b@)
}

/// What the sinks of a list say.
pub open spec fn sink_models(sinks: Seq<SinkSpec>) -> Seq<SinkModel> {
    sinks.map_values(|s: SinkSpec| s@)
}

/// What the sends of a list say.
pub open spec fn send_models(sends: Seq<SendSpec>) -> Seq<SendModel> {
    sends.map_values(|s: SendSpec| s@)
}

impl View for RouteGraph {
    type V = GraphModel;

    open spec fn view(&self) -> GraphModel {
        GraphModel {
            sources: source_models(self.sources@),
            buses: bus_models(self.buses@),
            sinks: sink_models(self.sinks@),
            sends: send_models(self.sends@),
        }
    }
}

/// Copies a channel map.
pub fn copy_channel_map(map: &[(u16, u16)]) -> (copy: Vec<(u16, u16)>)
    ensures
        copy@ == map@,
{
    let mut copy: Vec<(u16, u16)> = Vec::new();
    let mut i: usize = 0;
    while i < map.len()
        invariant
            i <= map.len(),
            copy@ == map@.take(i as int),
        decreases map.len() - i,
    {
        copy.push(map[i]);
        assert(map@.take(i + 1) =~= map@.take(i as int).push(map@[i as int]));
        i += 1;
    }
    assert(map@.take(i as int) =~= map@);
    copy
}

impl Clone for SourceSpec {
    fn clone(&self) -> (copy: Self)
        ensures
            copy@ == self@,
    {
        SourceSpec {
            id: self.id.clone(),
            kind: self.kind,
            endpoint_id: self.endpoint_id.clone(),
            process_id: self.process_id,
            executable_path: self.executable_path.clone(),
            stream_name: self.stream_name.clone(),
            display_name: self.display_name.clone(),
        }
    }
}

impl Clone for SinkSpec {
    fn clone(&self) -> (copy: Self)
        ensures
            copy@ == self@,
    {
        SinkSpec {
            id: self.id.clone(),
            endpoint_id: self.endpoint_id.clone(),
            display_name: self.display_name.clone(),
            kind: self.kind,
            stream_name: self.stream_name.clone(),
            remote_addr: self.remote_addr.clone(),
        }
    }
}

impl Clone for BusSpec {
    fn clone(&self) -> (copy: Self)
        ensures
            copy@ == self@,
    {
        BusSpec { id: self.id.clone(), display_name: self.display_name.clone() }
    }
}

impl Clone for SendSpec {
    fn clone(&self) -> (copy: Self)
        ensures
            copy@ == self@,
    {
        match self {
            SendSpec::SourceToBus { id, source_id, bus_id, gain_db, muted, enabled, channel_map } =>
                SendSpec::SourceToBus {
                    id: id.clone(),
                    source_id: source_id.clone(),
                    bus_id: bus_id.clone(),
                    gain_db: *gain_db,
                    muted: *muted,
                    enabled: *enabled,
                    channel_map: copy_channel_map(channel_map),
                },
            SendSpec::BusToSink { id, bus_id, sink_id, gain_db, muted, enabled, channel_map } =>
                SendSpec::BusToSink {
                    id: id.clone(),
                    bus_id: bus_id.clone(),
                    sink_id: sink_id.clone(),
                    gain_db: *gain_db,
                    muted: *muted,
                    enabled: *enabled,
                    channel_map: copy_channel_map(channel_map),
                },
        }
    }
}

/// Copies a list of sources.
pub fn clone_sources(sources: &Vec<SourceSpec>) -> (copy: Vec<SourceSpec>)
    ensures
        source_models(copy@) == source_models(sources@),
{
    let mut copy: Vec<SourceSpec> = Vec::new();
    for i in 0..sources.len()
        invariant
            copy@.len() == i,
            forall|j: int| 0 <= j < i ==> (#[trigger] copy@[j])@ == sources@[j]@,
    {
        copy.push(sources[i].clone());
    }
    assert(source_models(copy@) =~= source_models(sources@));
    copy
}

/// Copies a list of buses.
pub fn clone_buses(buses: &Vec<BusSpec>) -> (copy: Vec<BusSpec>)
    ensures
        bus_models(copy@) == bus_models(buses@),
{
    let mut copy: Vec<BusSpec> = Vec::new();
    for i in 0..buses.len()
        invariant
            copy@.len() == i,
            forall|j: int| 0 <= j < i ==> (#[trigger] copy@[j])@ == buses@[j]@,
    {
        copy.push(buses[i].clone());
    }
    assert(bus_models(copy@) =~= bus_models(buses@));
    copy
}

/// Copies a list of sinks.
pub fn clone_sinks(sinks: &Vec<SinkSpec>) -> (copy: Vec<SinkSpec>)
    ensures
        sink_models(copy@) == sink_models(sinks@),
{
    let mut copy: Vec<SinkSpec> = Vec::new();
    for i in 0..sinks.len()
        invariant
            copy@.len() == i,
            forall|j: int| 0 <= j < i ==> (#[trigger] copy@[j])@ == sinks@[j]@,
    {
        copy.push(sinks[i].clone());
    }
    assert(sink_models(copy@) =~= sink_models(sinks@));
    copy
}

/// Copies a list of sends.
pub fn clone_sends(sends: &Vec<SendSpec>) -> (copy: Vec<SendSpec>)
    ensures
        send_models(copy@) == send_models(sends@),
{
    let mut copy: Vec<SendSpec> = Vec::new();
    for i in 0..sends.len()
        invariant
            copy@.len() == i,
            forall|j: int| 0 <= j < i ==> (#[trigger] copy@[j])@ == sends@[j]@,
    {
        copy.push(sends[i].clone());
    }
    assert(send_models(copy@) =~= send_models(sends@));
    copy
}

impl Clone for RouteGraph {
    fn clone(&self) -> (copy: Self)
        ensures
            copy@ == self@,
    {
        RouteGraph {
            sources: clone_sources(&self.sources),
            buses: clone_buses(&self.buses),
            sinks: clone_sinks(&self.sinks),
            sends: clone_sends(&self.sends),
        }
    }
}

impl Default for RouteGraph {
    fn default() -> (graph: Self)
        ensures
            graph@ == (GraphModel {
                sources: Seq::empty(),
                buses: Seq::empty(),
                sinks: Seq::empty(),
                sends: Seq::empty(),
            }),
    {
        let graph = RouteGraph {
            sources: Vec::new(),
            buses: Vec::new(),
            sinks: Vec::new(),
            sends: Vec::new(),
        };
        assert(graph@.sources =~= Seq::empty());
        assert(graph@.buses =~= Seq::empty());
        assert(graph@.sinks =~= Seq::empty());
        assert(graph@.sends =~= Seq::empty());
        graph
    }
}

impl SendSpec {
    /// The stable identifier of the send.
    pub fn id(&self) -> (id: &SendId)
        ensures
            id@ == self@.id,
    {
        match self {
            SendSpec::SourceToBus { id, .. } => id,
            SendSpec::BusToSink { id, .. } => id,
        }
    }

    /// The gain of the send.
    pub fn gain_db(&self) -> (gain: Decibels)
        ensures
            gain == self@.gain_db,
    {
        match self {
            SendSpec::SourceToBus { gain_db, .. } => *gain_db,
            SendSpec::BusToSink { gain_db, .. } => *gain_db,
        }
    }

    /// Whether the send is muted.
    pub fn muted(&self) -> (muted: bool)
        ensures
            muted == self@.muted,
    {
        match self {
            SendSpec::SourceToBus { muted, .. } => *muted,
            SendSpec::BusToSink { muted, .. } => *muted,
        }
    }

    /// Whether the send takes part in mixing at all.
    pub fn enabled(&self) -> (enabled: bool)
        ensures
            enabled == self@.enabled,
    {
        match self {
            SendSpec::SourceToBus { enabled, .. } => *enabled,
            SendSpec::BusToSink { enabled, .. } => *enabled,
        }
    }

    /// The `(input, output)` channel pairs of the send; empty for the identity.
    pub fn channel_map(&self) -> (map: &[(u16, u16)])
        ensures
            map@ == self@.channel_map,
    {
        match self {
            SendSpec::SourceToBus { channel_map, .. } => channel_map.as_slice(),
            SendSpec::BusToSink { channel_map, .. } => channel_map.as_slice(),
        }
    }
}

/// Why a routing graph is refused.
#[derive(Debug, PartialEq, Eq)]
pub enum RouteGraphError {
    DuplicateSource(String),
    DuplicateSink(String),
    DuplicateBus(String),
    DuplicateSend(String),
    DuplicateSourceEndpoint(String),
    DuplicateSinkEndpoint(String),
    MissingSource(String),
    MissingBus(String),
    MissingSink(String),
    MissingSend(String),
    InvalidGain(Decibels),
}

/// What a `RouteGraphError` says.
#[verifier::ext_equal]
pub enum GraphFault {
    DuplicateSource(Seq<char>),
    DuplicateSink(Seq<char>),
    DuplicateBus(Seq<char>),
    DuplicateSend(Seq<char>),
    DuplicateSourceEndpoint(Seq<char>),
    DuplicateSinkEndpoint(Seq<char>),
    MissingSource(Seq<char>),
    MissingBus(Seq<char>),
    MissingSink(Seq<char>),
    MissingSend(Seq<char>),
    InvalidGain(Decibels),
}

impl View for RouteGraphError {
    type V = GraphFault;

    open spec fn view(&self) -> GraphFault {
        match *self {
            RouteGraphError::DuplicateSource(s) => GraphFault::DuplicateSource(s@),
            RouteGraphError::DuplicateSink(s) => GraphFault::DuplicateSink(s@),
            RouteGraphError::DuplicateBus(s) => GraphFault::DuplicateBus(s@),
            RouteGraphError::DuplicateSend(s) => GraphFault::DuplicateSend(s@),
            RouteGraphError::DuplicateSourceEndpoint(s) => GraphFault::DuplicateSourceEndpoint(s@),
            RouteGraphError::DuplicateSinkEndpoint(s) => GraphFault::DuplicateSinkEndpoint(s@),
            RouteGraphError::MissingSource(s) => GraphFault::MissingSource(s@),
            RouteGraphError::MissingBus(s) => GraphFault::MissingBus(s@),
            RouteGraphError::MissingSink(s) => GraphFault::MissingSink(s@),
            RouteGraphError::MissingSend(s) => GraphFault::MissingSend(s@),
            RouteGraphError::InvalidGain(g) => GraphFault::InvalidGain(g),
        }
    }
}

impl GraphModel {
    /// Whether a source has the identifier `id`.
    pub open spec fn has_source(self, id: Seq<char>) -> bool {
        exists|i: int| 0 <= i < self.sources.len() && (#[trigger] self.sources[i]).id == id
    }

    /// Whether a bus has the identifier `id`.
    pub open spec fn has_bus(self, id: Seq<char>) -> bool {
        exists|i: int| 0 <= i < self.buses.len() && (#[trigger] self.buses[i]).id == id
    }

    /// Whether a sink has the identifier `id`.
    pub open spec fn has_sink(self, id: Seq<char>) -> bool {
        exists|i: int| 0 <= i < self.sinks.len() && (#[trigger] self.sinks[i]).id == id
    }

    /// Whether a send has the identifier `id`.
    pub open spec fn has_send(self, id: Seq<char>) -> bool {
        exists|i: int| 0 <= i < self.sends.len() && (#[trigger] self.sends[i]).id == id
    }

    /// Whether both nodes that `send` joins are in the graph.
    pub open spec fn joins_nodes(self, send: SendModel) -> bool {
        match send.ends {
            SendEnds::SourceToBus { source_id, bus_id } => self.has_source(source_id)
                && self.has_bus(bus_id),
            SendEnds::BusToSink { bus_id, sink_id } => self.has_bus(bus_id) && self.has_sink(
                sink_id,
            ),
        }
    }

    /// The graph holds no identifier and no endpoint twice, each send joins nodes
    /// of the graph, and each gain is allowed.
    pub open spec fn well_formed(self) -> bool {
        &&& forall|i: int, j: int|
            0 <= i < j < self.sources.len() ==> (#[trigger] self.sources[i]).id != (
            #[trigger] self.sources[j]).id
        &&& forall|i: int, j: int|
            0 <= i < j < self.sources.len() && self.sources[j].endpoint_id is Some ==> (
            #[trigger] self.sources[i]).endpoint_id != (#[trigger] self.sources[j]).endpoint_id
        &&& forall|i: int, j: int|
            0 <= i < j < self.sinks.len() ==> (#[trigger] self.sinks[i]).id != (
            #[trigger] self.sinks[j]).id
        &&& forall|i: int, j: int|
            0 <= i < j < self.sinks.len() ==> (#[trigger] self.sinks[i]).endpoint_id != (
            #[trigger] self.sinks[j]).endpoint_id
        &&& forall|i: int, j: int|
            0 <= i < j < self.buses.len() ==> (#[trigger] self.buses[i]).id != (
            #[trigger] self.buses[j]).id
        &&& forall|i: int, j: int|
            0 <= i < j < self.sends.len() ==> (#[trigger] self.sends[i]).id != (
            #[trigger] self.sends[j]).id
        &&& forall|i: int|
            0 <= i < self.sends.len() ==> self.joins_nodes(#[trigger] self.sends[i])
        &&& forall|i: int|
            0 <= i < self.sends.len() ==> gain_allowed((#[trigger] self.sends[i]).gain_db)
    }

    /// What is wrong with the source at `i`, seen against the sources before it.
    pub open spec fn source_fault(self, i: int) -> Option<GraphFault> {
        let s = self.sources[i];
        if exists|j: int| 0 <= j < i && (#[trigger] self.sources[j]).id == s.id {
            Some(GraphFault::DuplicateSource(s.id))
        } else if s.endpoint_id is Some && exists|j: int|
            0 <= j < i && (#[trigger] self.sources[j]).endpoint_id == s.endpoint_id {
            Some(GraphFault::DuplicateSourceEndpoint(s.endpoint_id->0))
        } else {
            None
        }
    }

    /// What is wrong with the sink at `i`, seen against the sinks before it.
    pub open spec fn sink_fault(self, i: int) -> Option<GraphFault> {
        let s = self.sinks[i];
        if exists|j: int| 0 <= j < i && (#[trigger] self.sinks[j]).id == s.id {
            Some(GraphFault::DuplicateSink(s.id))
        } else if exists|j: int| 0 <= j < i && (#[trigger] self.sinks[j]).endpoint_id
            == s.endpoint_id {
            Some(GraphFault::DuplicateSinkEndpoint(s.endpoint_id))
        } else {
            None
        }
    }

    /// What is wrong with the bus at `i`, seen against the buses before it.
    pub open spec fn bus_fault(self, i: int) -> Option<GraphFault> {
        if exists|j: int| 0 <= j < i && (#[trigger] self.buses[j]).id == self.buses[i].id {
            Some(GraphFault::DuplicateBus(self.buses[i].id))
        } else {
            None
        }
    }

    /// The node that `send` names and the graph lacks, the input first.
    pub open spec fn missing_node(self, send: SendModel) -> Option<GraphFault> {
        match send.ends {
            SendEnds::SourceToBus { source_id, bus_id } => if !self.has_source(source_id) {
                Some(GraphFault::MissingSource(source_id))
            } else if !self.has_bus(bus_id) {
                Some(GraphFault::MissingBus(bus_id))
            } else {
                None
            },
            SendEnds::BusToSink { bus_id, sink_id } => if !self.has_bus(bus_id) {
                Some(GraphFault::MissingBus(bus_id))
            } else if !self.has_sink(sink_id) {
                Some(GraphFault::MissingSink(sink_id))
            } else {
                None
            },
        }
    }

    /// What is wrong with the send at `i`, seen against the sends before it.
    pub open spec fn send_fault(self, i: int) -> Option<GraphFault> {
        let s = self.sends[i];
        if exists|j: int| 0 <= j < i && (#[trigger] self.sends[j]).id == s.id {
            Some(GraphFault::DuplicateSend(s.id))
        } else if self.missing_node(s) is Some {
            self.missing_node(s)
        } else if !gain_allowed(s.gain_db) {
            Some(GraphFault::InvalidGain(s.gain_db))
        } else {
            None
        }
    }

    /// The first thing that is wrong with the graph: sources are looked at first,
    /// then sinks, buses and sends, each list in its order.
    pub open spec fn fault(self) -> Option<GraphFault> {
        or_fault(
            first_fault(self.sources.len(), |i: int| self.source_fault(i)),
            or_fault(
                first_fault(self.sinks.len(), |i: int| self.sink_fault(i)),
                or_fault(
                    first_fault(self.buses.len(), |i: int| self.bus_fault(i)),
                    first_fault(self.sends.len(), |i: int| self.send_fault(i)),
                ),
            ),
        )
    }
}

/// A graph is refused exactly where it is not well formed.
pub proof fn law_fault_iff_not_well_formed(graph: GraphModel)
    ensures
        graph.fault() is None <==> graph.well_formed(),
{
    let source_check = |i: int| graph.source_fault(i);
    let sink_check = |i: int| graph.sink_fault(i);
    let bus_check = |i: int| graph.bus_fault(i);
    let send_check = |i: int| graph.send_fault(i);
    lemma_first_fault_none(graph.sources.len(), source_check);
    lemma_first_fault_none(graph.sinks.len(), sink_check);
    lemma_first_fault_none(graph.buses.len(), bus_check);
    lemma_first_fault_none(graph.sends.len(), send_check);
    if graph.fault() is None {
        assert forall|i: int, j: int| 0 <= i < j < graph.sources.len() implies (
        #[trigger] graph.sources[i]).id != (#[trigger] graph.sources[j]).id && (
        graph.sources[j].endpoint_id is Some ==> graph.sources[i].endpoint_id
            != graph.sources[j].endpoint_id) by {
            assert(source_check(j) is None);
        }
        assert forall|i: int, j: int| 0 <= i < j < graph.sinks.len() implies (
        #[trigger] graph.sinks[i]).id != (#[trigger] graph.sinks[j]).id
            && graph.sinks[i].endpoint_id != graph.sinks[j].endpoint_id by {
            assert(sink_check(j) is None);
        }
        assert forall|i: int, j: int| 0 <= i < j < graph.buses.len() implies (
        #[trigger] graph.buses[i]).id != (#[trigger] graph.buses[j]).id by {
            assert(bus_check(j) is None);
        }
        assert forall|i: int, j: int| 0 <= i < j < graph.sends.len() implies (
        #[trigger] graph.sends[i]).id != (#[trigger] graph.sends[j]).id by {
            assert(send_check(j) is None);
        }
        assert forall|i: int| 0 <= i < graph.sends.len() implies graph.joins_nodes(
            #[trigger] graph.sends[i],
        ) && gain_allowed(graph.sends[i].gain_db) by {
            assert(send_check(i) is None);
        }
    }
    if graph.well_formed() {
        assert forall|i: int| 0 <= i < graph.sends.len() implies (#[trigger] send_check(i)) is None by {
            assert(graph.joins_nodes(graph.sends[i]));
        }
    }
}

/// The index of the first source with the identifier `id`, if there is one.
pub open spec fn source_index(sources: Seq<SourceModel>, id: Seq<char>) -> int
    decreases sources.len(),
{
    if sources.len() == 0 || sources[0].id == id {
        0
    } else {
        1 + source_index(sources.skip(1), id)
    }
}

proof fn lemma_source_index(sources: Seq<SourceModel>, id: Seq<char>, i: int)
    requires
        0 <= i < sources.len(),
        sources[i].id == id,
        forall|j: int| 0 <= j < i ==> (#[trigger] sources[j]).id != id,
    ensures
        source_index(sources, id) == i,
    decreases i,
{
    if i > 0 {
        let rest = sources.skip(1);
        assert forall|j: int| 0 <= j < i - 1 implies (#[trigger] rest[j]).id != id by {
            assert(rest[j] == sources[j + 1]);
        }
        assert(sources[0].id != id);
        lemma_source_index(rest, id, i - 1);
    }
}

/// The index of the first bus with the identifier `id`, if there is one.
pub open spec fn bus_index(buses: Seq<BusModel>, id: Seq<char>) -> int
    decreases buses.len(),
{
    if buses.len() == 0 || buses[0].id == id {
        0
    } else {
        1 + bus_index(buses.skip(1), id)
    }
}

proof fn lemma_bus_index(buses: Seq<BusModel>, id: Seq<char>, i: int)
    requires
        0 <= i < buses.len(),
        buses[i].id == id,
        forall|j: int| 0 <= j < i ==> (#[trigger] buses[j]).id != id,
    ensures
        bus_index(buses, id) == i,
    decreases i,
{
    if i > 0 {
        let rest = buses.skip(1);
        assert forall|j: int| 0 <= j < i - 1 implies (#[trigger] rest[j]).id != id by {
            assert(rest[j] == buses[j + 1]);
        }
        assert(buses[0].id != id);
        lemma_bus_index(rest, id, i - 1);
    }
}

/// The index of the first sink with the identifier `id`, if there is one.
pub open spec fn sink_index(sinks: Seq<SinkModel>, id: Seq<char>) -> int
    decreases sinks.len(),
{
    if sinks.len() == 0 || sinks[0].id == id {
        0
    } else {
        1 + sink_index(sinks.skip(1), id)
    }
}

proof fn lemma_sink_index(sinks: Seq<SinkModel>, id: Seq<char>, i: int)
    requires
        0 <= i < sinks.len(),
        sinks[i].id == id,
        forall|j: int| 0 <= j < i ==> (#[trigger] sinks[j]).id != id,
    ensures
        sink_index(sinks, id) == i,
    decreases i,
{
    if i > 0 {
        let rest = sinks.skip(1);
        assert forall|j: int| 0 <= j < i - 1 implies (#[trigger] rest[j]).id != id by {
            assert(rest[j] == sinks[j + 1]);
        }
        assert(sinks[0].id != id);
        lemma_sink_index(rest, id, i - 1);
    }
}

/// The index of the first send with the identifier `id`, if there is one.
pub open spec fn send_index(sends: Seq<SendModel>, id: Seq<char>) -> int
    decreases sends.len(),
{
    if sends.len() == 0 || sends[0].id == id {
        0
    } else {
        1 + send_index(sends.skip(1), id)
    }
}

proof fn lemma_send_index(sends: Seq<SendModel>, id: Seq<char>, i: int)
    requires
        0 <= i < sends.len(),
        sends[i].id == id,
        forall|j: int| 0 <= j < i ==> (#[trigger] sends[j]).id != id,
    ensures
        send_index(sends, id) == i,
    decreases i,
{
    if i > 0 {
        let rest = sends.skip(1);
        assert forall|j: int| 0 <= j < i - 1 implies (#[trigger] rest[j]).id != id by {
            assert(rest[j] == sends[j + 1]);
        }
        assert(sends[0].id != id);
        lemma_send_index(rest, id, i - 1);
    }
}

/// Copies a text into an owned string.
pub fn owned(text: &String) -> (copy: String)
    ensures
        copy@ == text@,
{
    text.clone()
}

impl RouteGraph {
    /// The index of the first source with the identifier `id`.
    pub fn find_source(&self, id: &SourceId) -> (found: Option<usize>)
        ensures
            found matches Some(i) ==> i < self.sources.len() && i == source_index(self@.sources, id@)
                && self@.sources[i as int].id == id@,
            found is None <==> !self@.has_source(id@),
    {
        for i in 0..self.sources.len()
            invariant
                forall|j: int| 0 <= j < i ==> (#[trigger] self@.sources[j]).id != id@,
        {
            assert(self@.sources[i as int] == self.sources@[i as int]@);
            if self.sources[i].id.0 == id.0 {
                proof {
                    lemma_source_index(self@.sources, id@, i as int);
                }
                return Some(i);
            }
        }
        None
    }

    /// The index of the first bus with the identifier `id`.
    pub fn find_bus(&self, id: &BusId) -> (found: Option<usize>)
        ensures
            found matches Some(i) ==> i < self.buses.len() && i == bus_index(self@.buses, id@)
                && self@.buses[i as int].id == id@,
            found is None <==> !self@.has_bus(id@),
    {
        for i in 0..self.buses.len()
            invariant
                forall|j: int| 0 <= j < i ==> (#[trigger] self@.buses[j]).id != id@,
        {
            assert(self@.buses[i as int] == self.buses@[i as int]@);
            if self.buses[i].id.0 == id.0 {
                proof {
                    lemma_bus_index(self@.buses, id@, i as int);
                }
                return Some(i);
            }
        }
        None
    }

    /// The index of the first sink with the identifier `id`.
    pub fn find_sink(&self, id: &SinkId) -> (found: Option<usize>)
        ensures
            found matches Some(i) ==> i < self.sinks.len() && i == sink_index(self@.sinks, id@)
                && self@.sinks[i as int].id == id@,
            found is None <==> !self@.has_sink(id@),
    {
        for i in 0..self.sinks.len()
            invariant
                forall|j: int| 0 <= j < i ==> (#[trigger] self@.sinks[j]).id != id@,
        {
            assert(self@.sinks[i as int] == self.sinks@[i as int]@);
            if self.sinks[i].id.0 == id.0 {
                proof {
                    lemma_sink_index(self@.sinks, id@, i as int);
                }
                return Some(i);
            }
        }
        None
    }

    /// The index of the first send with the identifier `id`.
    pub fn find_send(&self, id: &SendId) -> (found: Option<usize>)
        ensures
            found matches Some(i) ==> i < self.sends.len() && i == send_index(self@.sends, id@)
                && self@.sends[i as int].id == id@,
            found is None <==> !self@.has_send(id@),
    {
        for i in 0..self.sends.len()
            invariant
                forall|j: int| 0 <= j < i ==> (#[trigger] self@.sends[j]).id != id@,
        {
            assert(self@.sends[i as int] == self.sends@[i as int]@);
            if self.sends[i].id().0 == id.0 {
                proof {
                    lemma_send_index(self@.sends, id@, i as int);
                }
                return Some(i);
            }
        }
        None
    }

    fn check_source(&self, i: usize) -> (result: Result<(), RouteGraphError>)
        requires
            i < self.sources.len(),
        ensures
            match result {
                Ok(_) => self@.source_fault(i as int) is None,
                Err(e) => self@.source_fault(i as int) == Some(e@),
            },
    {
        let source = &self.sources[i];
        assert(self@.sources[i as int] == source@);
        for j in 0..i
            invariant
                i < self.sources.len(),
                source@ == self@.sources[i as int],
                forall|k: int| 0 <= k < j ==> (#[trigger] self@.sources[k]).id != source@.id,
        {
            assert(self@.sources[j as int] == self.sources@[j as int]@);
            if self.sources[j].id.0 == source.id.0 {
                return Err(RouteGraphError::DuplicateSource(owned(&source.id.0)));
            }
        }
        if let Some(endpoint) = &source.endpoint_id {
            for j in 0..i
                invariant
                    i < self.sources.len(),
                    source@ == self@.sources[i as int],
                    source@.endpoint_id == Some(endpoint@),
                    forall|k: int| 0 <= k < i ==> (#[trigger] self@.sources[k]).id != source@.id,
                    forall|k: int|
                        0 <= k < j ==> (#[trigger] self@.sources[k]).endpoint_id
                            != source@.endpoint_id,
            {
                assert(self@.sources[j as int] == self.sources@[j as int]@);
                if let Some(earlier) = &self.sources[j].endpoint_id {
                    if earlier.0 == endpoint.0 {
                        return Err(RouteGraphError::DuplicateSourceEndpoint(owned(&endpoint.0)));
                    }
                }
            }
        }
        Ok(())
    }

    fn check_sink(&self, i: usize) -> (result: Result<(), RouteGraphError>)
        requires
            i < self.sinks.len(),
        ensures
            match result {
                Ok(_) => self@.sink_fault(i as int) is None,
                Err(e) => self@.sink_fault(i as int) == Some(e@),
            },
    {
        let sink = &self.sinks[i];
        assert(self@.sinks[i as int] == sink@);
        for j in 0..i
            invariant
                i < self.sinks.len(),
                sink@ == self@.sinks[i as int],
                forall|k: int| 0 <= k < j ==> (#[trigger] self@.sinks[k]).id != sink@.id,
        {
            assert(self@.sinks[j as int] == self.sinks@[j as int]@);
            if self.sinks[j].id.0 == sink.id.0 {
                return Err(RouteGraphError::DuplicateSink(owned(&sink.id.0)));
            }
        }
        for j in 0..i
            invariant
                i < self.sinks.len(),
                sink@ == self@.sinks[i as int],
                forall|k: int| 0 <= k < i ==> (#[trigger] self@.sinks[k]).id != sink@.id,
                forall|k: int|
                    0 <= k < j ==> (#[trigger] self@.sinks[k]).endpoint_id != sink@.endpoint_id,
        {
            assert(self@.sinks[j as int] == self.sinks@[j as int]@);
            if self.sinks[j].endpoint_id.0 == sink.endpoint_id.0 {
                return Err(RouteGraphError::DuplicateSinkEndpoint(owned(&sink.endpoint_id.0)));
            }
        }
        Ok(())
    }

    fn check_bus(&self, i: usize) -> (result: Result<(), RouteGraphError>)
        requires
            i < self.buses.len(),
        ensures
            match result {
                Ok(_) => self@.bus_fault(i as int) is None,
                Err(e) => self@.bus_fault(i as int) == Some(e@),
            },
    {
        let bus = &self.buses[i];
        assert(self@.buses[i as int] == bus@);
        for j in 0..i
            invariant
                i < self.buses.len(),
                bus@ == self@.buses[i as int],
                forall|k: int| 0 <= k < j ==> (#[trigger] self@.buses[k]).id != bus@.id,
        {
            assert(self@.buses[j as int] == self.buses@[j as int]@);
            if self.buses[j].id.0 == bus.id.0 {
                return Err(RouteGraphError::DuplicateBus(owned(&bus.id.0)));
            }
        }
        Ok(())
    }

    fn check_send(&self, i: usize) -> (result: Result<(), RouteGraphError>)
        requires
            i < self.sends.len(),
        ensures
            match result {
                Ok(_) => self@.send_fault(i as int) is None,
                Err(e) => self@.send_fault(i as int) == Some(e@),
            },
    {
        let send = &self.sends[i];
        assert(self@.sends[i as int] == send@);
        for j in 0..i
            invariant
                i < self.sends.len(),
                send@ == self@.sends[i as int],
                forall|k: int| 0 <= k < j ==> (#[trigger] self@.sends[k]).id != send@.id,
        {
            assert(self@.sends[j as int] == self.sends@[j as int]@);
            if self.sends[j].id().0 == send.id().0 {
                return Err(RouteGraphError::DuplicateSend(owned(&send.id().0)));
            }
        }
        match send {
            SendSpec::SourceToBus { source_id, bus_id, .. } => {
                if self.find_source(source_id).is_none() {
                    return Err(RouteGraphError::MissingSource(owned(&source_id.0)));
                }
                if self.find_bus(bus_id).is_none() {
                    return Err(RouteGraphError::MissingBus(owned(&bus_id.0)));
                }
            },
            SendSpec::BusToSink { bus_id, sink_id, .. } => {
                if self.find_bus(bus_id).is_none() {
                    return Err(RouteGraphError::MissingBus(owned(&bus_id.0)));
                }
                if self.find_sink(sink_id).is_none() {
                    return Err(RouteGraphError::MissingSink(owned(&sink_id.0)));
                }
            },
        }
        if !send.gain_db().is_allowed() {
            return Err(RouteGraphError::InvalidGain(send.gain_db()));
        }
        Ok(())
    }

    /// Accepts the graph, or says what is wrong with it first.
    pub fn validate(&self) -> (result: Result<(), RouteGraphError>)
        ensures
            match result {
                Ok(_) => self@.fault() is None,
                Err(e) => self@.fault() == Some(e@),
            },
            result is Ok <==> self@.well_formed(),
    {
        proof {
            law_fault_iff_not_well_formed(self@);
        }
        let ghost source_check = |i: int| self@.source_fault(i);
        let ghost sink_check = |i: int| self@.sink_fault(i);
        let ghost bus_check = |i: int| self@.bus_fault(i);
        let ghost send_check = |i: int| self@.send_fault(i);
        for i in 0..self.sources.len()
            invariant
                source_check == (|i: int| self@.source_fault(i)),
                first_fault(i as nat, source_check) is None,
                self@.fault() is None <==> self@.well_formed(),
        {
            if let Err(e) = self.check_source(i) {
                proof {
                    assert(source_check(i as int) is Some);
                    lemma_first_fault_at(self@.sources.len(), source_check, i as nat);
                }
                return Err(e);
            }
            assert(source_check(i as int) is None);
        }
        for i in 0..self.sinks.len()
            invariant
                source_check == (|i: int| self@.source_fault(i)),
                sink_check == (|i: int| self@.sink_fault(i)),
                first_fault(self@.sources.len(), source_check) is None,
                first_fault(i as nat, sink_check) is None,
                self@.fault() is None <==> self@.well_formed(),
        {
            if let Err(e) = self.check_sink(i) {
                proof {
                    assert(sink_check(i as int) is Some);
                    lemma_first_fault_at(self@.sinks.len(), sink_check, i as nat);
                }
                return Err(e);
            }
            assert(sink_check(i as int) is None);
        }
        for i in 0..self.buses.len()
            invariant
                source_check == (|i: int| self@.source_fault(i)),
                sink_check == (|i: int| self@.sink_fault(i)),
                bus_check == (|i: int| self@.bus_fault(i)),
                first_fault(self@.sources.len(), source_check) is None,
                first_fault(self@.sinks.len(), sink_check) is None,
                first_fault(i as nat, bus_check) is None,
                self@.fault() is None <==> self@.well_formed(),
        {
            if let Err(e) = self.check_bus(i) {
                proof {
                    assert(bus_check(i as int) is Some);
                    lemma_first_fault_at(self@.buses.len(), bus_check, i as nat);
                }
                return Err(e);
            }
            assert(bus_check(i as int) is None);
        }
        for i in 0..self.sends.len()
            invariant
                source_check == (|i: int| self@.source_fault(i)),
                sink_check == (|i: int| self@.sink_fault(i)),
                bus_check == (|i: int| self@.bus_fault(i)),
                send_check == (|i: int| self@.send_fault(i)),
                first_fault(self@.sources.len(), source_check) is None,
                first_fault(self@.sinks.len(), sink_check) is None,
                first_fault(self@.buses.len(), bus_check) is None,
                first_fault(i as nat, send_check) is None,
                self@.fault() is None <==> self@.well_formed(),
        {
            if let Err(e) = self.check_send(i) {
                proof {
                    assert(send_check(i as int) is Some);
                    lemma_first_fault_at(self@.sends.len(), send_check, i as nat);
                }
                return Err(e);
            }
            assert(send_check(i as int) is None);
        }
        Ok(())
    }
}

/// The message of a fault. `shown` writes a gain as a number.
pub open spec fn graph_fault_text(fault: GraphFault, shown: spec_fn(Decibels) -> Seq<char>) -> Seq<
    char,
> {
    match fault {
        GraphFault::DuplicateSource(id) => "source ID 重复: "@ + id,
        GraphFault::DuplicateSink(id) => "sink ID 重复: "@ + id,
        GraphFault::DuplicateBus(id) => "bus ID 重复: "@ + id,
        GraphFault::DuplicateSend(id) => "send ID 重复: "@ + id,
        GraphFault::DuplicateSourceEndpoint(id) => "source endpoint ID 重复: "@ + id,
        GraphFault::DuplicateSinkEndpoint(id) => "sink endpoint ID 重复: "@ + id,
        GraphFault::MissingSource(id) => "source 不存在: "@ + id,
        GraphFault::MissingBus(id) => "bus 不存在: "@ + id,
        GraphFault::MissingSink(id) => "sink 不存在: "@ + id,
        GraphFault::MissingSend(id) => "send 不存在: "@ + id,
        GraphFault::InvalidGain(gain) => "增益超出范围: "@ + shown(gain) + " dB"@,
    }
}

/// How `show_gain` writes a gain.
pub open spec fn shown_gain<F: Fn(Decibels) -> String>(show_gain: F) -> spec_fn(Decibels) -> Seq<
    char,
> {
    |gain: Decibels| unary(show_gain, gain)@
}

impl RouteGraphError {
    /// The message of the error. `show_gain` writes a gain as a number.
    pub fn message<F: Fn(Decibels) -> String>(&self, show_gain: &F) -> (text: String)
        requires
            is_unary::<Decibels, String, F>(*show_gain),
        ensures
            text@ == graph_fault_text(self@, shown_gain(*show_gain)),
    {
        match self {
            RouteGraphError::DuplicateSource(id) => joined("source ID 重复: ", id.as_str()),
            RouteGraphError::DuplicateSink(id) => joined("sink ID 重复: ", id.as_str()),
            RouteGraphError::DuplicateBus(id) => joined("bus ID 重复: ", id.as_str()),
            RouteGraphError::DuplicateSend(id) => joined("send ID 重复: ", id.as_str()),
            RouteGraphError::DuplicateSourceEndpoint(id) => joined("source endpoint ID 重复: ", id.as_str()),
            RouteGraphError::DuplicateSinkEndpoint(id) => joined("sink endpoint ID 重复: ", id.as_str()),
            RouteGraphError::MissingSource(id) => joined("source 不存在: ", id.as_str()),
            RouteGraphError::MissingBus(id) => joined("bus 不存在: ", id.as_str()),
            RouteGraphError::MissingSink(id) => joined("sink 不存在: ", id.as_str()),
            RouteGraphError::MissingSend(id) => joined("send 不存在: ", id.as_str()),
            RouteGraphError::InvalidGain(gain) => {
                let mut text = "增益超出范围: ".to_owned();
                text.append(call_unary(show_gain, *gain).as_str());
                text.append(" dB");
                text
            },
        }
    }
}

} // verus!
