//! Trying an engine out from the command line: what is asked for, what is seen and what is
//! told.

pub mod laws;

use crate::decibels::{gain_allowed, Decibels};
use crate::faults::lemma_first_fault_none;
use crate::fifo::{at_most, AudioFifoProducer};
use crate::routing::{
    law_fault_iff_not_well_formed, DEFAULT_BLOCK_FRAMES, INTERNAL_CHANNELS,
    BusId, BusModel, BusSpec, EndpointId, GraphModel, RouteGraph, SendEnds, SendId, SendModel,
    SendSpec, SinkId, SinkKind, SinkModel, SinkSpec, SourceId, SourceKind, SourceModel, SourceSpec,
};
use crate::runtime::capture::{block_written, push_silence, silence, write_block};
use crate::runtime::config::{config_fault, source_lack, DEFAULT_FIFO_CAPACITY_BLOCKS};
use crate::runtime::status::{AudioEngineState, AudioEngineStatus};
use crate::text::{
    decimal, decimal_text, joined, number_in, parse_number, push_decimal, push_upper_hex,
    upper_hex_text,
};
use crate::windows::endpoint::{
    fault_text, EndpointFlow, EndpointInfo, WindowsAudioError, WindowsFault,
};
use crate::windows::stream::CapturePacket;
use vstd::prelude::*;
use vstd::string::StringExecFns;

verus! {

/// How often the state of an engine is looked at, in milliseconds.
pub const ENGINE_STATUS_SAMPLE_MILLIS: u64 = 20;

/// How often an engine that does not change is told of, in milliseconds.
pub const ENGINE_LIVE_OUTPUT_MILLIS: u64 = 1000;

/// The place of a state among the counts.
pub open spec fn place_of(state: AudioEngineState) -> int {
    match state {
        AudioEngineState::Stopped => 0,
        AudioEngineState::Running => 1,
        AudioEngineState::Degraded => 2,
        AudioEngineState::Reconnecting => 3,
        AudioEngineState::Failed => 4,
    }
}

/// The place of a state among the counts.
pub fn state_index(state: AudioEngineState) -> (place: usize)
    ensures
        place == place_of(state),
        place < 5,
{
    match state {
        AudioEngineState::Stopped => 0,
        AudioEngineState::Running => 1,
        AudioEngineState::Degraded => 2,
        AudioEngineState::Reconnecting => 3,
        AudioEngineState::Failed => 4,
    }
}

/// The states that were seen.
#[derive(Debug)]
pub struct StateObservation {
    pub first: Option<AudioEngineState>,
    pub last: Option<AudioEngineState>,
    /// How often each state was entered, by its place.
    pub transitions: [u64; 5],
}

/// What a `StateObservation` says.
#[verifier::ext_equal]
pub struct ObservationModel {
    pub first: Option<AudioEngineState>,
    pub last: Option<AudioEngineState>,
    pub transitions: Seq<u64>,
}

impl View for StateObservation {
    type V = ObservationModel;

    open spec fn view(&self) -> ObservationModel {
        ObservationModel {
            first: self.first,
            last: self.last,
            transitions: self.transitions@,
        }
    }
}

/// Nothing was seen.
pub open spec fn nothing_seen() -> ObservationModel {
    ObservationModel { first: None, last: None, transitions: seq![0u64, 0, 0, 0, 0] }
}

impl ObservationModel {
    /// Whether a look at a state counts as entering it: another one was seen before.
    pub open spec fn enters(self, state: AudioEngineState) -> bool {
        self.last is Some && self.last != Some(state)
    }

    /// After a look at the engine.
    pub open spec fn after(self, state: AudioEngineState) -> ObservationModel {
        ObservationModel {
            first: if self.first is None {
                Some(state)
            } else {
                self.first
            },
            last: Some(state),
            transitions: if self.enters(state) {
                self.transitions.update(
                    place_of(state),
                    (self.transitions[place_of(state)] + 1) as u64,
                )
            } else {
                self.transitions
            },
        }
    }
}

impl StateObservation {
    /// What is known after the first look.
    pub fn new(initial: AudioEngineState) -> (observation: Self)
        ensures
            observation@ == nothing_seen().after(initial),
    {
        let mut observation = StateObservation {
            first: None,
            last: None,
            transitions: [0, 0, 0, 0, 0],
        };
        assert(observation@ =~= nothing_seen());
        observation.observe(initial);
        observation
    }

    /// Looks at the engine.
    pub fn observe(&mut self, state: AudioEngineState)
        requires
            old(self)@.enters(state) ==> old(self)@.transitions[place_of(state)] < u64::MAX,
        ensures
            final(self)@ == old(self)@.after(state),
    {
        let ghost before = self@;
        if self.first.is_none() {
            self.first = Some(state);
        }
        let changed = match self.last {
            Some(last) => last != state,
            None => true,
        };
        if changed {
            if self.last.is_some() {
                let place = state_index(state);
                self.transitions[place] = self.transitions[place] + 1;
            }
            self.last = Some(state);
        }
        assert(self@ =~= before.after(state));
    }

    /// How often a state was entered.
    pub fn transition_count(&self, state: AudioEngineState) -> (count: u64)
        ensures
            count == self@.transitions[place_of(state)],
    {
        self.transitions[state_index(state)]
    }
}

/// What is known after some looks.
pub open spec fn seen(looks: Seq<AudioEngineState>) -> ObservationModel
    decreases looks.len(),
{
    if looks.len() == 0 {
        nothing_seen()
    } else {
        seen(looks.drop_last()).after(looks.last())
    }
}

/// How often a look showed a state that the look before did not.
pub open spec fn entries(looks: Seq<AudioEngineState>, state: AudioEngineState) -> nat
    decreases looks.len(),
{
    if looks.len() < 2 {
        0
    } else {
        entries(looks.drop_last(), state) + if looks.last() == state && looks[looks.len() - 2]
            != state {
            1nat
        } else {
            0
        }
    }
}

/// What is known after the first look and after one look more is what is known after as many
/// looks.
pub proof fn law_observation_follows_looks(
    initial: AudioEngineState,
    looks: Seq<AudioEngineState>,
    state: AudioEngineState,
)
    ensures
        nothing_seen().after(initial) == seen(seq![initial]),
        seen(looks).after(state) == seen(looks.push(state)),
{
    reveal_with_fuel(seen, 2);
    assert(seq![initial].drop_last() =~= Seq::<AudioEngineState>::empty());
    assert(looks.push(state).drop_last() =~= looks);
}

/// The first and the last look are remembered, and a state is counted as often as a look
/// showed it anew.
pub proof fn law_observation_counts_changes(looks: Seq<AudioEngineState>, state: AudioEngineState)
    requires
        looks.len() > 0,
        looks.len() <= u64::MAX,
    ensures
        seen(looks).first == Some(looks[0]),
        seen(looks).last == Some(looks.last()),
        seen(looks).transitions.len() == 5,
        seen(looks).transitions[place_of(state)] == entries(looks, state),
        entries(looks, state) < looks.len(),
    decreases looks.len(),
{
    let init = looks.drop_last();
    reveal_with_fuel(seen, 2);
    if looks.len() > 1 {
        law_observation_counts_changes(init, state);
        law_observation_counts_changes(init, looks.last());
        assert(init.last() == looks[looks.len() - 2]);
        assert(init[0] == looks[0]);
    } else {
        assert(init =~= Seq::empty());
    }
}

/// What the command line asks for.
#[derive(Debug, PartialEq, Eq)]
pub enum DiagnosticsCommand {
    /// An engine between two devices.
    Engine { capture_id: String, render_id: String, seconds: u64 },
    /// An engine between a process and a device.
    ProcessEngine { pid: u32, render_id: String, seconds: u64 },
    /// Two devices without an engine.
    CaptureRender { capture_id: String, render_id: String, seconds: u64 },
    /// The devices alone.
    List,
}

/// What a `DiagnosticsCommand` says.
#[verifier::ext_equal]
pub enum DiagnosticsModel {
    Engine { capture_id: Seq<char>, render_id: Seq<char>, seconds: u64 },
    ProcessEngine { pid: u32, render_id: Seq<char>, seconds: u64 },
    CaptureRender { capture_id: Seq<char>, render_id: Seq<char>, seconds: u64 },
    List,
}

impl View for DiagnosticsCommand {
    type V = DiagnosticsModel;

    open spec fn view(&self) -> DiagnosticsModel {
        match *self {
            DiagnosticsCommand::Engine { capture_id, render_id, seconds } =>
                DiagnosticsModel::Engine {
                capture_id: capture_id@,
                render_id: render_id@,
                seconds,
            },
            DiagnosticsCommand::ProcessEngine { pid, render_id, seconds } =>
                DiagnosticsModel::ProcessEngine { pid, render_id: render_id@, seconds },
            DiagnosticsCommand::CaptureRender { capture_id, render_id, seconds } =>
                DiagnosticsModel::CaptureRender {
                capture_id: capture_id@,
                render_id: render_id@,
                seconds,
            },
            DiagnosticsCommand::List => DiagnosticsModel::List,
        }
    }
}

/// A number among the arguments; another one where there is none.
pub open spec fn argument_number(args: Seq<String>, at: int, limit: u64, other: u64) -> u64 {
    if at < args.len() {
        match number_in(args[at]@, limit as nat) {
            Some(n) => n as u64,
            None => other,
        }
    } else {
        other
    }
}

/// What the command line asks for. The first argument is the name of the program.
pub open spec fn command_in(args: Seq<String>) -> DiagnosticsModel {
    if args.len() >= 4 && args[1]@ == "--engine"@ {
        DiagnosticsModel::Engine {
            capture_id: args[2]@,
            render_id: args[3]@,
            seconds: argument_number(args, 4, u64::MAX, 10),
        }
    } else if args.len() >= 4 && args[1]@ == "--process-engine"@ {
        DiagnosticsModel::ProcessEngine {
            pid: argument_number(args, 2, u32::MAX as u64, 0) as u32,
            render_id: args[3]@,
            seconds: argument_number(args, 4, u64::MAX, 10),
        }
    } else if args.len() >= 3 {
        DiagnosticsModel::CaptureRender {
            capture_id: args[1]@,
            render_id: args[2]@,
            seconds: argument_number(args, 3, u64::MAX, 10),
        }
    } else {
        DiagnosticsModel::List
    }
}

fn read_number(args: &Vec<String>, at: usize, limit: u64, other: u64) -> (number: u64)
    requires
        other <= limit,
    ensures
        number == argument_number(args@, at as int, limit, other),
        number <= limit,
{
    if at < args.len() {
        match parse_number(args[at].as_str(), limit) {
            Some(number) => number,
            None => other,
        }
    } else {
        other
    }
}

/// Reads the command line.
pub fn parse_arguments(args: &Vec<String>) -> (command: DiagnosticsCommand)
    ensures
        command@ == command_in(args@),
{
    let count = args.len();
    if count >= 4 && args[1] == "--engine".to_owned() {
        DiagnosticsCommand::Engine {
            capture_id: args[2].clone(),
            render_id: args[3].clone(),
            seconds: read_number(args, 4, u64::MAX, 10),
        }
    } else if count >= 4 && args[1] == "--process-engine".to_owned() {
        DiagnosticsCommand::ProcessEngine {
            pid: read_number(args, 2, u32::MAX as u64, 0) as u32,
            render_id: args[3].clone(),
            seconds: read_number(args, 4, u64::MAX, 10),
        }
    } else if count >= 3 {
        DiagnosticsCommand::CaptureRender {
            capture_id: args[1].clone(),
            render_id: args[2].clone(),
            seconds: read_number(args, 3, u64::MAX, 10),
        }
    } else {
        DiagnosticsCommand::List
    }
}

/// The graph of one route: from a source over a bus to a sink. The gain and the mute are
/// those of the send into the bus.
pub open spec fn route_of(
    source: SourceModel,
    sink: SinkModel,
    gain_db: Decibels,
    muted: bool,
) -> GraphModel {
    let unity = Decibels { bits: 0 };
    GraphModel {
        sources: seq![source],
        buses: seq![BusModel { id: "main"@, display_name: "main"@ }],
        sinks: seq![sink],
        sends: seq![
            SendModel {
                id: "source-to-main"@,
                ends: SendEnds::SourceToBus { source_id: source.id, bus_id: "main"@ },
                gain_db,
                muted,
                enabled: true,
                channel_map: Seq::empty(),
            },
            SendModel {
                id: "main-to-sink"@,
                ends: SendEnds::BusToSink { bus_id: "main"@, sink_id: sink.id },
                gain_db: unity,
                muted: false,
                enabled: true,
                channel_map: Seq::empty(),
            },
        ],
    }
}

/// The graph of one route.
pub fn single_route(source: SourceSpec, sink: SinkSpec, gain_db: Decibels, muted: bool) -> (graph:
    RouteGraph)
    ensures
        graph@ == route_of(source@, sink@, gain_db, muted),
{
    let bus = BusSpec { id: BusId("main".to_owned()), display_name: "main".to_owned() };
    let first = SendSpec::SourceToBus {
        id: SendId("source-to-main".to_owned()),
        source_id: SourceId(source.id.0.clone()),
        bus_id: BusId("main".to_owned()),
        gain_db,
        muted,
        enabled: true,
        channel_map: Vec::new(),
    };
    let second = SendSpec::BusToSink {
        id: SendId("main-to-sink".to_owned()),
        bus_id: BusId("main".to_owned()),
        sink_id: SinkId(sink.id.0.clone()),
        gain_db: Decibels { bits: 0 },
        muted: false,
        enabled: true,
        channel_map: Vec::new(),
    };
    let ghost wanted = route_of(source@, sink@, gain_db, muted);
    assert(first@ =~= wanted.sends[0]);
    assert(second@ =~= wanted.sends[1]);
    let graph = RouteGraph {
        sources: vec![source],
        buses: vec![bus],
        sinks: vec![sink],
        sends: vec![first, second],
    };
    assert(graph@.sources =~= wanted.sources);
    assert(graph@.buses =~= wanted.buses);
    assert(graph@.sinks =~= wanted.sinks);
    assert(graph@.sends =~= wanted.sends);
    graph
}

/// A source that captures a device.
pub open spec fn capture_source(endpoint_id: Seq<char>) -> SourceModel {
    SourceModel {
        id: "capture"@,
        kind: SourceKind::DeviceCapture,
        endpoint_id: Some(endpoint_id),
        process_id: None,
        executable_path: None,
        stream_name: None,
        display_name: "capture"@,
    }
}

/// A source that captures a process.
pub open spec fn process_source(pid: u32) -> SourceModel {
    SourceModel {
        id: "process"@,
        kind: SourceKind::ProcessLoopback,
        endpoint_id: None,
        process_id: Some(pid),
        executable_path: None,
        stream_name: None,
        display_name: "process:"@ + decimal_text(pid as nat),
    }
}

/// A sink that renders on a device.
pub open spec fn render_sink(name: Seq<char>, endpoint_id: Seq<char>) -> SinkModel {
    SinkModel {
        id: name,
        endpoint_id,
        display_name: name,
        kind: SinkKind::Device,
        stream_name: None,
        remote_addr: None,
    }
}

/// The source that captures a process.
pub fn process_source_spec(pid: u32) -> (source: SourceSpec)
    ensures
        source@ == process_source(pid),
{
    let source = SourceSpec {
        id: SourceId("process".to_owned()),
        kind: SourceKind::ProcessLoopback,
        endpoint_id: None,
        process_id: Some(pid),
        executable_path: None,
        stream_name: None,
        display_name: joined("process:", decimal(pid as u64).as_str()),
    };
    assert(source@ =~= process_source(pid));
    source
}

/// The sink that renders on a device.
pub fn render_sink_spec(name: &str, endpoint_id: &str) -> (sink: SinkSpec)
    ensures
        sink@ == render_sink(name@, endpoint_id@),
{
    SinkSpec {
        id: SinkId(name.to_owned()),
        endpoint_id: EndpointId(endpoint_id.to_owned()),
        display_name: name.to_owned(),
        kind: SinkKind::Device,
        stream_name: None,
        remote_addr: None,
    }
}

/// The graph from a device to a device.
pub fn capture_graph(capture_id: &str, render_id: &str) -> (graph: RouteGraph)
    ensures
        graph@ == route_of(
            capture_source(capture_id@),
            render_sink("render"@, render_id@),
            (Decibels { bits: 0 }),
            false,
        ),
{
    let source = SourceSpec {
        id: SourceId("capture".to_owned()),
        kind: SourceKind::DeviceCapture,
        endpoint_id: Some(EndpointId(capture_id.to_owned())),
        process_id: None,
        executable_path: None,
        stream_name: None,
        display_name: "capture".to_owned(),
    };
    assert(source@ =~= capture_source(capture_id@));
    single_route(source, render_sink_spec("render", render_id), Decibels { bits: 0 }, false)
}

/// The graph from a process to a device. A process that is none has no graph.
pub fn process_graph(pid: u32, render_id: &str) -> (graph: Option<RouteGraph>)
    ensures
        match graph {
            Some(graph) => pid != 0 && graph@ == route_of(
                process_source(pid),
                render_sink("render"@, render_id@),
                (Decibels { bits: 0 }),
                false,
            ),
            None => pid == 0,
        },
{
    if pid == 0 {
        return None;
    }
    Some(
        single_route(
            process_source_spec(pid),
            render_sink_spec("render", render_id),
            Decibels { bits: 0 },
            false,
        ),
    )
}

proof fn lemma_unity_is_allowed()
    ensures
        gain_allowed(Decibels { bits: 0 }),
{
    vstd::arithmetic::power2::lemma_pow2_pos(149);
}

/// A graph of one route is valid where its gain is allowed, and an engine takes it where
/// its source says what it captures.
pub proof fn law_single_route_is_valid(
    source: SourceModel,
    sink: SinkModel,
    gain_db: Decibels,
    muted: bool,
)
    requires
        gain_allowed(gain_db),
        source_lack(source) is None,
    ensures
        route_of(source, sink, gain_db, muted).fault() is None,
        config_fault(
            route_of(source, sink, gain_db, muted),
            DEFAULT_BLOCK_FRAMES as nat,
            (DEFAULT_BLOCK_FRAMES * DEFAULT_FIFO_CAPACITY_BLOCKS) as nat,
        ) is None,
{
    let graph = route_of(source, sink, gain_db, muted);
    reveal_strlit("source-to-main");
    reveal_strlit("main-to-sink");
    assert("source-to-main"@.len() != "main-to-sink"@.len());
    assert(graph.sources[0].id == source.id);
    assert(graph.sinks[0].id == sink.id);
    assert(graph.buses[0].id == "main"@);
    lemma_unity_is_allowed();
    assert(graph.well_formed());
    law_fault_iff_not_well_formed(graph);
    let check = |i: int| source_lack(graph.sources[i]);
    assert(check(0) is None);
    lemma_first_fault_none(graph.sources.len(), check);
}

/// How long a trial runs, in seconds: at least one.
pub fn trial_seconds(seconds: u64) -> (lasting: u64)
    ensures
        lasting == if seconds > 0 {
            seconds
        } else {
            1
        },
{
    if seconds > 0 {
        seconds
    } else {
        1
    }
}

/// What is told of an engine while it runs.
#[derive(Clone, Copy, Debug, PartialEq, Eq, Structural)]
pub enum LiveReport {
    /// The state has changed.
    Changed { from: AudioEngineState },
    /// A second has passed without a change.
    Counts,
    Nothing,
}

/// What was last told of an engine, and when, in milliseconds.
#[derive(Clone, Copy, Debug, PartialEq, Eq, Structural)]
pub struct LiveOutput {
    pub last_state: AudioEngineState,
    pub last_output: u64,
}

impl LiveOutput {
    /// What is told after a look at the engine.
    pub fn report(&mut self, state: AudioEngineState, now: u64) -> (report: LiveReport)
        requires
            old(self).last_output <= now,
        ensures
            report == if state != old(self).last_state {
                LiveReport::Changed { from: old(self).last_state }
            } else if now - old(self).last_output >= ENGINE_LIVE_OUTPUT_MILLIS {
                LiveReport::Counts
            } else {
                LiveReport::Nothing
            },
            final(self).last_state == state,
            final(self).last_output == if report == LiveReport::Nothing {
                old(self).last_output
            } else {
                now
            },
    {
        if state != self.last_state {
            let from = self.last_state;
            self.last_state = state;
            self.last_output = now;
            LiveReport::Changed { from }
        } else if now - self.last_output >= ENGINE_LIVE_OUTPUT_MILLIS {
            self.last_output = now;
            LiveReport::Counts
        } else {
            LiveReport::Nothing
        }
    }
}

/// The exit code of a trial of an engine: it has not failed, and audio has come in and
/// gone out.
pub fn engine_verdict(status: &AudioEngineStatus) -> (code: i32)
    ensures
        code == if !status.failed && status.stats.capture_packets > 0
            && status.stats.rendered_frames > 0 {
            0i32
        } else {
            2
        },
{
    if !status.failed && status.stats.capture_packets > 0 && status.stats.rendered_frames > 0 {
        0
    } else {
        2
    }
}

/// What a trial without an engine has counted.
#[derive(Clone, Copy, Debug, PartialEq, Eq, Structural)]
pub struct TrialCounts {
    pub packets: u64,
    pub captured_frames: u64,
    pub fifo_overflows: u64,
    pub render_writes: u64,
    pub render_frames: u64,
    pub discontinuities: u64,
    pub timestamp_errors: u64,
}

impl TrialCounts {
    /// Whether every count can still grow.
    pub open spec fn has_room(self) -> bool {
        &&& self.packets < u64::MAX
        &&& self.captured_frames <= u64::MAX - u32::MAX
        &&& self.fifo_overflows < u64::MAX
        &&& self.render_writes < u64::MAX
        &&& self.render_frames <= u64::MAX - u32::MAX
        &&& self.discontinuities < u64::MAX
        &&& self.timestamp_errors < u64::MAX
    }

    /// Nothing was counted.
    pub fn new() -> (counts: Self)
        ensures
            counts == (TrialCounts {
                packets: 0,
                captured_frames: 0,
                fifo_overflows: 0,
                render_writes: 0,
                render_frames: 0,
                discontinuities: 0,
                timestamp_errors: 0,
            }),
            counts.has_room(),
    {
        TrialCounts {
            packets: 0,
            captured_frames: 0,
            fifo_overflows: 0,
            render_writes: 0,
            render_frames: 0,
            discontinuities: 0,
            timestamp_errors: 0,
        }
    }

    /// The counts with a packet, some of which there was no room for or not.
    pub open spec fn counted(self, packet: CapturePacket, overflowed: bool) -> Self {
        TrialCounts {
            packets: (self.packets + 1) as u64,
            captured_frames: (self.captured_frames + packet.frames) as u64,
            discontinuities: (self.discontinuities + if packet.discontinuity {
                1int
            } else {
                0
            }) as u64,
            timestamp_errors: (self.timestamp_errors + if packet.timestamp_error {
                1int
            } else {
                0
            }) as u64,
            fifo_overflows: (self.fifo_overflows + if overflowed {
                1int
            } else {
                0
            }) as u64,
            ..self
        }
    }

    /// Writes a packet into a queue, and counts it: silence where it is silent, else its
    /// samples, and nothing where it has none. Gives the frames that were taken.
    pub fn take_packet(
        &mut self,
        producer: &mut AudioFifoProducer,
        packet: &CapturePacket,
        data: Option<&[u32]>,
        quiet: &[u32],
    ) -> (taken: usize)
        requires
            old(self).has_room(),
            old(producer).wf(),
            old(producer).channel_count() == INTERNAL_CHANNELS,
            packet.frames * INTERNAL_CHANNELS <= usize::MAX,
            quiet@ == silence(quiet@.len()),
            quiet@.len() > 0,
            quiet@.len() % INTERNAL_CHANNELS as nat == 0,
        ensures
            final(producer).wf(),
            final(producer).channel_count() == INTERNAL_CHANNELS,
            final(producer).traffic() == old(producer).traffic(),
            packet.silent ==> {
                &&& at_most(old(producer).room(), packet.frames as nat) <= taken <= packet.frames
                &&& final(producer).written() == old(producer).written() + silence(
                    (taken * INTERNAL_CHANNELS) as nat,
                )
            },
            !packet.silent ==> match data {
                Some(samples) => block_written(
                    *old(producer),
                    *final(producer),
                    samples@,
                    taken as nat,
                ),
                None => taken == 0 && *final(producer) == *old(producer),
            },
            *final(self) == old(self).counted(
                *packet,
                (packet.silent || data is Some) && taken < packet.frames,
            ),
    {
        let frames = packet.frames as usize;
        if packet.silent {
            let taken = push_silence(producer, frames, quiet);
            self.count_packet(packet, taken);
            taken
        } else {
            match data {
                Some(samples) => {
                    let taken = write_block(producer, samples);
                    self.count_packet(packet, taken);
                    taken
                },
                None => {
                    self.count_packet(packet, frames);
                    0
                },
            }
        }
    }

    /// Counts a packet, of which some frames were taken.
    pub fn count_packet(&mut self, packet: &CapturePacket, taken: usize)
        requires
            old(self).has_room(),
        ensures
            *final(self) == old(self).counted(*packet, taken < packet.frames),
    {
        self.packets = self.packets + 1;
        self.captured_frames = self.captured_frames + packet.frames as u64;
        if packet.discontinuity {
            self.discontinuities = self.discontinuities + 1;
        }
        if packet.timestamp_error {
            self.timestamp_errors = self.timestamp_errors + 1;
        }
        if taken < packet.frames as usize {
            self.fifo_overflows = self.fifo_overflows + 1;
        }
    }

    /// Counts a block that was rendered.
    pub fn count_write(&mut self, frames: u32)
        requires
            old(self).has_room(),
        ensures
            *final(self) == (TrialCounts {
                render_writes: (old(self).render_writes + 1) as u64,
                render_frames: (old(self).render_frames + frames) as u64,
                ..*old(self)
            }),
    {
        self.render_writes = self.render_writes + 1;
        self.render_frames = self.render_frames + frames as u64;
    }

    /// The exit code of the trial: audio has come in and gone out.
    pub fn verdict(&self) -> (code: i32)
        ensures
            code == if self.packets > 0 && self.render_frames > 0 {
                0i32
            } else {
                2
            },
    {
        if self.packets > 0 && self.render_frames > 0 {
            0
        } else {
            2
        }
    }
}

/// What is told of the format of an endpoint.
pub open spec fn format_lines(endpoint: EndpointInfo) -> Seq<char> {
    match endpoint.known_format() {
        Some(format) => "  Mix format: "@ + decimal_text(format.sample_rate as nat) + " Hz, "@
            + decimal_text(format.bits_per_sample as nat) + " bit, "@ + decimal_text(
            format.channels as nat,
        ) + " channels\n  Channel mask: 0x"@ + upper_hex_text(format.channel_mask) + "\n"@,
        None => "  Mix format: unavailable\n"@,
    }
}

/// The name of a flow for the eye.
pub open spec fn flow_title(flow: EndpointFlow) -> Seq<char> {
    match flow {
        EndpointFlow::Capture => "Capture"@,
        EndpointFlow::Render => "Render"@,
    }
}

/// The name of a flow.
pub open spec fn flow_word(flow: EndpointFlow) -> Seq<char> {
    match flow {
        EndpointFlow::Capture => "capture"@,
        EndpointFlow::Render => "render"@,
    }
}

/// What is told of an endpoint.
pub open spec fn endpoint_text(index: nat, endpoint: EndpointInfo) -> Seq<char> {
    "\n["@ + decimal_text(index) + "] "@ + endpoint.name@ + " ("@ + flow_title(endpoint.flow)
        + ")\n  ID: "@ + endpoint.id@ + "\n  Flow: "@ + flow_word(endpoint.flow) + "\n"@
        + format_lines(endpoint)
}

/// What is told of an endpoint.
pub fn describe_endpoint(index: u64, endpoint: &EndpointInfo) -> (text: String)
    ensures
        text@ == endpoint_text(index as nat, *endpoint),
{
    let mut text = "\n[".to_owned();
    push_decimal(&mut text, index);
    text.append("] ");
    text.append(endpoint.name.as_str());
    text.append(" (");
    text.append(endpoint.flow.display_name());
    text.append(")\n  ID: ");
    text.append(endpoint.id.0.as_str());
    text.append("\n  Flow: ");
    text.append(endpoint.flow.as_str());
    text.append("\n");
    let ghost head = text@;
    match endpoint.endpoint_format() {
        Some(format) => {
            text.append("  Mix format: ");
            push_decimal(&mut text, format.sample_rate as u64);
            text.append(" Hz, ");
            push_decimal(&mut text, format.bits_per_sample as u64);
            text.append(" bit, ");
            push_decimal(&mut text, format.channels as u64);
            text.append(" channels\n  Channel mask: 0x");
            push_upper_hex(&mut text, format.channel_mask);
            text.append("\n");
            assert(text@ =~= head + format_lines(*endpoint));
        },
        None => {
            text.append("  Mix format: unavailable\n");
        },
    }
    assert(text@ =~= endpoint_text(index as nat, *endpoint));
    text
}

/// What is told of an error that ends a trial.
pub open spec fn failure_text(context: Seq<char>, fault: WindowsFault) -> Seq<char> {
    context + ": "@ + fault_text(fault) + match fault.code() {
        Some(code) => "\nHRESULT: 0x"@ + upper_hex_text(code as u32),
        None => Seq::empty(),
    } + match fault.endpoint() {
        Some(endpoint) => "\nEndpoint ID: "@ + endpoint,
        None => Seq::empty(),
    }
}

/// What is told of an error that ends a trial.
pub fn describe_failure(context: &str, error: &WindowsAudioError) -> (text: String)
    ensures
        text@ == failure_text(context@, error@),
{
    let mut text = joined(context, ": ");
    text.append(error.message().as_str());
    if let Some(hresult) = error.hresult() {
        text.append("\nHRESULT: 0x");
        push_upper_hex(&mut text, hresult as u32);
    }
    if let Some(endpoint) = error.endpoint_id() {
        text.append("\nEndpoint ID: ");
        text.append(endpoint);
    }
    assert(text@ =~= failure_text(context@, error@));
    text
}

} // verus!
