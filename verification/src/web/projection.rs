//! What the console is told when it connects, and the levels that it shows.

use crate::arithmetic::{binary, call_binary, call_unary, is_binary, is_unary, unary};
use crate::decibels::Decibels;
use crate::routing::{
    copy_channel_map, optional_text, BusModel, BusSpec, GraphModel, SendEnds, SendModel, SendSpec,
    SinkKind, SinkModel, SinkSpec, SourceKind, SourceModel, SourceSpec, INTERNAL_SAMPLE_RATE,
};
use crate::runtime::status::state_name;
use crate::service::state::{HubModel, StateHub};
use crate::text::{
    lemma_order_is_total, lemma_order_is_transitive, order_texts, text_before, TextOrder,
};
use vstd::prelude::*;
use vstd::utf8::{encode_utf8, encode_utf8_decode_utf8};

verus! {

/// A source, as the console is told.
#[derive(Debug, PartialEq, Eq)]
pub struct SourceDto {
    pub id: String,
    pub kind: String,
    pub display_name: String,
    pub endpoint_id: Option<String>,
    pub process_id: Option<u32>,
}

/// A bus, as the console is told.
#[derive(Debug, PartialEq, Eq)]
pub struct OutputChannelDto {
    pub id: String,
    pub display_name: String,
}

/// A sink, as the console is told.
#[derive(Debug, PartialEq, Eq)]
pub struct ExternalOutputDto {
    pub id: String,
    pub endpoint_id: String,
    pub display_name: String,
    pub kind: String,
}

/// A send, as the console is told.
#[derive(Debug, PartialEq, Eq)]
pub struct SendDto {
    pub send_id: String,
    pub source: Option<String>,
    pub output_channel: Option<String>,
    pub external_output: Option<String>,
    pub gain_db: Decibels,
    pub muted: bool,
    pub enabled: bool,
    pub channel_map: Vec<(u16, u16)>,
}

/// Everything that the console is told when it connects.
#[derive(Debug, PartialEq, Eq)]
pub struct InitialState {
    pub state_revision: u64,
    pub engine_status: String,
    pub sample_rate: u32,
    pub sources: Vec<SourceDto>,
    pub output_channels: Vec<OutputChannelDto>,
    pub external_outputs: Vec<ExternalOutputDto>,
    pub sends: Vec<SendDto>,
}

/// The name of a kind of source.
pub open spec fn source_kind_name(kind: SourceKind) -> Seq<char> {
    match kind {
        SourceKind::DeviceCapture => "device_capture"@,
        SourceKind::DeviceLoopback => "device_loopback"@,
        SourceKind::ProcessLoopback => "process_loopback"@,
        SourceKind::Vban => "vban"@,
    }
}

/// The name of a kind of source.
pub fn source_kind_str(kind: &SourceKind) -> (name: &'static str)
    ensures
        name@ == source_kind_name(*kind),
{
    match kind {
        SourceKind::DeviceCapture => "device_capture",
        SourceKind::DeviceLoopback => "device_loopback",
        SourceKind::ProcessLoopback => "process_loopback",
        SourceKind::Vban => "vban",
    }
}

/// The name of a kind of sink.
pub open spec fn sink_kind_name(kind: SinkKind) -> Seq<char> {
    match kind {
        SinkKind::Device => "device"@,
        SinkKind::Vban => "vban"@,
    }
}

/// The name of a kind of sink.
pub fn sink_kind_str(kind: &SinkKind) -> (name: &'static str)
    ensures
        name@ == sink_kind_name(*kind),
{
    match kind {
        SinkKind::Device => "device",
        SinkKind::Vban => "vban",
    }
}

/// Whether a source is told as it is.
pub open spec fn tells_source(dto: SourceDto, source: SourceModel) -> bool {
    &&& dto.id@ == source.id
    &&& dto.kind@ == source_kind_name(source.kind)
    &&& dto.display_name@ == source.display_name
    &&& optional_text(dto.endpoint_id) == source.endpoint_id
    &&& dto.process_id == source.process_id
}

/// Whether a bus is told as it is.
pub open spec fn tells_bus(dto: OutputChannelDto, bus: BusModel) -> bool {
    dto.id@ == bus.id && dto.display_name@ == bus.display_name
}

/// Whether a sink is told as it is.
pub open spec fn tells_sink(dto: ExternalOutputDto, sink: SinkModel) -> bool {
    &&& dto.id@ == sink.id
    &&& dto.endpoint_id@ == sink.endpoint_id
    &&& dto.display_name@ == sink.display_name
    &&& dto.kind@ == sink_kind_name(sink.kind)
}

/// Whether a send is told as it is.
pub open spec fn tells_send(dto: SendDto, send: SendModel) -> bool {
    &&& dto.send_id@ == send.id
    &&& dto.gain_db == send.gain_db
    &&& dto.muted == send.muted
    &&& dto.enabled == send.enabled
    &&& dto.channel_map@ == send.channel_map
    &&& match send.ends {
        SendEnds::SourceToBus { source_id, bus_id } => {
            &&& optional_text(dto.source) == Some(source_id)
            &&& optional_text(dto.output_channel) == Some(bus_id)
            &&& dto.external_output is None
        },
        SendEnds::BusToSink { bus_id, sink_id } => {
            &&& dto.source is None
            &&& optional_text(dto.output_channel) == Some(bus_id)
            &&& optional_text(dto.external_output) == Some(sink_id)
        },
    }
}

/// Whether a graph is told as it is, each part in its order.
pub open spec fn tells_graph(state: InitialState, graph: GraphModel) -> bool {
    &&& state.sources@.len() == graph.sources.len()
    &&& forall|i: int|
        0 <= i < graph.sources.len() ==> tells_source(
            #[trigger] state.sources@[i],
            graph.sources[i],
        )
    &&& state.output_channels@.len() == graph.buses.len()
    &&& forall|i: int|
        0 <= i < graph.buses.len() ==> tells_bus(
            #[trigger] state.output_channels@[i],
            graph.buses[i],
        )
    &&& state.external_outputs@.len() == graph.sinks.len()
    &&& forall|i: int|
        0 <= i < graph.sinks.len() ==> tells_sink(
            #[trigger] state.external_outputs@[i],
            graph.sinks[i],
        )
    &&& state.sends@.len() == graph.sends.len()
    &&& forall|i: int|
        0 <= i < graph.sends.len() ==> tells_send(#[trigger] state.sends@[i], graph.sends[i])
}

/// The name of the state of the engine; an engine that is not there has stopped.
pub open spec fn engine_state_name<B, W>(hub: HubModel<B, W>) -> Seq<char> {
    match hub.engine {
        Some(engine) => state_name(engine.engine.state),
        None => "stopped"@,
    }
}

fn source_dto(source: &SourceSpec) -> (dto: SourceDto)
    ensures
        tells_source(dto, source@),
{
    SourceDto {
        id: source.id.0.clone(),
        kind: source_kind_str(&source.kind).to_owned(),
        display_name: source.display_name.clone(),
        endpoint_id: match &source.endpoint_id {
            Some(id) => Some(id.0.clone()),
            None => None,
        },
        process_id: source.process_id,
    }
}

fn bus_dto(bus: &BusSpec) -> (dto: OutputChannelDto)
    ensures
        tells_bus(dto, bus@),
{
    OutputChannelDto { id: bus.id.0.clone(), display_name: bus.display_name.clone() }
}

fn sink_dto(sink: &SinkSpec) -> (dto: ExternalOutputDto)
    ensures
        tells_sink(dto, sink@),
{
    ExternalOutputDto {
        id: sink.id.0.clone(),
        endpoint_id: sink.endpoint_id.0.clone(),
        display_name: sink.display_name.clone(),
        kind: sink_kind_str(&sink.kind).to_owned(),
    }
}

fn send_dto(send: &SendSpec) -> (dto: SendDto)
    ensures
        tells_send(dto, send@),
{
    let (source, output_channel, external_output) = match send {
        SendSpec::SourceToBus { source_id, bus_id, .. } => (
            Some(source_id.0.clone()),
            Some(bus_id.0.clone()),
            None,
        ),
        SendSpec::BusToSink { bus_id, sink_id, .. } => (
            None,
            Some(bus_id.0.clone()),
            Some(sink_id.0.clone()),
        ),
    };
    SendDto {
        send_id: send.id().0.clone(),
        source,
        output_channel,
        external_output,
        gain_db: send.gain_db(),
        muted: send.muted(),
        enabled: send.enabled(),
        channel_map: copy_channel_map(send.channel_map()),
    }
}

/// Tells everything: the graph, the state of the engine and the revision.
pub fn build_initial_state<B, W>(hub: &StateHub<B, W>) -> (state: InitialState)
    ensures
        state.state_revision == hub@.revision,
        state.engine_status@ == engine_state_name(hub@),
        state.sample_rate == INTERNAL_SAMPLE_RATE,
        tells_graph(state, hub@.editor),
{
    let graph = hub.editor().draft();
    let engine_status = match hub.engine() {
        Some(engine) => engine.status().state.as_str().to_owned(),
        None => "stopped".to_owned(),
    };
    let mut sources: Vec<SourceDto> = Vec::new();
    for i in 0..graph.sources.len()
        invariant
            sources@.len() == i,
            forall|j: int|
                0 <= j < i ==> tells_source(#[trigger] sources@[j], graph.sources@[j]@),
    {
        sources.push(source_dto(&graph.sources[i]));
    }
    let mut output_channels: Vec<OutputChannelDto> = Vec::new();
    for i in 0..graph.buses.len()
        invariant
            output_channels@.len() == i,
            forall|j: int|
                0 <= j < i ==> tells_bus(#[trigger] output_channels@[j], graph.buses@[j]@),
    {
        output_channels.push(bus_dto(&graph.buses[i]));
    }
    let mut external_outputs: Vec<ExternalOutputDto> = Vec::new();
    for i in 0..graph.sinks.len()
        invariant
            external_outputs@.len() == i,
            forall|j: int|
                0 <= j < i ==> tells_sink(#[trigger] external_outputs@[j], graph.sinks@[j]@),
    {
        external_outputs.push(sink_dto(&graph.sinks[i]));
    }
    let mut sends: Vec<SendDto> = Vec::new();
    for i in 0..graph.sends.len()
        invariant
            sends@.len() == i,
            forall|j: int| 0 <= j < i ==> tells_send(#[trigger] sends@[j], graph.sends@[j]@),
    {
        sends.push(send_dto(&graph.sends[i]));
    }
    InitialState {
        state_revision: hub.revision(),
        engine_status,
        sample_rate: INTERNAL_SAMPLE_RATE,
        sources,
        output_channels,
        external_outputs,
        sends,
    }
}

/// The levels of a send, in dB below full scale, as the bit patterns of IEEE-754 singles.
#[derive(Debug, PartialEq, Eq)]
pub struct MeterNode {
    pub id: String,
    pub peak_db: u32,
    pub rms_db: u32,
}

/// What a `MeterNode` says.
#[verifier::ext_equal]
pub struct MeterModel {
    pub id: Seq<char>,
    pub peak_db: u32,
    pub rms_db: u32,
}

impl View for MeterNode {
    type V = MeterModel;

    open spec fn view(&self) -> MeterModel {
        MeterModel { id: self.id@, peak_db: self.peak_db, rms_db: self.rms_db }
    }
}

/// The levels of some sends.
pub open spec fn meter_models(nodes: Seq<MeterNode>) -> Seq<MeterModel> {
    nodes.map_values(|n: MeterNode| n@)
}

/// The four bytes of a number, the lowest first.
pub open spec fn four_bytes(n: u32) -> Seq<u8> {
    seq![
        (n % 0x100) as u8,
        (n / 0x100 % 0x100) as u8,
        (n / 0x1_0000 % 0x100) as u8,
        (n / 0x100_0000) as u8,
    ]
}

/// A count in one byte; what is more counts as 255.
pub open spec fn byte_count(n: nat) -> u8 {
    if n < 255 {
        n as u8
    } else {
        255
    }
}

/// The bytes of an identifier; of a longer one the first 255.
pub open spec fn id_bytes(id: Seq<char>) -> Seq<u8> {
    encode_utf8(id).take(byte_count(encode_utf8(id).len()) as int)
}

/// The bytes of the levels of a send: the length of its identifier, the identifier, the
/// peak and the mean.
pub open spec fn meter_bytes(node: MeterModel) -> Seq<u8> {
    seq![byte_count(encode_utf8(node.id).len())] + id_bytes(node.id) + four_bytes(node.peak_db)
        + four_bytes(node.rms_db)
}

/// The bytes of the levels of some sends.
pub open spec fn all_meter_bytes(nodes: Seq<MeterModel>, n: nat) -> Seq<u8>
    decreases n,
{
    if n == 0 {
        Seq::empty()
    } else {
        all_meter_bytes(nodes, (n - 1) as nat) + meter_bytes(nodes[n - 1])
    }
}

/// A frame: its kind, the number of sends, the time and the levels of so many sends.
pub open spec fn meter_frame(nodes: Seq<MeterModel>, timestamp_ms: u32) -> Seq<u8> {
    seq![1u8, byte_count(nodes.len())] + four_bytes(timestamp_ms) + all_meter_bytes(
        nodes,
        byte_count(nodes.len()) as nat,
    )
}

fn push_four(bytes: &mut Vec<u8>, n: u32)
    ensures
        final(bytes)@ == old(bytes)@ + four_bytes(n),
{
    let ghost before = bytes@;
    bytes.push((n % 0x100) as u8);
    bytes.push((n / 0x100 % 0x100) as u8);
    bytes.push((n / 0x1_0000 % 0x100) as u8);
    bytes.push((n / 0x100_0000) as u8);
    assert(bytes@ =~= before + four_bytes(n));
}

/// A count in one byte; what is more counts as 255.
fn one_byte(count: usize) -> (byte: u8)
    ensures
        byte == byte_count(count as nat),
{
    if count < 255 {
        count as u8
    } else {
        255
    }
}

fn push_text(bytes: &mut Vec<u8>, text: &str)
    ensures
        final(bytes)@ == old(bytes)@ + seq![byte_count(encode_utf8(text@).len())] + id_bytes(text@),
{
    let ghost before = bytes@;
    let encoded = text.as_bytes();
    let count = one_byte(encoded.len());
    bytes.push(count);
    let ghost counted = bytes@;
    for i in 0..count
        invariant
            count <= encoded@.len(),
            bytes@ =~= counted + encoded@.take(i as int),
    {
        bytes.push(encoded[i as usize]);
    }
    assert(bytes@ =~= before + seq![byte_count(encode_utf8(text@).len())] + id_bytes(text@));
}

/// Writes a frame of levels: of the first 255 sends where there are more.
pub fn encode_meter_frame(nodes: &[MeterNode], timestamp_ms: u32) -> (frame: Vec<u8>)
    ensures
        frame@ == meter_frame(meter_models(nodes@), timestamp_ms),
{
    let ghost models = meter_models(nodes@);
    let count = one_byte(nodes.len());
    let mut frame: Vec<u8> = Vec::new();
    frame.push(1);
    frame.push(count);
    push_four(&mut frame, timestamp_ms);
    let ghost head = frame@;
    assert(head =~= seq![1u8, byte_count(models.len())] + four_bytes(timestamp_ms));
    for i in 0..count
        invariant
            count <= nodes@.len(),
            models == meter_models(nodes@),
            frame@ =~= head + all_meter_bytes(models, i as nat),
    {
        let ghost before = frame@;
        let node = &nodes[i as usize];
        push_text(&mut frame, node.id.as_str());
        push_four(&mut frame, node.peak_db);
        push_four(&mut frame, node.rms_db);
        assert(models[i as int] == nodes@[i as int]@);
        assert(frame@ =~= before + meter_bytes(models[i as int]));
    }
    frame
}

/// The levels that were measured on a send, for the left and the right channel. Levels
/// are the bit patterns of IEEE-754 singles.
#[derive(Debug, PartialEq, Eq)]
pub struct SendLevels {
    pub id: String,
    pub peaks: (u32, u32),
    /// The means; a send without them is silent.
    pub rms: Option<(u32, u32)>,
}

/// What is made of levels.
pub struct MeterOps<L: Fn(u32, u32) -> u32, D: Fn(u32) -> u32> {
    /// The larger of two levels.
    pub louder: L,
    /// A level in dB below full scale.
    pub to_db: D,
}

/// Whether the operations give one result each.
pub open spec fn meter_ops_fit<L: Fn(u32, u32) -> u32, D: Fn(u32) -> u32>(
    ops: MeterOps<L, D>,
) -> bool {
    is_binary::<u32, u32, u32, L>(ops.louder) && is_unary::<u32, u32, D>(ops.to_db)
}

/// The level of the louder channel, in dB.
pub open spec fn loudness<L: Fn(u32, u32) -> u32, D: Fn(u32) -> u32>(
    ops: MeterOps<L, D>,
    levels: (u32, u32),
) -> u32 {
    unary(ops.to_db, binary(ops.louder, levels.0, levels.1))
}

/// What is shown of a send.
pub open spec fn metered<L: Fn(u32, u32) -> u32, D: Fn(u32) -> u32>(
    ops: MeterOps<L, D>,
    levels: SendLevels,
) -> MeterModel {
    MeterModel {
        id: levels.id@,
        peak_db: loudness(ops, levels.peaks),
        rms_db: loudness(
            ops,
            match levels.rms {
                Some(rms) => rms,
                None => (0, 0),
            },
        ),
    }
}

/// Whether no send stands behind one with a larger identifier.
pub open spec fn meters_in_order(nodes: Seq<MeterModel>) -> bool {
    forall|i: int, j: int|
        0 <= i < j < nodes.len() ==> !text_before(
            (#[trigger] nodes[j]).id,
            (#[trigger] nodes[i]).id,
        )
}

/// What is shown of some sends.
pub open spec fn all_metered<L: Fn(u32, u32) -> u32, D: Fn(u32) -> u32>(
    ops: MeterOps<L, D>,
    levels: Seq<SendLevels>,
) -> Seq<MeterModel> {
    levels.map_values(|l: SendLevels| metered(ops, l))
}

proof fn lemma_inserted(nodes: Seq<MeterModel>, at: int, node: MeterModel)
    requires
        meters_in_order(nodes),
        0 <= at <= nodes.len(),
        forall|i: int| 0 <= i < at ==> !text_before(node.id, (#[trigger] nodes[i]).id),
        at < nodes.len() ==> text_before(node.id, nodes[at].id),
    ensures
        meters_in_order(nodes.insert(at, node)),
{
    let after = nodes.insert(at, node);
    assert forall|i: int, j: int| 0 <= i < j < after.len() implies !text_before(
        (#[trigger] after[j]).id,
        (#[trigger] after[i]).id,
    ) by {
        let a = if i < at {
            i
        } else {
            i - 1
        };
        let b = if j < at {
            j
        } else {
            j - 1
        };
        if j == at {
            assert(after[i] == nodes[i]);
        } else if i == at {
            assert(after[j] == nodes[b]);
            lemma_order_is_total(node.id, nodes[b].id);
            if b > at {
                assert(!text_before(nodes[b].id, nodes[at].id));
                lemma_order_is_total(nodes[at].id, nodes[b].id);
                if text_before(nodes[at].id, nodes[b].id) {
                    lemma_order_is_transitive(node.id, nodes[at].id, nodes[b].id);
                }
            }
        } else {
            assert(after[i] == nodes[a]);
            assert(after[j] == nodes[b]);
        }
    }
}

/// Whether some meters are those of some sends, in the order of their identifiers.
pub open spec fn are_sorted_meters(nodes: Seq<MeterModel>, all: Seq<MeterModel>) -> bool {
    meters_in_order(nodes) && nodes.to_multiset() == all.to_multiset()
}

fn meter_place(nodes: &Vec<MeterNode>, id: &String) -> (at: usize)
    ensures
        at <= nodes@.len(),
        forall|i: int| 0 <= i < at ==> !text_before(id@, (#[trigger] nodes@[i]).id@),
        at < nodes@.len() ==> text_before(id@, nodes@[at as int].id@),
{
    let count = nodes.len();
    for i in 0..count
        invariant
            count == nodes@.len(),
            forall|j: int| 0 <= j < i ==> !text_before(id@, (#[trigger] nodes@[j]).id@),
    {
        if order_texts(id, &nodes[i].id) == TextOrder::Before {
            return i;
        }
    }
    count
}

/// What is shown of some sends, in the order of their identifiers.
pub fn metered_in_order<L: Fn(u32, u32) -> u32, D: Fn(u32) -> u32>(
    levels: &[SendLevels],
    ops: &MeterOps<L, D>,
) -> (nodes: Vec<MeterNode>)
    requires
        meter_ops_fit(*ops),
    ensures
        are_sorted_meters(meter_models(nodes@), all_metered(*ops, levels@)),
{
    let ghost all = all_metered(*ops, levels@);
    let mut nodes: Vec<MeterNode> = Vec::new();
    assert(meter_models(nodes@) =~= all.take(0));
    for i in 0..levels.len()
        invariant
            meter_ops_fit(*ops),
            all == all_metered(*ops, levels@),
            meters_in_order(meter_models(nodes@)),
            meter_models(nodes@).to_multiset() == all.take(i as int).to_multiset(),
    {
        let ghost before = meter_models(nodes@);
        let peak = call_binary(&ops.louder, levels[i].peaks.0, levels[i].peaks.1);
        let rms = match levels[i].rms {
            Some(rms) => rms,
            None => (0, 0),
        };
        let mean = call_binary(&ops.louder, rms.0, rms.1);
        let node = MeterNode {
            id: levels[i].id.clone(),
            peak_db: call_unary(&ops.to_db, peak),
            rms_db: call_unary(&ops.to_db, mean),
        };
        let ghost model = node@;
        assert(model == all[i as int]);
        let at = meter_place(&nodes, &node.id);
        proof {
            assert forall|k: int| 0 <= k < at implies !text_before(
                model.id,
                (#[trigger] before[k]).id,
            ) by {
                assert(before[k] == nodes@[k]@);
            }
            lemma_inserted(before, at as int, model);
        }
        nodes.insert(at, node);
        assert(meter_models(nodes@) =~= before.insert(at as int, model));
        assert(all.take(i + 1) =~= all.take(i as int).push(all[i as int]));
        proof {
            vstd::seq_lib::to_multiset_insert(before, at as int, model);
            vstd::seq_lib::to_multiset_build(all.take(i as int), model);
        }
    }
    assert(all.take(all.len() as int) =~= all);
    nodes
}

/// Whether a frame shows some sends, in the order of their identifiers.
pub open spec fn shows_levels(frame: Seq<u8>, all: Seq<MeterModel>, timestamp_ms: u32) -> bool {
    exists|nodes: Seq<MeterModel>|
        are_sorted_meters(nodes, all) && frame == #[trigger] meter_frame(nodes, timestamp_ms)
}

/// Writes a frame of the levels of an engine; one of no sends where there is no engine.
pub fn build_meter_frame<L: Fn(u32, u32) -> u32, D: Fn(u32) -> u32>(
    levels: Option<&[SendLevels]>,
    timestamp_ms: u32,
    ops: &MeterOps<L, D>,
) -> (frame: Vec<u8>)
    requires
        meter_ops_fit(*ops),
    ensures
        match levels {
            Some(levels) => shows_levels(frame@, all_metered(*ops, levels@), timestamp_ms),
            None => frame@ == meter_frame(Seq::empty(), timestamp_ms),
        },
{
    match levels {
        Some(levels) => {
            let nodes = metered_in_order(levels, ops);
            encode_meter_frame(nodes.as_slice(), timestamp_ms)
        },
        None => {
            let nodes: Vec<MeterNode> = Vec::new();
            assert(meter_models(nodes@) =~= Seq::empty());
            encode_meter_frame(nodes.as_slice(), timestamp_ms)
        },
    }
}

/// Whether everything in a frame is counted as it is: at most 255 sends, and identifiers
/// of at most 255 bytes.
pub open spec fn frame_counts_fit(nodes: Seq<MeterModel>) -> bool {
    &&& nodes.len() <= 255
    &&& forall|i: int|
        0 <= i < nodes.len() ==> encode_utf8((#[trigger] nodes[i]).id).len() <= 255
}

proof fn lemma_four_bytes(n: u32, m: u32)
    requires
        four_bytes(n) == four_bytes(m),
    ensures
        n == m,
{
    assert(four_bytes(n)[0] == four_bytes(m)[0]);
    assert(four_bytes(n)[1] == four_bytes(m)[1]);
    assert(four_bytes(n)[2] == four_bytes(m)[2]);
    assert(four_bytes(n)[3] == four_bytes(m)[3]);
}

proof fn lemma_first_meter(nodes: Seq<MeterModel>, n: nat)
    requires
        0 < n <= nodes.len(),
    ensures
        all_meter_bytes(nodes, n) == meter_bytes(nodes[0]) + all_meter_bytes(
            nodes.skip(1),
            (n - 1) as nat,
        ),
    decreases n,
{
    reveal_with_fuel(all_meter_bytes, 2);
    if n > 1 {
        lemma_first_meter(nodes, (n - 1) as nat);
        assert(nodes.skip(1)[n - 2] == nodes[n - 1]);
        assert(all_meter_bytes(nodes, n) =~= meter_bytes(nodes[0]) + all_meter_bytes(
            nodes.skip(1),
            (n - 1) as nat,
        ));
    } else {
        assert(all_meter_bytes(nodes, n) =~= meter_bytes(nodes[0]) + all_meter_bytes(
            nodes.skip(1),
            (n - 1) as nat,
        ));
    }
}

proof fn lemma_meter_reads_back(a: MeterModel, b: MeterModel, more: Seq<u8>, rest: Seq<u8>)
    requires
        encode_utf8(a.id).len() <= 255,
        encode_utf8(b.id).len() <= 255,
        meter_bytes(a) + more == meter_bytes(b) + rest,
    ensures
        a == b,
        more == rest,
{
    let x = meter_bytes(a) + more;
    let y = meter_bytes(b) + rest;
    let n = encode_utf8(a.id).len() as int;
    assert(x[0] == y[0]);
    assert(x[0] == byte_count(encode_utf8(a.id).len()));
    assert(y[0] == byte_count(encode_utf8(b.id).len()));
    assert(n == encode_utf8(b.id).len());
    assert(id_bytes(a.id) =~= encode_utf8(a.id));
    assert(id_bytes(b.id) =~= encode_utf8(b.id));
    assert(x.subrange(1, 1 + n) =~= encode_utf8(a.id));
    assert(y.subrange(1, 1 + n) =~= encode_utf8(b.id));
    encode_utf8_decode_utf8(a.id);
    encode_utf8_decode_utf8(b.id);
    assert(x.subrange(1 + n, 5 + n) =~= four_bytes(a.peak_db));
    assert(y.subrange(1 + n, 5 + n) =~= four_bytes(b.peak_db));
    lemma_four_bytes(a.peak_db, b.peak_db);
    assert(x.subrange(5 + n, 9 + n) =~= four_bytes(a.rms_db));
    assert(y.subrange(5 + n, 9 + n) =~= four_bytes(b.rms_db));
    lemma_four_bytes(a.rms_db, b.rms_db);
    assert(x.skip(9 + n) =~= more);
    assert(y.skip(9 + n) =~= rest);
}

proof fn lemma_meters_read_back(a: Seq<MeterModel>, b: Seq<MeterModel>)
    requires
        a.len() == b.len(),
        frame_counts_fit(a),
        frame_counts_fit(b),
        all_meter_bytes(a, a.len()) == all_meter_bytes(b, b.len()),
    ensures
        a == b,
    decreases a.len(),
{
    if a.len() > 0 {
        let n = (a.len() - 1) as nat;
        lemma_first_meter(a, a.len());
        lemma_first_meter(b, b.len());
        lemma_meter_reads_back(
            a[0],
            b[0],
            all_meter_bytes(a.skip(1), n),
            all_meter_bytes(b.skip(1), n),
        );
        assert forall|i: int| 0 <= i < n implies encode_utf8((#[trigger] a.skip(1)[i]).id).len()
            <= 255 by {
            assert(a.skip(1)[i] == a[i + 1]);
        }
        assert forall|i: int| 0 <= i < n implies encode_utf8((#[trigger] b.skip(1)[i]).id).len()
            <= 255 by {
            assert(b.skip(1)[i] == b[i + 1]);
        }
        lemma_meters_read_back(a.skip(1), b.skip(1));
        assert(a =~= seq![a[0]] + a.skip(1));
        assert(b =~= seq![b[0]] + b.skip(1));
    } else {
        assert(a =~= b);
    }
}

/// A frame can be read: it starts with its kind, the number of sends and the time, and no
/// other sends and levels have the same frame.
pub proof fn law_frame_reads_back(
    a: Seq<MeterModel>,
    first_ms: u32,
    b: Seq<MeterModel>,
    second_ms: u32,
)
    requires
        frame_counts_fit(a),
        frame_counts_fit(b),
    ensures
        meter_frame(a, first_ms)[0] == 1,
        meter_frame(a, first_ms)[1] == a.len(),
        meter_frame(a, first_ms).subrange(2, 6) == four_bytes(first_ms),
        meter_frame(a, first_ms) == meter_frame(b, second_ms) ==> a == b && first_ms == second_ms,
{
    let x = meter_frame(a, first_ms);
    let y = meter_frame(b, second_ms);
    assert(x.subrange(2, 6) =~= four_bytes(first_ms));
    assert(y.subrange(2, 6) =~= four_bytes(second_ms));
    if x == y {
        assert(x[1] == y[1]);
        assert(y[1] == byte_count(b.len()));
        lemma_four_bytes(first_ms, second_ms);
        assert(x.skip(6) =~= all_meter_bytes(a, a.len()));
        assert(y.skip(6) =~= all_meter_bytes(b, b.len()));
        lemma_meters_read_back(a, b);
    }
}

/// Where the part of a frame behind `n` levels starts, that of the first level starting at
/// `at`.
pub open spec fn behind_levels(frame: Seq<u8>, at: int, n: nat) -> int
    decreases n,
{
    if n == 0 {
        at
    } else {
        let last = behind_levels(frame, at, (n - 1) as nat);
        last + 1 + frame[last] + 8
    }
}

proof fn lemma_behind_levels(nodes: Seq<MeterModel>, head: Seq<u8>, n: nat, all: nat)
    requires
        n <= all <= nodes.len(),
    ensures
        behind_levels(head + all_meter_bytes(nodes, all), head.len() as int, n) == head.len()
            + all_meter_bytes(nodes, n).len(),
        all_meter_bytes(nodes, n).is_prefix_of(all_meter_bytes(nodes, all)),
    decreases all, n,
{
    if n < all {
        lemma_behind_levels(nodes, head, n, (all - 1) as nat);
    }
    if n > 0 {
        lemma_behind_levels(nodes, head, (n - 1) as nat, all);
        if n == all {
            assert(all_meter_bytes(nodes, n) =~= all_meter_bytes(nodes, all));
        }
        let frame = head + all_meter_bytes(nodes, all);
        let last = all_meter_bytes(nodes, (n - 1) as nat).len() as int;
        assert(all_meter_bytes(nodes, n)[last] == meter_bytes(nodes[n - 1])[0]);
        assert(frame[head.len() + last] == all_meter_bytes(nodes, n)[last]);
    }
}

/// Whatever sends there are, exactly as many levels follow the head of a frame as its
/// second byte says.
pub proof fn law_frame_holds_as_many_as_it_says(nodes: Seq<MeterModel>, timestamp_ms: u32)
    ensures
        ({
            let frame = meter_frame(nodes, timestamp_ms);
            behind_levels(frame, 6, frame[1] as nat) == frame.len()
        }),
{
    let count = byte_count(nodes.len());
    let head = seq![1u8, count] + four_bytes(timestamp_ms);
    assert(meter_frame(nodes, timestamp_ms)[1] == count);
    lemma_behind_levels(nodes, head, count as nat, count as nat);
}

} // verus!
