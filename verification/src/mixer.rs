//! Mixing fixed blocks in two stages: sources into buses, buses into sinks.
//!
//! A `MixerPlan` is compiled from a routing graph away from the audio thread.
//! Compiling resolves identifiers, gains and channel maps; processing a block then
//! neither allocates nor waits.

pub mod laws;

use crate::arithmetic::{binary, call_binary, call_unary, is_binary, is_unary, unary};
use crate::decibels::Decibels;
use crate::faults::{first_fault, lemma_first_fault_at, lemma_first_fault_none, or_fault};
use crate::routing::{
    bus_index, graph_fault_text, shown_gain, sink_index, source_index, GraphFault, GraphModel,
    RouteGraph, RouteGraphError, SendEnds, SendId, SendModel, SendSpec,
};
use crate::text::{decimal_text, joined, push_decimal};
use vstd::arithmetic::div_mod::{
    lemma_div_is_ordered, lemma_fundamental_div_mod, lemma_fundamental_div_mod_converse,
};
use vstd::prelude::*;
use vstd::string::StringExecFns;

verus! {

/// Why a plan cannot be compiled or a block cannot be mixed.
#[derive(Debug, PartialEq, Eq)]
pub enum MixerError {
    ZeroBlockFrames,
    ZeroSourceChannels,
    ZeroSinkChannels,
    Graph(RouteGraphError),
    SourceChannelOutOfRange { send_index: usize, channel: u16, channels: usize },
    BusChannelOutOfRange { send_index: usize, channel: u16, channels: usize },
    SinkChannelOutOfRange { send_index: usize, channel: u16, channels: usize },
    SourceCountMismatch { expected: usize, actual: usize },
    SinkCountMismatch { expected: usize, actual: usize },
    SourceBlockLength { index: usize, expected: usize, actual: usize },
    SourceBlockUnaligned { index: usize, samples: usize, channels: usize },
    SinkBlockLength { index: usize, expected: usize, actual: usize },
    BlockSampleCountOverflow,
}

/// What a `MixerError` says.
#[verifier::ext_equal]
pub enum MixerFault {
    ZeroBlockFrames,
    ZeroSourceChannels,
    ZeroSinkChannels,
    Graph(GraphFault),
    SourceChannelOutOfRange { send_index: int, channel: u16, channels: int },
    BusChannelOutOfRange { send_index: int, channel: u16, channels: int },
    SinkChannelOutOfRange { send_index: int, channel: u16, channels: int },
    SourceCountMismatch { expected: int, actual: int },
    SinkCountMismatch { expected: int, actual: int },
    SourceBlockLength { index: int, expected: int, actual: int },
    SourceBlockUnaligned { index: int, samples: int, channels: int },
    SinkBlockLength { index: int, expected: int, actual: int },
    BlockSampleCountOverflow,
}

impl View for MixerError {
    type V = MixerFault;

    open spec fn view(&self) -> MixerFault {
        match *self {
            MixerError::ZeroBlockFrames => MixerFault::ZeroBlockFrames,
            MixerError::ZeroSourceChannels => MixerFault::ZeroSourceChannels,
            MixerError::ZeroSinkChannels => MixerFault::ZeroSinkChannels,
            MixerError::Graph(e) => MixerFault::Graph(e@),
            MixerError::SourceChannelOutOfRange { send_index, channel, channels } =>
                MixerFault::SourceChannelOutOfRange {
                    send_index: send_index as int,
                    channel,
                    channels: channels as int,
                },
            MixerError::BusChannelOutOfRange { send_index, channel, channels } =>
                MixerFault::BusChannelOutOfRange {
                    send_index: send_index as int,
                    channel,
                    channels: channels as int,
                },
            MixerError::SinkChannelOutOfRange { send_index, channel, channels } =>
                MixerFault::SinkChannelOutOfRange {
                    send_index: send_index as int,
                    channel,
                    channels: channels as int,
                },
            MixerError::SourceCountMismatch { expected, actual } =>
                MixerFault::SourceCountMismatch { expected: expected as int, actual: actual as int },
            MixerError::SinkCountMismatch { expected, actual } => MixerFault::SinkCountMismatch {
                expected: expected as int,
                actual: actual as int,
            },
            MixerError::SourceBlockLength { index, expected, actual } =>
                MixerFault::SourceBlockLength {
                    index: index as int,
                    expected: expected as int,
                    actual: actual as int,
                },
            MixerError::SourceBlockUnaligned { index, samples, channels } =>
                MixerFault::SourceBlockUnaligned {
                    index: index as int,
                    samples: samples as int,
                    channels: channels as int,
                },
            MixerError::SinkBlockLength { index, expected, actual } =>
                MixerFault::SinkBlockLength {
                    index: index as int,
                    expected: expected as int,
                    actual: actual as int,
                },
            MixerError::BlockSampleCountOverflow => MixerFault::BlockSampleCountOverflow,
        }
    }
}

/// The operations on samples that mixing makes.
pub struct SampleOps<M, A, G, L> {
    /// A sample times a linear gain.
    pub scale: M,
    /// The sum of two samples.
    pub add: A,
    /// The magnitude of a sample.
    pub magnitude: G,
    /// Whether the first magnitude is larger than the second.
    pub louder: L,
}

/// What the operations of a `SampleOps` give.
#[verifier::reject_recursive_types(S)]
pub struct Arithmetic<S> {
    pub scale: spec_fn(S, S) -> S,
    pub add: spec_fn(S, S) -> S,
    pub magnitude: spec_fn(S) -> S,
    pub louder: spec_fn(S, S) -> bool,
}

/// Every operation is defined everywhere and gives one result.
pub open spec fn ops_are_functions<
    S,
    M: Fn(S, S) -> S,
    A: Fn(S, S) -> S,
    G: Fn(S) -> S,
    L: Fn(S, S) -> bool,
>(ops: SampleOps<M, A, G, L>) -> bool {
    &&& is_binary::<S, S, S, M>(ops.scale)
    &&& is_binary::<S, S, S, A>(ops.add)
    &&& is_unary::<S, S, G>(ops.magnitude)
    &&& is_binary::<S, S, bool, L>(ops.louder)
}

/// The results of the operations.
pub open spec fn arithmetic_of<
    S,
    M: Fn(S, S) -> S,
    A: Fn(S, S) -> S,
    G: Fn(S) -> S,
    L: Fn(S, S) -> bool,
>(ops: SampleOps<M, A, G, L>) -> Arithmetic<S> {
    Arithmetic {
        scale: |a: S, b: S| binary(ops.scale, a, b),
        add: |a: S, b: S| binary(ops.add, a, b),
        magnitude: |a: S| unary(ops.magnitude, a),
        louder: |a: S, b: S| binary(ops.louder, a, b),
    }
}

/// A compiled send: which input goes where, how loud, on which channels.
pub struct CompiledSend<S> {
    id: SendId,
    input_index: usize,
    output_index: usize,
    gain_linear: S,
    muted: bool,
    enabled: bool,
    pairs: Vec<(usize, usize)>,
}

/// What a `CompiledSend` says.
#[verifier::ext_equal]
pub struct LinkModel<S> {
    pub id: Seq<char>,
    pub input: int,
    pub output: int,
    pub gain: S,
    pub muted: bool,
    pub enabled: bool,
    /// The `(input, output)` channels that the send joins, in order.
    pub pairs: Seq<(usize, usize)>,
}

impl<S> LinkModel<S> {
    /// Whether the send takes part in the mix.
    pub open spec fn active(self) -> bool {
        self.enabled && !self.muted
    }

    /// Whether the send stays inside `inputs` and `outputs` blocks of the given channels.
    pub open spec fn fits(
        self,
        inputs: int,
        input_channels: int,
        outputs: int,
        output_channels: int,
    ) -> bool {
        &&& 0 <= self.input < inputs
        &&& 0 <= self.output < outputs
        &&& forall|p: int|
            0 <= p < self.pairs.len() ==> (#[trigger] self.pairs[p]).0 < input_channels
                && self.pairs[p].1 < output_channels
    }
}

impl<S> View for CompiledSend<S> {
    type V = LinkModel<S>;

    closed spec fn view(&self) -> LinkModel<S> {
        LinkModel {
            id: self.id@,
            input: self.input_index as int,
            output: self.output_index as int,
            gain: self.gain_linear,
            muted: self.muted,
            enabled: self.enabled,
            pairs: self.pairs@,
        }
    }
}

/// The sends that a list of compiled sends stands for.
pub open spec fn links<S>(sends: Seq<CompiledSend<S>>) -> Seq<LinkModel<S>> {
    sends.map_values(|s: CompiledSend<S>| s@)
}

/// The channel pairs that a channel map stands for: an empty map joins equal channels.
pub open spec fn channel_pairs(map: Seq<(u16, u16)>, inputs: nat, outputs: nat) -> Seq<
    (usize, usize),
> {
    if map.len() == 0 {
        Seq::new(
            if inputs <= outputs {
                inputs
            } else {
                outputs
            },
            |c: int| (c as usize, c as usize),
        )
    } else {
        map.map_values(|p: (u16, u16)| (p.0 as usize, p.1 as usize))
    }
}

/// What a compiled plan says.
#[verifier::ext_equal]
pub struct PlanModel<S> {
    pub block_frames: nat,
    pub source_channels: nat,
    pub bus_channels: nat,
    pub sink_channels: nat,
    pub source_count: nat,
    pub bus_count: nat,
    pub sink_count: nat,
    pub silence: S,
    pub source_links: Seq<LinkModel<S>>,
    pub bus_links: Seq<LinkModel<S>>,
}

/// The larger of two channel counts.
pub open spec fn larger(a: nat, b: nat) -> nat {
    if a <= b {
        b
    } else {
        a
    }
}

/// The send that the first stage makes of `send`, for a send out of a source.
pub open spec fn source_link<S>(
    graph: GraphModel,
    send: SendModel,
    source_channels: nat,
    bus_channels: nat,
    linear: spec_fn(Decibels) -> S,
) -> LinkModel<S> {
    LinkModel {
        id: send.id,
        input: source_index(graph.sources, send.ends->source_id),
        output: bus_index(graph.buses, send.ends->SourceToBus_bus_id),
        gain: linear(send.gain_db),
        muted: send.muted,
        enabled: send.enabled,
        pairs: channel_pairs(send.channel_map, source_channels, bus_channels),
    }
}

/// The send that the second stage makes of `send`, for a send into a sink.
pub open spec fn bus_link<S>(
    graph: GraphModel,
    send: SendModel,
    bus_channels: nat,
    sink_channels: nat,
    linear: spec_fn(Decibels) -> S,
) -> LinkModel<S> {
    LinkModel {
        id: send.id,
        input: bus_index(graph.buses, send.ends->BusToSink_bus_id),
        output: sink_index(graph.sinks, send.ends->sink_id),
        gain: linear(send.gain_db),
        muted: send.muted,
        enabled: send.enabled,
        pairs: channel_pairs(send.channel_map, bus_channels, sink_channels),
    }
}

/// The first stage of the first `n` sends, in their order.
pub open spec fn source_links<S>(
    graph: GraphModel,
    n: nat,
    source_channels: nat,
    bus_channels: nat,
    linear: spec_fn(Decibels) -> S,
) -> Seq<LinkModel<S>>
    decreases n,
{
    if n == 0 {
        Seq::empty()
    } else {
        let before = source_links(graph, (n - 1) as nat, source_channels, bus_channels, linear);
        let send = graph.sends[n - 1];
        if send.ends is SourceToBus {
            before.push(source_link(graph, send, source_channels, bus_channels, linear))
        } else {
            before
        }
    }
}

/// The second stage of the first `n` sends, in their order.
pub open spec fn bus_links<S>(
    graph: GraphModel,
    n: nat,
    bus_channels: nat,
    sink_channels: nat,
    linear: spec_fn(Decibels) -> S,
) -> Seq<LinkModel<S>>
    decreases n,
{
    if n == 0 {
        Seq::empty()
    } else {
        let before = bus_links(graph, (n - 1) as nat, bus_channels, sink_channels, linear);
        let send = graph.sends[n - 1];
        if send.ends is BusToSink {
            before.push(bus_link(graph, send, bus_channels, sink_channels, linear))
        } else {
            before
        }
    }
}

/// What is wrong with the channel pair `p` of the send at `i`.
pub open spec fn pair_fault(
    graph: GraphModel,
    i: int,
    source_channels: nat,
    bus_channels: nat,
    sink_channels: nat,
    p: int,
) -> Option<MixerFault> {
    let (input, output) = graph.sends[i].channel_map[p];
    match graph.sends[i].ends {
        SendEnds::SourceToBus { .. } => if input >= source_channels {
            Some(
                MixerFault::SourceChannelOutOfRange {
                    send_index: i,
                    channel: input,
                    channels: source_channels as int,
                },
            )
        } else if output >= bus_channels {
            Some(
                MixerFault::BusChannelOutOfRange {
                    send_index: i,
                    channel: output,
                    channels: bus_channels as int,
                },
            )
        } else {
            None
        },
        SendEnds::BusToSink { .. } => if input >= bus_channels {
            Some(
                MixerFault::BusChannelOutOfRange {
                    send_index: i,
                    channel: input,
                    channels: bus_channels as int,
                },
            )
        } else if output >= sink_channels {
            Some(
                MixerFault::SinkChannelOutOfRange {
                    send_index: i,
                    channel: output,
                    channels: sink_channels as int,
                },
            )
        } else {
            None
        },
    }
}

/// The first channel of the send at `i` that is out of range.
pub open spec fn map_fault(
    graph: GraphModel,
    i: int,
    source_channels: nat,
    bus_channels: nat,
    sink_channels: nat,
) -> Option<MixerFault> {
    first_fault(
        graph.sends[i].channel_map.len(),
        |p: int| pair_fault(graph, i, source_channels, bus_channels, sink_channels, p),
    )
}

/// The fault of the graph, as the mixer reports it.
pub open spec fn graph_fault(graph: GraphModel) -> Option<MixerFault> {
    match graph.fault() {
        Some(fault) => Some(MixerFault::Graph(fault)),
        None => None,
    }
}

/// Why no plan comes of `graph`: the block's shape is looked at first, then its size,
/// the graph, and the channel maps in the order of the sends.
pub open spec fn plan_fault(
    graph: GraphModel,
    block_frames: nat,
    source_channels: nat,
    sink_channels: nat,
) -> Option<MixerFault> {
    let bus_channels = larger(source_channels, sink_channels);
    if block_frames == 0 {
        Some(MixerFault::ZeroBlockFrames)
    } else if source_channels == 0 {
        Some(MixerFault::ZeroSourceChannels)
    } else if sink_channels == 0 {
        Some(MixerFault::ZeroSinkChannels)
    } else if block_frames * bus_channels > usize::MAX || graph.buses.len() * (block_frames
        * bus_channels) > usize::MAX {
        Some(MixerFault::BlockSampleCountOverflow)
    } else {
        or_fault(
            graph_fault(graph),
            first_fault(
                graph.sends.len(),
                |i: int| map_fault(graph, i, source_channels, bus_channels, sink_channels),
            ),
        )
    }
}

/// The plan that comes of `graph` where nothing is wrong with it.
pub open spec fn plan_of<S>(
    graph: GraphModel,
    block_frames: nat,
    source_channels: nat,
    sink_channels: nat,
    silence: S,
    linear: spec_fn(Decibels) -> S,
) -> PlanModel<S> {
    let bus_channels = larger(source_channels, sink_channels);
    PlanModel {
        block_frames,
        source_channels,
        bus_channels,
        sink_channels,
        source_count: graph.sources.len(),
        bus_count: graph.buses.len(),
        sink_count: graph.sinks.len(),
        silence,
        source_links: source_links(
            graph,
            graph.sends.len(),
            source_channels,
            bus_channels,
            linear,
        ),
        bus_links: bus_links(graph, graph.sends.len(), bus_channels, sink_channels, linear),
    }
}

/// The frame `f` of an interleaved block.
pub open spec fn frame_of<S>(block: Seq<S>, channels: int, f: int) -> Seq<S> {
    block.subrange(f * channels, f * channels + channels)
}

/// One output sample after a send: every pair that ends at `channel` adds its scaled
/// input, in order.
pub open spec fn mixed_sample<S>(
    ops: Arithmetic<S>,
    before: S,
    frame: Seq<S>,
    gain: S,
    pairs: Seq<(usize, usize)>,
    channel: int,
) -> S
    decreases pairs.len(),
{
    if pairs.len() == 0 {
        before
    } else {
        let sum = mixed_sample(ops, before, frame, gain, pairs.drop_last(), channel);
        if pairs.last().1 == channel {
            (ops.add)(sum, (ops.scale)(frame[pairs.last().0 as int], gain))
        } else {
            sum
        }
    }
}

/// An output block after a send. Frames that the input lacks are left as they were.
pub open spec fn mixed_block<S>(
    ops: Arithmetic<S>,
    output: Seq<S>,
    output_channels: int,
    input: Seq<S>,
    input_channels: int,
    gain: S,
    pairs: Seq<(usize, usize)>,
) -> Seq<S> {
    Seq::new(
        output.len(),
        |k: int|
            if k / output_channels < input.len() as int / input_channels {
                mixed_sample(
                    ops,
                    output[k],
                    frame_of(input, input_channels, k / output_channels),
                    gain,
                    pairs,
                    k % output_channels,
                )
            } else {
                output[k]
            },
    )
}

/// The louder of `peak` and the magnitudes that a frame sends to `channel`.
pub open spec fn frame_peak<S>(
    ops: Arithmetic<S>,
    peak: S,
    frame: Seq<S>,
    gain: S,
    pairs: Seq<(usize, usize)>,
    channel: int,
) -> S
    decreases pairs.len(),
{
    if pairs.len() == 0 {
        peak
    } else {
        let so_far = frame_peak(ops, peak, frame, gain, pairs.drop_last(), channel);
        let magnitude = (ops.magnitude)((ops.scale)(frame[pairs.last().0 as int], gain));
        if pairs.last().1 == channel && (ops.louder)(magnitude, so_far) {
            magnitude
        } else {
            so_far
        }
    }
}

/// The loudest magnitude that the first `frames` frames of a block send to `channel`.
pub open spec fn block_peak<S>(
    ops: Arithmetic<S>,
    silence: S,
    input: Seq<S>,
    input_channels: int,
    gain: S,
    pairs: Seq<(usize, usize)>,
    channel: int,
    frames: nat,
) -> S
    decreases frames,
{
    if frames == 0 {
        silence
    } else {
        frame_peak(
            ops,
            block_peak(
                ops,
                silence,
                input,
                input_channels,
                gain,
                pairs,
                channel,
                (frames - 1) as nat,
            ),
            frame_of(input, input_channels, frames - 1),
            gain,
            pairs,
            channel,
        )
    }
}

/// A block of silence.
pub open spec fn silent_block<S>(silence: S, samples: nat) -> Seq<S> {
    Seq::new(samples, |k: int| silence)
}

/// The output block `target` after all `links`, in order, starting from `block`.
pub open spec fn stage<S>(
    ops: Arithmetic<S>,
    links: Seq<LinkModel<S>>,
    inputs: Seq<Seq<S>>,
    input_channels: int,
    output_channels: int,
    target: int,
    block: Seq<S>,
) -> Seq<S>
    decreases links.len(),
{
    if links.len() == 0 {
        block
    } else {
        let before = stage(
            ops,
            links.drop_last(),
            inputs,
            input_channels,
            output_channels,
            target,
            block,
        );
        let link = links.last();
        if link.active() && link.output == target {
            mixed_block(
                ops,
                before,
                output_channels,
                inputs[link.input],
                input_channels,
                link.gain,
                link.pairs,
            )
        } else {
            before
        }
    }
}

/// The peaks of a send on the first two channels; a send outside the mix has none.
pub open spec fn link_peaks<S>(
    ops: Arithmetic<S>,
    silence: S,
    link: LinkModel<S>,
    inputs: Seq<Seq<S>>,
    input_channels: int,
) -> (S, S) {
    if link.active() {
        let input = inputs[link.input];
        let frames = (input.len() as int / input_channels) as nat;
        (
            block_peak(ops, silence, input, input_channels, link.gain, link.pairs, 0, frames),
            block_peak(ops, silence, input, input_channels, link.gain, link.pairs, 1, frames),
        )
    } else {
        (silence, silence)
    }
}

impl<S> PlanModel<S> {
    /// The bus blocks that the sources mix to.
    pub open spec fn buses(self, ops: Arithmetic<S>, sources: Seq<Seq<S>>) -> Seq<Seq<S>> {
        Seq::new(
            self.bus_count,
            |b: int|
                stage(
                    ops,
                    self.source_links,
                    sources,
                    self.source_channels as int,
                    self.bus_channels as int,
                    b,
                    silent_block(self.silence, self.block_frames * self.bus_channels),
                ),
        )
    }

    /// The sink blocks that the sources mix to.
    pub open spec fn sinks(self, ops: Arithmetic<S>, sources: Seq<Seq<S>>) -> Seq<Seq<S>> {
        Seq::new(
            self.sink_count,
            |t: int|
                stage(
                    ops,
                    self.bus_links,
                    self.buses(ops, sources),
                    self.bus_channels as int,
                    self.sink_channels as int,
                    t,
                    silent_block(self.silence, self.block_frames * self.sink_channels),
                ),
        )
    }

    /// The peaks of every send, those out of sources first.
    pub open spec fn peaks(self, ops: Arithmetic<S>, sources: Seq<Seq<S>>) -> Seq<(S, S)> {
        Seq::new(
            self.source_links.len(),
            |i: int|
                link_peaks(
                    ops,
                    self.silence,
                    self.source_links[i],
                    sources,
                    self.source_channels as int,
                ),
        ) + Seq::new(
            self.bus_links.len(),
            |i: int|
                link_peaks(
                    ops,
                    self.silence,
                    self.bus_links[i],
                    self.buses(ops, sources),
                    self.bus_channels as int,
                ),
        )
    }

    /// The identifiers of every send, those out of sources first.
    pub open spec fn send_ids(self) -> Seq<Seq<char>> {
        self.source_links.map_values(|l: LinkModel<S>| l.id) + self.bus_links.map_values(
            |l: LinkModel<S>| l.id,
        )
    }

    /// What is wrong with the source block `i`.
    pub open spec fn source_block_fault(self, sources: Seq<Seq<S>>, i: int) -> Option<MixerFault> {
        if sources[i].len() > self.block_frames * self.source_channels {
            Some(
                MixerFault::SourceBlockLength {
                    index: i,
                    expected: (self.block_frames * self.source_channels) as int,
                    actual: sources[i].len() as int,
                },
            )
        } else if sources[i].len() as int % self.source_channels as int != 0 {
            Some(
                MixerFault::SourceBlockUnaligned {
                    index: i,
                    samples: sources[i].len() as int,
                    channels: self.source_channels as int,
                },
            )
        } else {
            None
        }
    }

    /// What is wrong with the sink block `i`.
    pub open spec fn sink_block_fault(self, sinks: Seq<Seq<S>>, i: int) -> Option<MixerFault> {
        if sinks[i].len() != self.block_frames * self.sink_channels {
            Some(
                MixerFault::SinkBlockLength {
                    index: i,
                    expected: (self.block_frames * self.sink_channels) as int,
                    actual: sinks[i].len() as int,
                },
            )
        } else {
            None
        }
    }

    /// Why blocks cannot be mixed: their numbers are looked at first, then the source
    /// blocks and the sink blocks in order.
    pub open spec fn block_fault(self, sources: Seq<Seq<S>>, sinks: Seq<Seq<S>>) -> Option<
        MixerFault,
    > {
        if sources.len() != self.source_count {
            Some(
                MixerFault::SourceCountMismatch {
                    expected: self.source_count as int,
                    actual: sources.len() as int,
                },
            )
        } else if sinks.len() != self.sink_count {
            Some(
                MixerFault::SinkCountMismatch {
                    expected: self.sink_count as int,
                    actual: sinks.len() as int,
                },
            )
        } else {
            or_fault(
                first_fault(sources.len(), |i: int| self.source_block_fault(sources, i)),
                first_fault(sinks.len(), |i: int| self.sink_block_fault(sinks, i)),
            )
        }
    }

    /// Every send stays inside the blocks of the plan, and the blocks' sizes are numbers
    /// that the machine can hold.
    pub open spec fn fits(self) -> bool {
        &&& self.block_frames > 0
        &&& self.source_channels > 0
        &&& self.sink_channels > 0
        &&& self.bus_channels == larger(self.source_channels, self.sink_channels)
        &&& self.block_frames * self.bus_channels <= usize::MAX
        &&& forall|i: int|
            0 <= i < self.source_links.len() ==> (#[trigger] self.source_links[i]).fits(
                self.source_count as int,
                self.source_channels as int,
                self.bus_count as int,
                self.bus_channels as int,
            )
        &&& forall|i: int|
            0 <= i < self.bus_links.len() ==> (#[trigger] self.bus_links[i]).fits(
                self.bus_count as int,
                self.bus_channels as int,
                self.sink_count as int,
                self.sink_channels as int,
            )
    }
}

/// The samples of a list of blocks.
pub open spec fn blocks<S>(list: Seq<Vec<S>>) -> Seq<Seq<S>> {
    list.map_values(|b: Vec<S>| b@)
}

/// The samples of a list of borrowed blocks.
pub open spec fn slices<S>(list: Seq<&[S]>) -> Seq<Seq<S>> {
    list.map_values(|b: &[S]| b@)
}

/// The peaks of a list, without the identifiers.
pub open spec fn peak_values<S>(list: Seq<(SendId, [S; 2])>) -> Seq<(S, S)> {
    list.map_values(|p: (SendId, [S; 2])| (p.1@[0], p.1@[1]))
}

/// The identifiers of a list of peaks.
pub open spec fn peak_ids<S>(list: Seq<(SendId, [S; 2])>) -> Seq<Seq<char>> {
    list.map_values(|p: (SendId, [S; 2])| p.0@)
}

/// Which node a side of a send is.
#[derive(Clone, Copy)]
enum ChannelSide {
    Source,
    Bus,
    Sink,
}

spec fn side_fault(side: ChannelSide, send_index: int, channel: u16, channels: int) -> MixerFault {
    match side {
        ChannelSide::Source => MixerFault::SourceChannelOutOfRange { send_index, channel, channels },
        ChannelSide::Bus => MixerFault::BusChannelOutOfRange { send_index, channel, channels },
        ChannelSide::Sink => MixerFault::SinkChannelOutOfRange { send_index, channel, channels },
    }
}

fn channel_out_of_range(
    side: ChannelSide,
    send_index: usize,
    channel: u16,
    channels: usize,
) -> (error: MixerError)
    ensures
        error@ == side_fault(side, send_index as int, channel, channels as int),
{
    match side {
        ChannelSide::Source => MixerError::SourceChannelOutOfRange { send_index, channel, channels },
        ChannelSide::Bus => MixerError::BusChannelOutOfRange { send_index, channel, channels },
        ChannelSide::Sink => MixerError::SinkChannelOutOfRange { send_index, channel, channels },
    }
}

spec fn side_pair_fault(
    map: Seq<(u16, u16)>,
    send_index: int,
    input_channels: int,
    output_channels: int,
    input_side: ChannelSide,
    output_side: ChannelSide,
    p: int,
) -> Option<MixerFault> {
    if map[p].0 >= input_channels {
        Some(side_fault(input_side, send_index, map[p].0, input_channels))
    } else if map[p].1 >= output_channels {
        Some(side_fault(output_side, send_index, map[p].1, output_channels))
    } else {
        None
    }
}

/// Resolves a channel map, or names its first channel that is out of range.
fn compile_channel_map(
    map: &[(u16, u16)],
    send_index: usize,
    input_channels: usize,
    output_channels: usize,
    input_side: ChannelSide,
    output_side: ChannelSide,
) -> (result: Result<Vec<(usize, usize)>, MixerError>)
    ensures
        match result {
            Ok(pairs) => {
                &&& pairs@ == channel_pairs(map@, input_channels as nat, output_channels as nat)
                &&& forall|p: int|
                    0 <= p < pairs.len() ==> (#[trigger] pairs@[p]).0 < input_channels
                        && pairs@[p].1 < output_channels
                &&& first_fault(
                    map@.len(),
                    |p: int|
                        side_pair_fault(
                            map@,
                            send_index as int,
                            input_channels as int,
                            output_channels as int,
                            input_side,
                            output_side,
                            p,
                        ),
                ) is None
            },
            Err(e) => first_fault(
                map@.len(),
                |p: int|
                    side_pair_fault(
                        map@,
                        send_index as int,
                        input_channels as int,
                        output_channels as int,
                        input_side,
                        output_side,
                        p,
                    ),
            ) == Some(e@),
        },
{
    let ghost check = |p: int|
        side_pair_fault(
            map@,
            send_index as int,
            input_channels as int,
            output_channels as int,
            input_side,
            output_side,
            p,
        );
    let mut pairs: Vec<(usize, usize)> = Vec::new();
    if map.len() == 0 {
        let common = if input_channels <= output_channels {
            input_channels
        } else {
            output_channels
        };
        for c in 0..common
            invariant
                common <= input_channels,
                common <= output_channels,
                pairs@ =~= Seq::new(c as nat, |k: int| (k as usize, k as usize)),
        {
            pairs.push((c, c));
        }
        assert(pairs@ =~= channel_pairs(map@, input_channels as nat, output_channels as nat));
        return Ok(pairs);
    }
    for p in 0..map.len()
        invariant
            map.len() > 0,
            check == (|p: int|
                side_pair_fault(
                    map@,
                    send_index as int,
                    input_channels as int,
                    output_channels as int,
                    input_side,
                    output_side,
                    p,
                )),
            first_fault(p as nat, check) is None,
            pairs@.len() == p,
            forall|q: int|
                0 <= q < p ==> (#[trigger] pairs@[q]) == (map@[q].0 as usize, map@[q].1 as usize)
                    && pairs@[q].0 < input_channels && pairs@[q].1 < output_channels,
    {
        let (input, output) = map[p];
        if input as usize >= input_channels {
            proof {
                assert(check(p as int) is Some);
                lemma_first_fault_at(map@.len(), check, p as nat);
            }
            return Err(channel_out_of_range(input_side, send_index, input, input_channels));
        }
        if output as usize >= output_channels {
            proof {
                assert(check(p as int) is Some);
                lemma_first_fault_at(map@.len(), check, p as nat);
            }
            return Err(channel_out_of_range(output_side, send_index, output, output_channels));
        }
        assert(check(p as int) is None);
        pairs.push((input as usize, output as usize));
    }
    assert(pairs@ =~= channel_pairs(map@, input_channels as nat, output_channels as nat));
    Ok(pairs)
}

/// Mixes one send into `output` and gives its peaks on the first two channels.
fn mix_block<
    S: Copy,
    M: Fn(S, S) -> S,
    A: Fn(S, S) -> S,
    G: Fn(S) -> S,
    L: Fn(S, S) -> bool,
>(
    ops: &SampleOps<M, A, G, L>,
    silence: S,
    input: &[S],
    input_channels: usize,
    output: &mut Vec<S>,
    output_channels: usize,
    send: &CompiledSend<S>,
) -> (peaks: [S; 2])
    requires
        ops_are_functions::<S, M, A, G, L>(*ops),
        input_channels > 0,
        output_channels > 0,
        input@.len() as int / input_channels as int <= old(output)@.len() as int
            / output_channels as int,
        forall|p: int|
            0 <= p < send@.pairs.len() ==> (#[trigger] send@.pairs[p]).0 < input_channels
                && send@.pairs[p].1 < output_channels,
    ensures
        final(output)@ == mixed_block(
            arithmetic_of::<S, M, A, G, L>(*ops),
            old(output)@,
            output_channels as int,
            input@,
            input_channels as int,
            send@.gain,
            send@.pairs,
        ),
        peaks@[0] == block_peak(
            arithmetic_of::<S, M, A, G, L>(*ops),
            silence,
            input@,
            input_channels as int,
            send@.gain,
            send@.pairs,
            0,
            (input@.len() as int / input_channels as int) as nat,
        ),
        peaks@[1] == block_peak(
            arithmetic_of::<S, M, A, G, L>(*ops),
            silence,
            input@,
            input_channels as int,
            send@.gain,
            send@.pairs,
            1,
            (input@.len() as int / input_channels as int) as nat,
        ),
{
    let ghost model = arithmetic_of::<S, M, A, G, L>(*ops);
    let ghost before = output@;
    let ghost ic = input_channels as int;
    let ghost oc = output_channels as int;
    let ghost gain = send@.gain;
    let ghost pairs = send@.pairs;
    let available = input.len() / input_channels;
    let samples = output.len();
    let mut left = silence;
    let mut right = silence;
    for f in 0..available
        invariant
            ops_are_functions::<S, M, A, G, L>(*ops),
            model == arithmetic_of::<S, M, A, G, L>(*ops),
            ic == input_channels > 0,
            oc == output_channels > 0,
            gain == send.gain_linear,
            pairs == send.pairs@,
            available == input@.len() as int / ic,
            available <= before.len() as int / oc,
            input@.len() <= usize::MAX,
            before.len() == samples,
            output@.len() == before.len(),
            forall|p: int|
                0 <= p < pairs.len() ==> (#[trigger] pairs[p]).0 < ic && pairs[p].1 < oc,
            forall|k: int|
                0 <= k < before.len() ==> (#[trigger] output@[k]) == if k / oc < f {
                    mixed_sample(model, before[k], frame_of(input@, ic, k / oc), gain, pairs, k % oc)
                } else {
                    before[k]
                },
            left == block_peak(model, silence, input@, ic, gain, pairs, 0, f as nat),
            right == block_peak(model, silence, input@, ic, gain, pairs, 1, f as nat),
    {
        proof {
            lemma_fundamental_div_mod(input@.len() as int, ic);
            lemma_fundamental_div_mod(before.len() as int, oc);
            assert(0 <= f * ic && f * ic + ic <= input@.len()) by (nonlinear_arith)
                requires
                    0 <= f,
                    f + 1 <= available,
                    available == input@.len() as int / ic,
                    input@.len() == ic * (input@.len() as int / ic) + input@.len() as int % ic,
                    input@.len() as int % ic >= 0,
                    ic > 0,
            ;
            assert(0 <= f * oc && f * oc + oc <= before.len()) by (nonlinear_arith)
                requires
                    0 <= f,
                    f + 1 <= available,
                    available <= before.len() as int / oc,
                    before.len() == oc * (before.len() as int / oc) + before.len() as int % oc,
                    before.len() as int % oc >= 0,
                    oc > 0,
            ;
        }
        let input_base: usize = f * input_channels;
        let output_base: usize = f * output_channels;
        let ghost frame = frame_of(input@, ic, f as int);
        let ghost (left_before, right_before) = (left, right);
        assert(pairs.take(0) =~= Seq::empty());
        assert forall|k: int| 0 <= k < before.len() implies (#[trigger] output@[k]) == (if k / oc
            < f {
            mixed_sample(model, before[k], frame_of(input@, ic, k / oc), gain, pairs, k % oc)
        } else if k / oc == f {
            mixed_sample(model, before[k], frame, gain, pairs.take(0), k % oc)
        } else {
            before[k]
        }) by {}
        for p in 0..send.pairs.len()
            invariant
                ops_are_functions::<S, M, A, G, L>(*ops),
                model == arithmetic_of::<S, M, A, G, L>(*ops),
                ic == input_channels > 0,
                oc == output_channels > 0,
                gain == send.gain_linear,
                pairs == send.pairs@,
                f < available,
                input_base == f * ic,
                output_base == f * oc,
                input_base + ic <= input@.len() <= usize::MAX,
                output_base + oc <= before.len() == samples,
                frame == frame_of(input@, ic, f as int),
                output@.len() == before.len(),
                forall|q: int|
                    0 <= q < pairs.len() ==> (#[trigger] pairs[q]).0 < ic && pairs[q].1 < oc,
                forall|k: int|
                    0 <= k < before.len() ==> (#[trigger] output@[k]) == if k / oc < f {
                        mixed_sample(
                            model,
                            before[k],
                            frame_of(input@, ic, k / oc),
                            gain,
                            pairs,
                            k % oc,
                        )
                    } else if k / oc == f {
                        mixed_sample(model, before[k], frame, gain, pairs.take(p as int), k % oc)
                    } else {
                        before[k]
                    },
                left == frame_peak(model, left_before, frame, gain, pairs.take(p as int), 0),
                right == frame_peak(model, right_before, frame, gain, pairs.take(p as int), 1),
        {
            let (input_channel, output_channel) = send.pairs[p];
            assert(pairs[p as int].0 < ic && pairs[p as int].1 < oc);
            let sample = call_binary(&ops.scale, input[input_base + input_channel], send.gain_linear);
            assert(frame[input_channel as int] == input@[input_base + input_channel]);
            let at: usize = output_base + output_channel;
            let ghost earlier = output@;
            let sum = call_binary(&ops.add, output[at], sample);
            output.set(at, sum);
            let magnitude = call_unary(&ops.magnitude, sample);
            if output_channel == 0 && call_binary(&ops.louder, magnitude, left) {
                left = magnitude;
            }
            if output_channel == 1 && call_binary(&ops.louder, magnitude, right) {
                right = magnitude;
            }
            proof {
                assert(pairs.take(p + 1).drop_last() =~= pairs.take(p as int));
                assert(pairs.take(p + 1).last() == pairs[p as int]);
                lemma_fundamental_div_mod_converse(at as int, oc, f as int, output_channel as int);
                assert forall|k: int| 0 <= k < before.len() implies (#[trigger] output@[k]) == (
                if k / oc < f {
                    mixed_sample(model, before[k], frame_of(input@, ic, k / oc), gain, pairs, k % oc)
                } else if k / oc == f {
                    mixed_sample(model, before[k], frame, gain, pairs.take(p + 1), k % oc)
                } else {
                    before[k]
                }) by {
                    assert(earlier[k] == earlier[k]);
                    if k / oc == f && k % oc == output_channel {
                        lemma_fundamental_div_mod(k, oc);
                        assert(k == at) by (nonlinear_arith)
                            requires
                                k == oc * (k / oc) + k % oc,
                                k / oc == f,
                                k % oc == output_channel,
                                at == f * oc + output_channel,
                        ;
                    }
                    if k == at {
                    } else {
                        assert(output@[k] == earlier[k]);
                    }
                }
            }
        }
        assert(pairs.take(pairs.len() as int) =~= pairs);
    }
    proof {
        let result = mixed_block(model, before, oc, input@, ic, gain, pairs);
        assert(output@ =~= result);
    }
    [left, right]
}

/// A plan for mixing blocks of one size, compiled from a routing graph.
pub struct MixerPlan<S> {
    block_frames: usize,
    source_channels: usize,
    bus_channels: usize,
    sink_channels: usize,
    source_count: usize,
    bus_count: usize,
    sink_count: usize,
    silence: S,
    source_sends: Vec<CompiledSend<S>>,
    bus_sends: Vec<CompiledSend<S>>,
    bus_blocks: Vec<Vec<S>>,
    send_peaks: Vec<(SendId, [S; 2])>,
}

impl<S> View for MixerPlan<S> {
    type V = PlanModel<S>;

    closed spec fn view(&self) -> PlanModel<S> {
        PlanModel {
            block_frames: self.block_frames as nat,
            source_channels: self.source_channels as nat,
            bus_channels: self.bus_channels as nat,
            sink_channels: self.sink_channels as nat,
            source_count: self.source_count as nat,
            bus_count: self.bus_count as nat,
            sink_count: self.sink_count as nat,
            silence: self.silence,
            source_links: links(self.source_sends@),
            bus_links: links(self.bus_sends@),
        }
    }
}

proof fn lemma_stage_len<S>(
    ops: Arithmetic<S>,
    links: Seq<LinkModel<S>>,
    inputs: Seq<Seq<S>>,
    input_channels: int,
    output_channels: int,
    target: int,
    block: Seq<S>,
)
    ensures
        stage(ops, links, inputs, input_channels, output_channels, target, block).len()
            == block.len(),
    decreases links.len(),
{
    if links.len() > 0 {
        lemma_stage_len(
            ops,
            links.drop_last(),
            inputs,
            input_channels,
            output_channels,
            target,
            block,
        );
    }
}

/// A block of `frames` frames holds that many frames.
proof fn lemma_frames_of_block(frames: nat, channels: nat)
    requires
        channels > 0,
    ensures
        ((frames * channels) as int) / (channels as int) == frames,
{
    lemma_fundamental_div_mod_converse(
        (frames * channels) as int,
        channels as int,
        frames as int,
        0,
    );
}

/// Overwrites a block with silence.
fn fill_silence<S: Copy>(block: &mut Vec<S>, silence: S)
    ensures
        final(block)@ == silent_block(silence, old(block)@.len()),
{
    let samples = block.len();
    for k in 0..samples
        invariant
            block@.len() == samples,
            forall|j: int| 0 <= j < k ==> block@[j] == silence,
    {
        block.set(k, silence);
    }
    assert(block@ =~= silent_block(silence, samples as nat));
}

/// A new block of silence.
fn new_silence<S: Copy>(silence: S, samples: usize) -> (block: Vec<S>)
    ensures
        block@ == silent_block(silence, samples as nat),
{
    let mut block: Vec<S> = Vec::new();
    for k in 0..samples
        invariant
            block@.len() == k,
            forall|j: int| 0 <= j < k ==> block@[j] == silence,
    {
        block.push(silence);
    }
    assert(block@ =~= silent_block(silence, samples as nat));
    block
}

impl<S: Copy> MixerPlan<S> {
    /// The plan stays inside its blocks and holds one block per bus and one pair of
    /// peaks per send.
    pub closed spec fn wf(self) -> bool {
        &&& self@.fits()
        &&& self.bus_blocks@.len() == self.bus_count
        &&& forall|b: int|
            0 <= b < self.bus_count ==> (#[trigger] self.bus_blocks@[b])@.len() == self.block_frames
                * self.bus_channels
        &&& peak_ids(self.send_peaks@) == self@.send_ids()
    }

    /// The peaks of the last block that was mixed.
    pub closed spec fn last_peaks(self) -> Seq<(S, S)> {
        peak_values(self.send_peaks@)
    }

    /// Compiles a plan from `graph`, or says why none comes of it.
    ///
    /// A pair of a channel map reads `(input channel, output channel)`; an empty map
    /// joins equal channels. A bus has as many channels as the wider of the two ends.
    pub fn new<D: Fn(Decibels) -> S>(
        graph: &RouteGraph,
        block_frames: usize,
        source_channels: usize,
        sink_channels: usize,
        silence: S,
        db_to_linear: &D,
    ) -> (result: Result<Self, MixerError>)
        requires
            is_unary(*db_to_linear),
        ensures
            match result {
                Ok(plan) => {
                    &&& plan.wf()
                    &&& plan@ == plan_of(
                        graph@,
                        block_frames as nat,
                        source_channels as nat,
                        sink_channels as nat,
                        silence,
                        |gain: Decibels| unary(*db_to_linear, gain),
                    )
                    &&& plan.last_peaks() == Seq::new(
                        plan@.send_ids().len(),
                        |i: int| (silence, silence),
                    )
                    &&& plan_fault(
                        graph@,
                        block_frames as nat,
                        source_channels as nat,
                        sink_channels as nat,
                    ) is None
                },
                Err(e) => plan_fault(
                    graph@,
                    block_frames as nat,
                    source_channels as nat,
                    sink_channels as nat,
                ) == Some(e@),
            },
    {
        let ghost g = graph@;
        let ghost linear = |gain: Decibels| unary(*db_to_linear, gain);
        if block_frames == 0 {
            return Err(MixerError::ZeroBlockFrames);
        }
        if source_channels == 0 {
            return Err(MixerError::ZeroSourceChannels);
        }
        if sink_channels == 0 {
            return Err(MixerError::ZeroSinkChannels);
        }
        let bus_channels = if source_channels <= sink_channels {
            sink_channels
        } else {
            source_channels
        };
        let bus_samples = match block_frames.checked_mul(bus_channels) {
            Some(samples) => samples,
            None => {
                return Err(MixerError::BlockSampleCountOverflow);
            },
        };
        assert(g.buses.len() == graph.buses.len());
        if graph.buses.len().checked_mul(bus_samples).is_none() {
            return Err(MixerError::BlockSampleCountOverflow);
        }
        match graph.validate() {
            Ok(_) => {},
            Err(e) => {
                return Err(MixerError::Graph(e));
            },
        }
        let ghost check = |i: int|
            map_fault(g, i, source_channels as nat, bus_channels as nat, sink_channels as nat);
        let mut source_sends: Vec<CompiledSend<S>> = Vec::new();
        let mut bus_sends: Vec<CompiledSend<S>> = Vec::new();
        assert(links(source_sends@) =~= Seq::empty());
        assert(links(bus_sends@) =~= Seq::empty());
        for i in 0..graph.sends.len()
            invariant
                is_unary(*db_to_linear),
                linear == (|gain: Decibels| unary(*db_to_linear, gain)),
                g == graph@,
                g.well_formed(),
                g.fault() is None,
                block_frames > 0,
                source_channels > 0,
                sink_channels > 0,
                bus_channels == larger(source_channels as nat, sink_channels as nat),
                block_frames * bus_channels <= usize::MAX,
                g.buses.len() * (block_frames * bus_channels) <= usize::MAX,
                check == (|i: int|
                    map_fault(
                        g,
                        i,
                        source_channels as nat,
                        bus_channels as nat,
                        sink_channels as nat,
                    )),
                first_fault(i as nat, check) is None,
                links(source_sends@) == source_links(
                    g,
                    i as nat,
                    source_channels as nat,
                    bus_channels as nat,
                    linear,
                ),
                links(bus_sends@) == bus_links(
                    g,
                    i as nat,
                    bus_channels as nat,
                    sink_channels as nat,
                    linear,
                ),
                forall|k: int|
                    0 <= k < source_sends@.len() ==> (#[trigger] source_sends@[k])@.fits(
                        g.sources.len() as int,
                        source_channels as int,
                        g.buses.len() as int,
                        bus_channels as int,
                    ),
                forall|k: int|
                    0 <= k < bus_sends@.len() ==> (#[trigger] bus_sends@[k])@.fits(
                        g.buses.len() as int,
                        bus_channels as int,
                        g.sinks.len() as int,
                        sink_channels as int,
                    ),
        {
            let send = &graph.sends[i];
            assert(g.sends[i as int] == send@);
            assert(g.joins_nodes(g.sends[i as int]));
            match send {
                SendSpec::SourceToBus { source_id, bus_id, .. } => {
                    let source_index = match graph.find_source(source_id) {
                        Some(index) => index,
                        None => {
                            assert(false);
                            return Err(
                                MixerError::Graph(RouteGraphError::MissingSource(source_id.0.clone())),
                            );
                        },
                    };
                    let bus_index = match graph.find_bus(bus_id) {
                        Some(index) => index,
                        None => {
                            assert(false);
                            return Err(
                                MixerError::Graph(RouteGraphError::MissingBus(bus_id.0.clone())),
                            );
                        },
                    };
                    assert((|p: int|
                        side_pair_fault(
                            send@.channel_map,
                            i as int,
                            source_channels as int,
                            bus_channels as int,
                            ChannelSide::Source,
                            ChannelSide::Bus,
                            p,
                        )) =~= (|p: int|
                        pair_fault(
                            g,
                            i as int,
                            source_channels as nat,
                            bus_channels as nat,
                            sink_channels as nat,
                            p,
                        )));
                    let pairs = match compile_channel_map(
                        send.channel_map(),
                        i,
                        source_channels,
                        bus_channels,
                        ChannelSide::Source,
                        ChannelSide::Bus,
                    ) {
                        Ok(pairs) => pairs,
                        Err(e) => {
                            proof {
                                assert(check(i as int) == Some(e@));
                                lemma_first_fault_at(g.sends.len(), check, i as nat);
                            }
                            return Err(e);
                        },
                    };
                    assert(check(i as int) is None);
                    let ghost before = source_sends@;
                    let compiled = CompiledSend {
                        id: send.id().clone(),
                        input_index: source_index,
                        output_index: bus_index,
                        gain_linear: call_unary(db_to_linear, send.gain_db()),
                        muted: send.muted(),
                        enabled: send.enabled(),
                        pairs,
                    };
                    assert(compiled@ =~= source_link(
                        g,
                        send@,
                        source_channels as nat,
                        bus_channels as nat,
                        linear,
                    ));
                    source_sends.push(compiled);
                    assert(links(source_sends@) =~= links(before).push(compiled@));
                },
                SendSpec::BusToSink { bus_id, sink_id, .. } => {
                    let bus_index = match graph.find_bus(bus_id) {
                        Some(index) => index,
                        None => {
                            assert(false);
                            return Err(
                                MixerError::Graph(RouteGraphError::MissingBus(bus_id.0.clone())),
                            );
                        },
                    };
                    let sink_index = match graph.find_sink(sink_id) {
                        Some(index) => index,
                        None => {
                            assert(false);
                            return Err(
                                MixerError::Graph(RouteGraphError::MissingSink(sink_id.0.clone())),
                            );
                        },
                    };
                    assert((|p: int|
                        side_pair_fault(
                            send@.channel_map,
                            i as int,
                            bus_channels as int,
                            sink_channels as int,
                            ChannelSide::Bus,
                            ChannelSide::Sink,
                            p,
                        )) =~= (|p: int|
                        pair_fault(
                            g,
                            i as int,
                            source_channels as nat,
                            bus_channels as nat,
                            sink_channels as nat,
                            p,
                        )));
                    let pairs = match compile_channel_map(
                        send.channel_map(),
                        i,
                        bus_channels,
                        sink_channels,
                        ChannelSide::Bus,
                        ChannelSide::Sink,
                    ) {
                        Ok(pairs) => pairs,
                        Err(e) => {
                            proof {
                                assert(check(i as int) == Some(e@));
                                lemma_first_fault_at(g.sends.len(), check, i as nat);
                            }
                            return Err(e);
                        },
                    };
                    assert(check(i as int) is None);
                    let ghost before = bus_sends@;
                    let compiled = CompiledSend {
                        id: send.id().clone(),
                        input_index: bus_index,
                        output_index: sink_index,
                        gain_linear: call_unary(db_to_linear, send.gain_db()),
                        muted: send.muted(),
                        enabled: send.enabled(),
                        pairs,
                    };
                    assert(compiled@ =~= bus_link(
                        g,
                        send@,
                        bus_channels as nat,
                        sink_channels as nat,
                        linear,
                    ));
                    bus_sends.push(compiled);
                    assert(links(bus_sends@) =~= links(before).push(compiled@));
                },
            }
        }
        let mut send_peaks: Vec<(SendId, [S; 2])> = Vec::new();
        for k in 0..source_sends.len()
            invariant
                send_peaks@.len() == k,
                forall|j: int|
                    0 <= j < k ==> (#[trigger] send_peaks@[j]).0@ == source_sends@[j]@.id
                        && send_peaks@[j].1@ == seq![silence, silence],
        {
            let pair = [silence, silence];
            assert(pair@ =~= seq![silence, silence]);
            send_peaks.push((source_sends[k].id.clone(), pair));
        }
        let ghost first = send_peaks@;
        for k in 0..bus_sends.len()
            invariant
                first.len() == source_sends@.len(),
                forall|j: int|
                    0 <= j < first.len() ==> (#[trigger] first[j]).0@ == source_sends@[j]@.id
                        && first[j].1@ == seq![silence, silence],
                send_peaks@.len() == first.len() + k,
                forall|j: int| 0 <= j < first.len() ==> (#[trigger] send_peaks@[j]) == first[j],
                forall|j: int|
                    first.len() <= j < first.len() + k ==> (#[trigger] send_peaks@[j]).0@
                        == bus_sends@[j - first.len()]@.id && send_peaks@[j].1@ == seq![
                        silence,
                        silence,
                    ],
        {
            let pair = [silence, silence];
            assert(pair@ =~= seq![silence, silence]);
            send_peaks.push((bus_sends[k].id.clone(), pair));
        }
        let mut bus_blocks: Vec<Vec<S>> = Vec::new();
        for b in 0..graph.buses.len()
            invariant
                bus_samples == block_frames * bus_channels,
                bus_blocks@.len() == b,
                forall|j: int| 0 <= j < b ==> (#[trigger] bus_blocks@[j])@.len() == bus_samples,
        {
            bus_blocks.push(new_silence(silence, bus_samples));
        }
        let plan = MixerPlan {
            block_frames,
            source_channels,
            bus_channels,
            sink_channels,
            source_count: graph.sources.len(),
            bus_count: graph.buses.len(),
            sink_count: graph.sinks.len(),
            silence,
            source_sends,
            bus_sends,
            bus_blocks,
            send_peaks,
        };
        proof {
            assert(plan@ =~= plan_of(
                g,
                block_frames as nat,
                source_channels as nat,
                sink_channels as nat,
                silence,
                linear,
            ));
            assert(peak_ids(plan.send_peaks@) =~= plan@.send_ids());
            assert(plan.last_peaks() =~= Seq::new(
                plan@.send_ids().len(),
                |i: int| (silence, silence),
            ));
        }
        Ok(plan)
    }

    /// Frames of a block.
    pub fn block_frames(&self) -> (frames: usize)
        ensures
            frames == self@.block_frames,
    {
        self.block_frames
    }

    /// Channels of a source block.
    pub fn source_channels(&self) -> (channels: usize)
        ensures
            channels == self@.source_channels,
    {
        self.source_channels
    }

    /// Channels of a bus block.
    pub fn bus_channels(&self) -> (channels: usize)
        ensures
            channels == self@.bus_channels,
    {
        self.bus_channels
    }

    /// Channels of a sink block.
    pub fn sink_channels(&self) -> (channels: usize)
        ensures
            channels == self@.sink_channels,
    {
        self.sink_channels
    }

    /// How many source blocks are mixed.
    pub fn source_count(&self) -> (count: usize)
        ensures
            count == self@.source_count,
    {
        self.source_count
    }

    /// How many buses there are.
    pub fn bus_count(&self) -> (count: usize)
        ensures
            count == self@.bus_count,
    {
        self.bus_count
    }

    /// How many sink blocks come out.
    pub fn sink_count(&self) -> (count: usize)
        ensures
            count == self@.sink_count,
    {
        self.sink_count
    }

    /// The left and right peaks of every send in the last block, the sends out of
    /// sources first.
    pub fn send_peaks(&self) -> (peaks: &[(SendId, [S; 2])])
        requires
            self.wf(),
        ensures
            peak_values(peaks@) == self.last_peaks(),
            peak_ids(peaks@) == self@.send_ids(),
    {
        self.send_peaks.as_slice()
    }

    fn check_blocks(&self, source_blocks: &[&[S]], sink_blocks: &Vec<Vec<S>>) -> (result: Result<
        (),
        MixerError,
    >)
        requires
            self.wf(),
        ensures
            match result {
                Ok(_) => self@.block_fault(slices(source_blocks@), blocks(sink_blocks@)) is None,
                Err(e) => self@.block_fault(slices(source_blocks@), blocks(sink_blocks@)) == Some(
                    e@,
                ),
            },
    {
        let ghost model = self@;
        let ghost sources = slices(source_blocks@);
        let ghost sinks = blocks(sink_blocks@);
        if source_blocks.len() != self.source_count {
            return Err(
                MixerError::SourceCountMismatch {
                    expected: self.source_count,
                    actual: source_blocks.len(),
                },
            );
        }
        if sink_blocks.len() != self.sink_count {
            return Err(
                MixerError::SinkCountMismatch {
                    expected: self.sink_count,
                    actual: sink_blocks.len(),
                },
            );
        }
        proof {
            assert(self.block_frames * self.source_channels <= self.block_frames
                * self.bus_channels && self.block_frames * self.sink_channels <= self.block_frames
                * self.bus_channels) by (nonlinear_arith)
                requires
                    self.source_channels <= self.bus_channels,
                    self.sink_channels <= self.bus_channels,
                    self.block_frames >= 0,
            ;
        }
        let source_samples: usize = self.block_frames * self.source_channels;
        let sink_samples: usize = self.block_frames * self.sink_channels;
        let ghost source_check = |i: int| model.source_block_fault(sources, i);
        let ghost sink_check = |i: int| model.sink_block_fault(sinks, i);
        for i in 0..source_blocks.len()
            invariant
                self.wf(),
                model == self@,
                sources == slices(source_blocks@),
                sinks == blocks(sink_blocks@),
                sources.len() == self.source_count,
                sinks.len() == self.sink_count,
                source_samples == self.block_frames * self.source_channels,
                source_check == (|i: int| model.source_block_fault(sources, i)),
                first_fault(i as nat, source_check) is None,
        {
            let block: &[S] = source_blocks[i];
            assert(sources[i as int] == block@);
            if block.len() > source_samples {
                proof {
                    assert(source_check(i as int) is Some);
                    lemma_first_fault_at(sources.len(), source_check, i as nat);
                }
                return Err(
                    MixerError::SourceBlockLength {
                        index: i,
                        expected: source_samples,
                        actual: block.len(),
                    },
                );
            }
            if block.len() % self.source_channels != 0 {
                proof {
                    assert(source_check(i as int) is Some);
                    lemma_first_fault_at(sources.len(), source_check, i as nat);
                }
                return Err(
                    MixerError::SourceBlockUnaligned {
                        index: i,
                        samples: block.len(),
                        channels: self.source_channels,
                    },
                );
            }
            assert(source_check(i as int) is None);
        }
        for i in 0..sink_blocks.len()
            invariant
                model == self@,
                sources == slices(source_blocks@),
                sinks == blocks(sink_blocks@),
                sources.len() == self.source_count,
                sinks.len() == self.sink_count,
                sink_samples == self.block_frames * self.sink_channels,
                source_check == (|i: int| model.source_block_fault(sources, i)),
                sink_check == (|i: int| model.sink_block_fault(sinks, i)),
                first_fault(sources.len(), source_check) is None,
                first_fault(i as nat, sink_check) is None,
        {
            let samples = sink_blocks[i].len();
            assert(sinks[i as int] == sink_blocks@[i as int]@);
            if samples != sink_samples {
                proof {
                    assert(sink_check(i as int) is Some);
                    lemma_first_fault_at(sinks.len(), sink_check, i as nat);
                }
                return Err(
                    MixerError::SinkBlockLength {
                        index: i,
                        expected: sink_samples,
                        actual: samples,
                    },
                );
            }
            assert(sink_check(i as int) is None);
        }
        Ok(())
    }

    /// Mixes the source blocks through the buses into the sink blocks.
    ///
    /// A source block may be short: the frames it lacks are silent. A sink block must
    /// be whole. Sinks and buses start from silence, and nothing is clipped. Blocks of
    /// the wrong number or size are refused and nothing changes.
    pub fn process<
        M: Fn(S, S) -> S,
        A: Fn(S, S) -> S,
        G: Fn(S) -> S,
        L: Fn(S, S) -> bool,
    >(
        &mut self,
        ops: &SampleOps<M, A, G, L>,
        source_blocks: &[&[S]],
        sink_blocks: &mut Vec<Vec<S>>,
    ) -> (result: Result<(), MixerError>)
        requires
            ops_are_functions::<S, M, A, G, L>(*ops),
            old(self).wf(),
        ensures
            final(self).wf(),
            final(self)@ == old(self)@,
            match result {
                Ok(_) => {
                    &&& old(self)@.block_fault(
                        slices(source_blocks@),
                        blocks(old(sink_blocks)@),
                    ) is None
                    &&& blocks(final(sink_blocks)@) == old(self)@.sinks(
                        arithmetic_of::<S, M, A, G, L>(*ops),
                        slices(source_blocks@),
                    )
                    &&& final(self).last_peaks() == old(self)@.peaks(
                        arithmetic_of::<S, M, A, G, L>(*ops),
                        slices(source_blocks@),
                    )
                },
                Err(e) => {
                    &&& old(self)@.block_fault(
                        slices(source_blocks@),
                        blocks(old(sink_blocks)@),
                    ) == Some(e@)
                    &&& *final(sink_blocks) == *old(sink_blocks)
                    &&& *final(self) == *old(self)
                },
            },
    {
        match self.check_blocks(source_blocks, sink_blocks) {
            Ok(_) => {},
            Err(e) => {
                return Err(e);
            },
        }
        let ghost model = self@;
        let ghost arith = arithmetic_of::<S, M, A, G, L>(*ops);
        let ghost sources = slices(source_blocks@);
        let ghost start = silent_block(model.silence, model.block_frames * model.bus_channels);
        let ghost sink_start = silent_block(model.silence, model.block_frames * model.sink_channels);
        let ghost sc = model.source_channels as int;
        let ghost bc = model.bus_channels as int;
        let ghost kc = model.sink_channels as int;
        proof {
            let sinks = blocks(sink_blocks@);
            lemma_first_fault_none(
                sources.len(),
                |i: int| model.source_block_fault(sources, i),
            );
            lemma_first_fault_none(sinks.len(), |i: int| model.sink_block_fault(sinks, i));
            assert forall|i: int| 0 <= i < sources.len() implies (#[trigger] sources[i]).len()
                <= model.block_frames * model.source_channels by {
                assert((|i: int| model.source_block_fault(sources, i))(i) is None);
            }
            assert forall|i: int| 0 <= i < sink_blocks@.len() implies (
            #[trigger] sink_blocks@[i])@.len() == model.block_frames * model.sink_channels by {
                assert((|i: int| model.sink_block_fault(sinks, i))(i) is None);
                assert(sinks[i] == sink_blocks@[i]@);
            }
            lemma_frames_of_block(model.block_frames, model.source_channels);
            lemma_frames_of_block(model.block_frames, model.bus_channels);
            lemma_frames_of_block(model.block_frames, model.sink_channels);
        }
        let ghost ids = model.send_ids();
        let bus_count = self.bus_count;
        for b in 0..bus_count
            invariant
                self.wf(),
                self@ == model,
                bus_count == model.bus_count,
                start == silent_block(model.silence, model.block_frames * model.bus_channels),
                forall|j: int| 0 <= j < b ==> (#[trigger] self.bus_blocks@[j])@ == start,
        {
            let silence = self.silence;
            let ghost prior = self.bus_blocks@;
            fill_silence(&mut self.bus_blocks[b], silence);
            assert(self@ =~= model);
            assert forall|j: int| 0 <= j < bus_count implies (
            #[trigger] self.bus_blocks@[j])@.len() == model.block_frames * model.bus_channels by {
                assert(prior[j]@.len() == model.block_frames * model.bus_channels);
            }
        }
        let sink_count = self.sink_count;
        for t in 0..sink_count
            invariant
                sink_count == model.sink_count,
                sink_start == silent_block(model.silence, model.block_frames * model.sink_channels),
                sink_blocks@.len() == model.sink_count,
                self.silence == model.silence,
                forall|j: int|
                    0 <= j < sink_blocks@.len() ==> (#[trigger] sink_blocks@[j])@.len()
                        == model.block_frames * model.sink_channels,
                forall|j: int| 0 <= j < t ==> (#[trigger] sink_blocks@[j])@ == sink_start,
        {
            fill_silence(&mut sink_blocks[t], self.silence);
        }
        let first = self.source_sends.len();
        for i in 0..first
            invariant
                first == model.source_links.len(),
                ops_are_functions::<S, M, A, G, L>(*ops),
                arith == arithmetic_of::<S, M, A, G, L>(*ops),
                self.wf(),
                self@ == model,
                sources == slices(source_blocks@),
                sources.len() == model.source_count,
                sc == model.source_channels,
                bc == model.bus_channels,
                ((model.block_frames * model.source_channels) as int) / sc == model.block_frames,
                ((model.block_frames * model.bus_channels) as int) / bc == model.block_frames,
                forall|j: int|
                    0 <= j < sources.len() ==> (#[trigger] sources[j]).len() <= model.block_frames
                        * model.source_channels,
                start.len() == model.block_frames * model.bus_channels,
                forall|b: int|
                    0 <= b < model.bus_count ==> (#[trigger] self.bus_blocks@[b])@ == stage(
                        arith,
                        model.source_links.take(i as int),
                        sources,
                        sc,
                        bc,
                        b,
                        start,
                    ),
                forall|j: int|
                    0 <= j < i ==> (#[trigger] self.last_peaks()[j]) == link_peaks(
                        arith,
                        model.silence,
                        model.source_links[j],
                        sources,
                        sc,
                    ),
        {
            let ghost link = model.source_links[i as int];
            let ghost prior = self.bus_blocks@;
            let ghost prior_peaks = self.send_peaks@;
            let ghost prior_last = self.last_peaks();
            proof {
                assert(link == self.source_sends@[i as int]@);
                assert(link.fits(
                    model.source_count as int,
                    sc,
                    model.bus_count as int,
                    bc,
                ));
                assert(model.source_links.take(i + 1).drop_last() =~= model.source_links.take(
                    i as int,
                ));
                assert(model.source_links.take(i + 1).last() == link);
                assert(self.send_peaks@.len() == model.send_ids().len());
            }
            let mut peaks = [self.silence, self.silence];
            assert(peaks@[0] == model.silence && peaks@[1] == model.silence);
            let send = &self.source_sends[i];
            if !(send.muted || !send.enabled) {
                let source: &[S] = source_blocks[send.input_index];
                assert(source@ == sources[link.input]);
                proof {
                    lemma_div_is_ordered(
                        source@.len() as int,
                        (model.block_frames * model.source_channels) as int,
                        sc,
                    );
                    lemma_stage_len(
                        arith,
                        model.source_links.take(i as int),
                        sources,
                        sc,
                        bc,
                        link.output,
                        start,
                    );
                }
                let target = send.output_index;
                peaks = mix_block(
                    ops,
                    self.silence,
                    source,
                    self.source_channels,
                    &mut self.bus_blocks[target],
                    self.bus_channels,
                    send,
                );
            }
            self.send_peaks[i].1 = peaks;
            proof {
                assert((peaks@[0], peaks@[1]) == link_peaks(
                    arith,
                    model.silence,
                    link,
                    sources,
                    sc,
                ));
                assert(self.send_peaks@ =~= prior_peaks.update(
                    i as int,
                    (prior_peaks[i as int].0, peaks),
                ));
                assert(peak_ids(self.send_peaks@) =~= peak_ids(prior_peaks));
                assert(self@ =~= model);
                assert forall|b: int| 0 <= b < model.bus_count implies (
                #[trigger] self.bus_blocks@[b])@ == stage(
                    arith,
                    model.source_links.take(i + 1),
                    sources,
                    sc,
                    bc,
                    b,
                    start,
                ) by {
                    assert(prior[b]@ == stage(
                        arith,
                        model.source_links.take(i as int),
                        sources,
                        sc,
                        bc,
                        b,
                        start,
                    ));
                    lemma_stage_len(
                        arith,
                        model.source_links.take(i + 1),
                        sources,
                        sc,
                        bc,
                        b,
                        start,
                    );
                }
                assert forall|j: int| 0 <= j < i + 1 implies (#[trigger] self.last_peaks()[j])
                    == link_peaks(arith, model.silence, model.source_links[j], sources, sc) by {
                    if j < i {
                        assert(self.last_peaks()[j] == prior_last[j]);
                    }
                }
            }
        }
        let ghost buses = model.buses(arith, sources);
        proof {
            assert(model.source_links.take(model.source_links.len() as int)
                =~= model.source_links);
            assert(blocks(self.bus_blocks@) =~= buses);
        }
        let second = self.bus_sends.len();
        let total = self.send_peaks.len();
        assert(total == model.send_ids().len());
        for i in 0..second
            invariant
                total == first + second,
                second == model.bus_links.len(),
                ops_are_functions::<S, M, A, G, L>(*ops),
                arith == arithmetic_of::<S, M, A, G, L>(*ops),
                self.wf(),
                self@ == model,
                buses == model.buses(arith, sources),
                blocks(self.bus_blocks@) == buses,
                first == model.source_links.len(),
                sc == model.source_channels,
                bc == model.bus_channels,
                kc == model.sink_channels,
                ((model.block_frames * model.bus_channels) as int) / bc == model.block_frames,
                ((model.block_frames * model.sink_channels) as int) / kc == model.block_frames,
                sink_start.len() == model.block_frames * model.sink_channels,
                sink_blocks@.len() == model.sink_count,
                forall|t: int|
                    0 <= t < model.sink_count ==> (#[trigger] sink_blocks@[t])@ == stage(
                        arith,
                        model.bus_links.take(i as int),
                        buses,
                        bc,
                        kc,
                        t,
                        sink_start,
                    ),
                forall|j: int|
                    0 <= j < first ==> (#[trigger] self.last_peaks()[j]) == link_peaks(
                        arith,
                        model.silence,
                        model.source_links[j],
                        sources,
                        sc,
                    ),
                forall|j: int|
                    first <= j < first + i ==> (#[trigger] self.last_peaks()[j]) == link_peaks(
                        arith,
                        model.silence,
                        model.bus_links[j - first],
                        buses,
                        bc,
                    ),
        {
            let ghost link = model.bus_links[i as int];
            let ghost prior = sink_blocks@;
            let ghost prior_peaks = self.send_peaks@;
            let ghost prior_last = self.last_peaks();
            proof {
                assert(link == self.bus_sends@[i as int]@);
                assert(link.fits(model.bus_count as int, bc, model.sink_count as int, kc));
                assert(model.bus_links.take(i + 1).drop_last() =~= model.bus_links.take(i as int));
                assert(model.bus_links.take(i + 1).last() == link);
                assert(self.send_peaks@.len() == model.send_ids().len());
            }
            let mut peaks = [self.silence, self.silence];
            assert(peaks@[0] == model.silence && peaks@[1] == model.silence);
            let send = &self.bus_sends[i];
            if !(send.muted || !send.enabled) {
                let bus = &self.bus_blocks[send.input_index];
                assert(bus@ == buses[link.input]);
                proof {
                    lemma_stage_len(
                        arith,
                        model.bus_links.take(i as int),
                        buses,
                        bc,
                        kc,
                        link.output,
                        sink_start,
                    );
                    assert(bus@.len() == model.block_frames * model.bus_channels);
                }
                let target = send.output_index;
                peaks = mix_block(
                    ops,
                    self.silence,
                    bus.as_slice(),
                    self.bus_channels,
                    &mut sink_blocks[target],
                    self.sink_channels,
                    send,
                );
            }
            let at: usize = first + i;
            self.send_peaks[at].1 = peaks;
            proof {
                assert((peaks@[0], peaks@[1]) == link_peaks(arith, model.silence, link, buses, bc));
                assert(self.send_peaks@ =~= prior_peaks.update(
                    at as int,
                    (prior_peaks[at as int].0, peaks),
                ));
                assert(peak_ids(self.send_peaks@) =~= peak_ids(prior_peaks));
                assert(self@ =~= model);
                assert forall|t: int| 0 <= t < model.sink_count implies (
                #[trigger] sink_blocks@[t])@ == stage(
                    arith,
                    model.bus_links.take(i + 1),
                    buses,
                    bc,
                    kc,
                    t,
                    sink_start,
                ) by {
                    assert(prior[t]@ == stage(
                        arith,
                        model.bus_links.take(i as int),
                        buses,
                        bc,
                        kc,
                        t,
                        sink_start,
                    ));
                }
                assert forall|j: int| 0 <= j < first + i + 1 implies (
                #[trigger] self.last_peaks()[j]) == (if j < first {
                    link_peaks(arith, model.silence, model.source_links[j], sources, sc)
                } else {
                    link_peaks(arith, model.silence, model.bus_links[j - first], buses, bc)
                }) by {
                    if j < first + i {
                        assert(self.last_peaks()[j] == prior_last[j]);
                    }
                }
            }
        }
        proof {
            assert(model.bus_links.take(model.bus_links.len() as int) =~= model.bus_links);
            assert(blocks(sink_blocks@) =~= model.sinks(arith, sources));
            assert(self.send_peaks@.len() == model.send_ids().len());
            assert(self.last_peaks() =~= model.peaks(arith, sources));
        }
        Ok(())
    }
}

/// The message of a fault. `shown` writes a gain as a number.
pub open spec fn mixer_fault_text(fault: MixerFault, shown: spec_fn(Decibels) -> Seq<char>) -> Seq<
    char,
> {
    match fault {
        MixerFault::Graph(fault) => "路由图错误: "@ + graph_fault_text(fault, shown),
        MixerFault::ZeroBlockFrames => "block frame 数必须大于 0"@,
        MixerFault::ZeroSourceChannels => "输入 source 声道数必须大于 0"@,
        MixerFault::ZeroSinkChannels => "输出 sink 声道数必须大于 0"@,
        MixerFault::BlockSampleCountOverflow => "block 样本容量溢出"@,
        MixerFault::SourceChannelOutOfRange { send_index, channel, channels } => {
            "send "@ + decimal_text(send_index as nat) + " 的 source channel "@
                + decimal_text(channel as nat) + " 超出范围 "@ + decimal_text(channels as nat)
        },
        MixerFault::BusChannelOutOfRange { send_index, channel, channels } => {
            "send "@ + decimal_text(send_index as nat) + " 的 bus channel "@
                + decimal_text(channel as nat) + " 超出范围 "@ + decimal_text(channels as nat)
        },
        MixerFault::SinkChannelOutOfRange { send_index, channel, channels } => {
            "send "@ + decimal_text(send_index as nat) + " 的 sink channel "@
                + decimal_text(channel as nat) + " 超出范围 "@ + decimal_text(channels as nat)
        },
        MixerFault::SourceCountMismatch { expected, actual } => {
            "source block 数量 "@ + decimal_text(actual as nat) + " 与计划要求 "@
                + decimal_text(expected as nat) + " 不一致"@
        },
        MixerFault::SinkCountMismatch { expected, actual } => {
            "sink block 数量 "@ + decimal_text(actual as nat) + " 与计划要求 "@
                + decimal_text(expected as nat) + " 不一致"@
        },
        MixerFault::SourceBlockLength { index, expected, actual } => {
            "source "@ + decimal_text(index as nat) + " 样本长度 "@ + decimal_text(actual as nat)
                + "，期望不超过 "@ + decimal_text(expected as nat)
        },
        MixerFault::SourceBlockUnaligned { index, samples, channels } => {
            "source "@ + decimal_text(index as nat) + " 样本长度 "@ + decimal_text(samples as nat)
                + " 不能按 "@ + decimal_text(channels as nat) + " 声道对齐"@
        },
        MixerFault::SinkBlockLength { index, expected, actual } => {
            "sink "@ + decimal_text(index as nat) + " 样本长度 "@ + decimal_text(actual as nat)
                + "，期望 "@ + decimal_text(expected as nat)
        },
    }
}

impl MixerError {
    /// The message of the error. `show_gain` writes a gain as a number.
    pub fn message<F: Fn(Decibels) -> String>(&self, show_gain: &F) -> (text: String)
        requires
            is_unary::<Decibels, String, F>(*show_gain),
        ensures
            text@ == mixer_fault_text(self@, shown_gain(*show_gain)),
    {
        match self {
            MixerError::Graph(e) => joined("路由图错误: ", e.message(show_gain).as_str()),
            MixerError::ZeroBlockFrames => "block frame 数必须大于 0".to_owned(),
            MixerError::ZeroSourceChannels => "输入 source 声道数必须大于 0".to_owned(),
            MixerError::ZeroSinkChannels => "输出 sink 声道数必须大于 0".to_owned(),
            MixerError::BlockSampleCountOverflow => "block 样本容量溢出".to_owned(),
            MixerError::SourceChannelOutOfRange { send_index, channel, channels } => {
                let mut text = "send ".to_owned();
                push_decimal(&mut text, *send_index as u64);
                text.append(" 的 source channel ");
                push_decimal(&mut text, *channel as u64);
                text.append(" 超出范围 ");
                push_decimal(&mut text, *channels as u64);
                text
            },
            MixerError::BusChannelOutOfRange { send_index, channel, channels } => {
                let mut text = "send ".to_owned();
                push_decimal(&mut text, *send_index as u64);
                text.append(" 的 bus channel ");
                push_decimal(&mut text, *channel as u64);
                text.append(" 超出范围 ");
                push_decimal(&mut text, *channels as u64);
                text
            },
            MixerError::SinkChannelOutOfRange { send_index, channel, channels } => {
                let mut text = "send ".to_owned();
                push_decimal(&mut text, *send_index as u64);
                text.append(" 的 sink channel ");
                push_decimal(&mut text, *channel as u64);
                text.append(" 超出范围 ");
                push_decimal(&mut text, *channels as u64);
                text
            },
            MixerError::SourceCountMismatch { expected, actual } => {
                let mut text = "source block 数量 ".to_owned();
                push_decimal(&mut text, *actual as u64);
                text.append(" 与计划要求 ");
                push_decimal(&mut text, *expected as u64);
                text.append(" 不一致");
                text
            },
            MixerError::SinkCountMismatch { expected, actual } => {
                let mut text = "sink block 数量 ".to_owned();
                push_decimal(&mut text, *actual as u64);
                text.append(" 与计划要求 ");
                push_decimal(&mut text, *expected as u64);
                text.append(" 不一致");
                text
            },
            MixerError::SourceBlockLength { index, expected, actual } => {
                let mut text = "source ".to_owned();
                push_decimal(&mut text, *index as u64);
                text.append(" 样本长度 ");
                push_decimal(&mut text, *actual as u64);
                text.append("，期望不超过 ");
                push_decimal(&mut text, *expected as u64);
                text
            },
            MixerError::SourceBlockUnaligned { index, samples, channels } => {
                let mut text = "source ".to_owned();
                push_decimal(&mut text, *index as u64);
                text.append(" 样本长度 ");
                push_decimal(&mut text, *samples as u64);
                text.append(" 不能按 ");
                push_decimal(&mut text, *channels as u64);
                text.append(" 声道对齐");
                text
            },
            MixerError::SinkBlockLength { index, expected, actual } => {
                let mut text = "sink ".to_owned();
                push_decimal(&mut text, *index as u64);
                text.append(" 样本长度 ");
                push_decimal(&mut text, *actual as u64);
                text.append("，期望 ");
                push_decimal(&mut text, *expected as u64);
                text
            },
        }
    }
}

/// Whether a send is heard at an output.
pub open spec fn is_heard<S>(link: LinkModel<S>, target: int) -> bool {
    link.active() && link.output == target
}

/// An output that no send is heard at stays as it was: silent.
pub proof fn law_unfed_output_is_silent<S>(
    ops: Arithmetic<S>,
    links: Seq<LinkModel<S>>,
    inputs: Seq<Seq<S>>,
    input_channels: int,
    output_channels: int,
    target: int,
    block: Seq<S>,
)
    requires
        forall|i: int| 0 <= i < links.len() ==> !is_heard(#[trigger] links[i], target),
    ensures
        stage(ops, links, inputs, input_channels, output_channels, target, block) == block,
    decreases links.len(),
{
    if links.len() > 0 {
        let init = links.drop_last();
        assert(links[links.len() - 1] == links.last());
        assert forall|i: int| 0 <= i < init.len() implies !is_heard(#[trigger] init[i], target) by {
            assert(init[i] == links[i]);
        }
        law_unfed_output_is_silent(
            ops,
            init,
            inputs,
            input_channels,
            output_channels,
            target,
            block,
        );
    }
}

/// An output depends on the inputs that are heard at it alone: what else happens to other
/// inputs, or to other sends, does not reach it.
pub proof fn law_outputs_are_isolated<S>(
    ops: Arithmetic<S>,
    links: Seq<LinkModel<S>>,
    inputs: Seq<Seq<S>>,
    others: Seq<Seq<S>>,
    input_channels: int,
    output_channels: int,
    target: int,
    block: Seq<S>,
)
    requires
        forall|i: int|
            0 <= i < links.len() && is_heard(#[trigger] links[i], target)
                ==> inputs[links[i].input] == others[links[i].input],
    ensures
        stage(ops, links, inputs, input_channels, output_channels, target, block) == stage(
            ops,
            links,
            others,
            input_channels,
            output_channels,
            target,
            block,
        ),
    decreases links.len(),
{
    if links.len() > 0 {
        let init = links.drop_last();
        assert(links[links.len() - 1] == links.last());
        assert forall|i: int| 0 <= i < init.len() && is_heard(#[trigger] init[i], target) implies
            inputs[init[i].input] == others[init[i].input] by {
            assert(init[i] == links[i]);
        }
        law_outputs_are_isolated(
            ops,
            init,
            inputs,
            others,
            input_channels,
            output_channels,
            target,
            block,
        );
    }
}

/// A send that is muted or not enabled is not heard: an output is the same with and
/// without the sends that are not heard at it.
pub proof fn law_only_heard_sends_count<S>(
    ops: Arithmetic<S>,
    links: Seq<LinkModel<S>>,
    inputs: Seq<Seq<S>>,
    input_channels: int,
    output_channels: int,
    target: int,
    block: Seq<S>,
)
    ensures
        stage(ops, links, inputs, input_channels, output_channels, target, block) == stage(
            ops,
            links.filter(|l: LinkModel<S>| is_heard(l, target)),
            inputs,
            input_channels,
            output_channels,
            target,
            block,
        ),
    decreases links.len(),
{
    reveal(Seq::filter);
    if links.len() > 0 {
        let init = links.drop_last();
        law_only_heard_sends_count(
            ops,
            init,
            inputs,
            input_channels,
            output_channels,
            target,
            block,
        );
        let heard = init.filter(|l: LinkModel<S>| is_heard(l, target));
        assert(heard.push(links.last()).drop_last() =~= heard);
    }
}

/// Where every source that is heard has ended, an output is as it was: silent. A source
/// that is short is silent behind its end, and nothing is cut off.
pub proof fn law_short_sources_end_in_silence<S>(
    ops: Arithmetic<S>,
    links: Seq<LinkModel<S>>,
    inputs: Seq<Seq<S>>,
    input_channels: int,
    output_channels: int,
    target: int,
    block: Seq<S>,
    k: int,
)
    requires
        0 <= k < block.len(),
        forall|i: int|
            0 <= i < links.len() && is_heard(#[trigger] links[i], target) ==> k / output_channels
                >= inputs[links[i].input].len() as int / input_channels,
    ensures
        stage(ops, links, inputs, input_channels, output_channels, target, block).len()
            == block.len(),
        stage(ops, links, inputs, input_channels, output_channels, target, block)[k] == block[k],
    decreases links.len(),
{
    if links.len() > 0 {
        let init = links.drop_last();
        assert(links[links.len() - 1] == links.last());
        assert forall|i: int| 0 <= i < init.len() && is_heard(#[trigger] init[i], target) implies k
            / output_channels >= inputs[init[i].input].len() as int / input_channels by {
            assert(init[i] == links[i]);
        }
        law_short_sources_end_in_silence(
            ops,
            init,
            inputs,
            input_channels,
            output_channels,
            target,
            block,
            k,
        );
    }
}

/// A send that is muted or not enabled has no peaks.
pub proof fn law_unheard_send_has_no_peaks<S>(
    ops: Arithmetic<S>,
    silence: S,
    link: LinkModel<S>,
    inputs: Seq<Seq<S>>,
    input_channels: int,
)
    requires
        !link.active(),
    ensures
        link_peaks(ops, silence, link, inputs, input_channels) == (silence, silence),
{
}

} // verus!
