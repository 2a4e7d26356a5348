//! What mixing does, stated over the routing graph and the samples alone.

use crate::decibels::Decibels;
use crate::mixer::{
    block_peak, bus_links, channel_pairs, frame_of, frame_peak, larger, map_fault, mixed_sample,
    pair_fault, plan_fault, plan_of, silent_block, source_links, stage, Arithmetic, LinkModel,
    MixerFault, PlanModel,
};
use crate::routing::{
    bus_index, sink_index, source_index, BusModel, GraphModel, SendEnds, SendModel, SinkModel,
    SourceModel,
};
use vstd::prelude::*;

verus! {

/// Whether a channel map brings channel `from`, and no other one, to channel `to`. A map
/// without pairs joins equal channels.
pub open spec fn brings_only(
    map: Seq<(u16, u16)>,
    inputs: nat,
    outputs: nat,
    from: int,
    to: int,
) -> bool {
    if map.len() == 0 {
        from == to && 0 <= to < inputs && to < outputs
    } else {
        exists|p: int|
            0 <= p < map.len() && #[trigger] map[p] == (from as u16, to as u16) && 0 <= from
                <= u16::MAX && 0 <= to <= u16::MAX && forall|q: int|
                0 <= q < map.len() && q != p ==> (#[trigger] map[q]).1 != to
    }
}

/// Whether a channel map brings nothing to channel `to`.
pub open spec fn brings_nothing(map: Seq<(u16, u16)>, inputs: nat, outputs: nat, to: int) -> bool {
    if map.len() == 0 {
        !(0 <= to < inputs && to < outputs)
    } else {
        forall|q: int| 0 <= q < map.len() ==> (#[trigger] map[q]).1 != to
    }
}

/// Whether no two sources, buses or sinks of a graph have one identifier.
pub open spec fn names_are_apart(graph: GraphModel) -> bool {
    &&& forall|i: int, j: int|
        0 <= i < j < graph.sources.len() ==> (#[trigger] graph.sources[i]).id != (
        #[trigger] graph.sources[j]).id
    &&& forall|i: int, j: int|
        0 <= i < j < graph.buses.len() ==> (#[trigger] graph.buses[i]).id != (
        #[trigger] graph.buses[j]).id
    &&& forall|i: int, j: int|
        0 <= i < j < graph.sinks.len() ==> (#[trigger] graph.sinks[i]).id != (
        #[trigger] graph.sinks[j]).id
}

/// Whether a send leads into the bus.
pub open spec fn enters_bus(send: SendModel, bus: BusModel) -> bool {
    send.ends matches SendEnds::SourceToBus { bus_id, .. } && bus_id == bus.id
}

/// Whether a send leads into the sink.
pub open spec fn enters_sink(send: SendModel, sink: SinkModel) -> bool {
    send.ends matches SendEnds::BusToSink { sink_id, .. } && sink_id == sink.id
}

/// Whether a send joins the source and the bus.
pub open spec fn from_source(send: SendModel, source: SourceModel, bus: BusModel) -> bool {
    send.ends == (SendEnds::SourceToBus { source_id: source.id, bus_id: bus.id })
}

/// Whether a send joins the bus and the sink.
pub open spec fn from_bus(send: SendModel, bus: BusModel, sink: SinkModel) -> bool {
    send.ends == (SendEnds::BusToSink { bus_id: bus.id, sink_id: sink.id })
}

/// The shape and the arithmetic of a mix.
#[verifier::reject_recursive_types(S)]
pub struct Mix<S> {
    pub block_frames: nat,
    pub source_channels: nat,
    pub sink_channels: nat,
    pub silence: S,
    pub linear: spec_fn(Decibels) -> S,
    pub ops: Arithmetic<S>,
}

impl<S> Mix<S> {
    /// The channels that a bus has: as many as the wider side.
    pub open spec fn bus_channels(self) -> nat {
        if self.source_channels < self.sink_channels {
            self.sink_channels
        } else {
            self.source_channels
        }
    }

    /// What the buses carry.
    pub open spec fn buses(self, graph: GraphModel, sources: Seq<Seq<S>>) -> Seq<Seq<S>> {
        plan_of(
            graph,
            self.block_frames,
            self.source_channels,
            self.sink_channels,
            self.silence,
            self.linear,
        ).buses(self.ops, sources)
    }

    /// What the sinks play.
    pub open spec fn sinks(self, graph: GraphModel, sources: Seq<Seq<S>>) -> Seq<Seq<S>> {
        plan_of(
            graph,
            self.block_frames,
            self.source_channels,
            self.sink_channels,
            self.silence,
            self.linear,
        ).sinks(self.ops, sources)
    }
}

proof fn lemma_source_at(sources: Seq<SourceModel>, i: int)
    requires
        0 <= i < sources.len(),
        forall|x: int, y: int|
            0 <= x < y < sources.len() ==> (#[trigger] sources[x]).id != (#[trigger] sources[y]).id,
    ensures
        source_index(sources, sources[i].id) == i,
    decreases i,
{
    if i > 0 {
        let rest = sources.skip(1);
        assert(sources[0].id != sources[i].id);
        assert forall|x: int, y: int| 0 <= x < y < rest.len() implies (#[trigger] rest[x]).id != (
        #[trigger] rest[y]).id by {
            assert(rest[x] == sources[x + 1] && rest[y] == sources[y + 1]);
        }
        assert(rest[i - 1] == sources[i]);
        lemma_source_at(rest, i - 1);
    }
}

proof fn lemma_bus_at(buses: Seq<BusModel>, i: int)
    requires
        0 <= i < buses.len(),
        forall|x: int, y: int|
            0 <= x < y < buses.len() ==> (#[trigger] buses[x]).id != (#[trigger] buses[y]).id,
    ensures
        bus_index(buses, buses[i].id) == i,
    decreases i,
{
    if i > 0 {
        let rest = buses.skip(1);
        assert(buses[0].id != buses[i].id);
        assert forall|x: int, y: int| 0 <= x < y < rest.len() implies (#[trigger] rest[x]).id != (
        #[trigger] rest[y]).id by {
            assert(rest[x] == buses[x + 1] && rest[y] == buses[y + 1]);
        }
        assert(rest[i - 1] == buses[i]);
        lemma_bus_at(rest, i - 1);
    }
}

proof fn lemma_sink_at(sinks: Seq<SinkModel>, i: int)
    requires
        0 <= i < sinks.len(),
        forall|x: int, y: int|
            0 <= x < y < sinks.len() ==> (#[trigger] sinks[x]).id != (#[trigger] sinks[y]).id,
    ensures
        sink_index(sinks, sinks[i].id) == i,
    decreases i,
{
    if i > 0 {
        let rest = sinks.skip(1);
        assert(sinks[0].id != sinks[i].id);
        assert forall|x: int, y: int| 0 <= x < y < rest.len() implies (#[trigger] rest[x]).id != (
        #[trigger] rest[y]).id by {
            assert(rest[x] == sinks[x + 1] && rest[y] == sinks[y + 1]);
        }
        assert(rest[i - 1] == sinks[i]);
        lemma_sink_at(rest, i - 1);
    }
}

/// A bus that another identifier is looked for by is not found.
proof fn lemma_bus_not_at(buses: Seq<BusModel>, id: Seq<char>, i: int)
    requires
        0 <= i < buses.len(),
        buses[i].id != id,
    ensures
        bus_index(buses, id) != i,
    decreases i,
{
    if i > 0 {
        assert(buses.skip(1)[i - 1] == buses[i]);
        lemma_bus_not_at(buses.skip(1), id, i - 1);
    } else if buses.len() > 1 {
        lemma_bus_index_positive(buses.skip(1), id);
    } else {
        lemma_bus_index_positive(buses.skip(1), id);
    }
}

proof fn lemma_bus_index_positive(buses: Seq<BusModel>, id: Seq<char>)
    ensures
        bus_index(buses, id) >= 0,
    decreases buses.len(),
{
    if buses.len() > 0 {
        lemma_bus_index_positive(buses.skip(1), id);
    }
}

proof fn lemma_sink_not_at(sinks: Seq<SinkModel>, id: Seq<char>, i: int)
    requires
        0 <= i < sinks.len(),
        sinks[i].id != id,
    ensures
        sink_index(sinks, id) != i,
    decreases i,
{
    if i > 0 {
        assert(sinks.skip(1)[i - 1] == sinks[i]);
        lemma_sink_not_at(sinks.skip(1), id, i - 1);
    } else {
        lemma_sink_index_positive(sinks.skip(1), id);
    }
}

proof fn lemma_sink_index_positive(sinks: Seq<SinkModel>, id: Seq<char>)
    ensures
        sink_index(sinks, id) >= 0,
    decreases sinks.len(),
{
    if sinks.len() > 0 {
        lemma_sink_index_positive(sinks.skip(1), id);
    }
}

proof fn lemma_no_pair<S>(
    ops: Arithmetic<S>,
    before: S,
    frame: Seq<S>,
    gain: S,
    pairs: Seq<(usize, usize)>,
    channel: int,
)
    requires
        forall|q: int| 0 <= q < pairs.len() ==> (#[trigger] pairs[q]).1 != channel,
    ensures
        mixed_sample(ops, before, frame, gain, pairs, channel) == before,
    decreases pairs.len(),
{
    if pairs.len() > 0 {
        let init = pairs.drop_last();
        assert(pairs.last() == pairs[pairs.len() - 1]);
        assert forall|q: int| 0 <= q < init.len() implies (#[trigger] init[q]).1 != channel by {
            assert(init[q] == pairs[q]);
        }
        lemma_no_pair(ops, before, frame, gain, init, channel);
    }
}

proof fn lemma_one_pair<S>(
    ops: Arithmetic<S>,
    before: S,
    frame: Seq<S>,
    gain: S,
    pairs: Seq<(usize, usize)>,
    channel: int,
    p: int,
)
    requires
        0 <= p < pairs.len(),
        pairs[p].1 == channel,
        forall|q: int| 0 <= q < pairs.len() && q != p ==> (#[trigger] pairs[q]).1 != channel,
    ensures
        mixed_sample(ops, before, frame, gain, pairs, channel) == (ops.add)(
            before,
            (ops.scale)(frame[pairs[p].0 as int], gain),
        ),
    decreases pairs.len(),
{
    let init = pairs.drop_last();
    assert(pairs.last() == pairs[pairs.len() - 1]);
    if p == pairs.len() - 1 {
        assert forall|q: int| 0 <= q < init.len() implies (#[trigger] init[q]).1 != channel by {
            assert(init[q] == pairs[q]);
        }
        lemma_no_pair(ops, before, frame, gain, init, channel);
    } else {
        assert(init[p] == pairs[p]);
        assert forall|q: int| 0 <= q < init.len() && q != p implies (#[trigger] init[q]).1
            != channel by {
            assert(init[q] == pairs[q]);
        }
        lemma_one_pair(ops, before, frame, gain, init, channel, p);
    }
}

proof fn lemma_brings_only<S>(
    ops: Arithmetic<S>,
    before: S,
    frame: Seq<S>,
    gain: S,
    map: Seq<(u16, u16)>,
    inputs: nat,
    outputs: nat,
    from: int,
    to: int,
)
    requires
        brings_only(map, inputs, outputs, from, to),
        inputs <= usize::MAX,
        outputs <= usize::MAX,
    ensures
        mixed_sample(ops, before, frame, gain, channel_pairs(map, inputs, outputs), to) == (
        ops.add)(before, (ops.scale)(frame[from], gain)),
{
    let pairs = channel_pairs(map, inputs, outputs);
    if map.len() == 0 {
        assert(pairs[to] == (to as usize, to as usize));
        assert forall|q: int| 0 <= q < pairs.len() && q != to implies (#[trigger] pairs[q]).1
            != to by {
            assert(pairs[q] == (q as usize, q as usize));
        }
        lemma_one_pair(ops, before, frame, gain, pairs, to, to);
    } else {
        let p = choose|p: int|
            0 <= p < map.len() && #[trigger] map[p] == (from as u16, to as u16) && 0 <= from
                <= u16::MAX && 0 <= to <= u16::MAX && forall|q: int|
                0 <= q < map.len() && q != p ==> (#[trigger] map[q]).1 != to;
        assert(pairs[p] == (map[p].0 as usize, map[p].1 as usize));
        assert forall|q: int| 0 <= q < pairs.len() && q != p implies (#[trigger] pairs[q]).1
            != to by {
            assert(pairs[q] == (map[q].0 as usize, map[q].1 as usize));
        }
        lemma_one_pair(ops, before, frame, gain, pairs, to, p);
    }
}

proof fn lemma_brings_nothing<S>(
    ops: Arithmetic<S>,
    before: S,
    frame: Seq<S>,
    gain: S,
    map: Seq<(u16, u16)>,
    inputs: nat,
    outputs: nat,
    to: int,
)
    requires
        brings_nothing(map, inputs, outputs, to),
        inputs <= usize::MAX,
        outputs <= usize::MAX,
    ensures
        mixed_sample(ops, before, frame, gain, channel_pairs(map, inputs, outputs), to) == before,
{
    let pairs = channel_pairs(map, inputs, outputs);
    assert forall|q: int| 0 <= q < pairs.len() implies (#[trigger] pairs[q]).1 != to by {
        if map.len() == 0 {
            assert(pairs[q] == (q as usize, q as usize));
        } else {
            assert(pairs[q] == (map[q].0 as usize, map[q].1 as usize));
        }
    }
    lemma_no_pair(ops, before, frame, gain, pairs, to);
}

/// The index of a sample names its frame and its channel.
proof fn lemma_sample_place(frame: int, channel: int, channels: int, frames: int)
    requires
        0 <= frame < frames,
        0 <= channel < channels,
    ensures
        (frame * channels + channel) / channels == frame,
        (frame * channels + channel) % channels == channel,
        0 <= frame * channels + channel < frames * channels,
{
    vstd::arithmetic::div_mod::lemma_fundamental_div_mod_converse(
        frame * channels + channel,
        channels,
        frame,
        channel,
    );
    assert(0 <= frame * channels && (frame + 1) * channels <= frames * channels) by (nonlinear_arith)
        requires
            0 <= frame < frames,
            0 < channels,
    ;
    assert((frame + 1) * channels == frame * channels + channels) by (nonlinear_arith);
}

proof fn lemma_stage_length<S>(
    ops: Arithmetic<S>,
    links: Seq<LinkModel<S>>,
    inputs: Seq<Seq<S>>,
    input_channels: int,
    output_channels: int,
    target: int,
    block: Seq<S>,
)
    ensures
        stage(ops, links, inputs, input_channels, output_channels, target, block).len()
            == block.len(),
    decreases links.len(),
{
    if links.len() > 0 {
        lemma_stage_length(
            ops,
            links.drop_last(),
            inputs,
            input_channels,
            output_channels,
            target,
            block,
        );
    }
}

/// A graph with one more send behind the others.
pub open spec fn with_send(graph: GraphModel, send: SendModel) -> GraphModel {
    GraphModel { sends: graph.sends.push(send), ..graph }
}

proof fn lemma_source_links_prefix<S>(
    first: GraphModel,
    second: GraphModel,
    n: nat,
    source_channels: nat,
    bus_channels: nat,
    linear: spec_fn(Decibels) -> S,
)
    requires
        n <= first.sends.len(),
        n <= second.sends.len(),
        first.sources == second.sources,
        first.buses == second.buses,
        forall|i: int| 0 <= i < n ==> first.sends[i] == second.sends[i],
    ensures
        source_links(first, n, source_channels, bus_channels, linear) == source_links(
            second,
            n,
            source_channels,
            bus_channels,
            linear,
        ),
    decreases n,
{
    if n > 0 {
        lemma_source_links_prefix(
            first,
            second,
            (n - 1) as nat,
            source_channels,
            bus_channels,
            linear,
        );
        assert(first.sends[n - 1] == second.sends[n - 1]);
    }
}

proof fn lemma_bus_links_prefix<S>(
    first: GraphModel,
    second: GraphModel,
    n: nat,
    bus_channels: nat,
    sink_channels: nat,
    linear: spec_fn(Decibels) -> S,
)
    requires
        n <= first.sends.len(),
        n <= second.sends.len(),
        first.buses == second.buses,
        first.sinks == second.sinks,
        forall|i: int| 0 <= i < n ==> first.sends[i] == second.sends[i],
    ensures
        bus_links(first, n, bus_channels, sink_channels, linear) == bus_links(
            second,
            n,
            bus_channels,
            sink_channels,
            linear,
        ),
    decreases n,
{
    if n > 0 {
        lemma_bus_links_prefix(first, second, (n - 1) as nat, bus_channels, sink_channels, linear);
        assert(first.sends[n - 1] == second.sends[n - 1]);
    }
}

impl<S> Mix<S> {
    /// Whether the sizes are numbers that a machine holds, and none is 0.
    pub open spec fn has_shape(self) -> bool {
        &&& 0 < self.block_frames
        &&& 0 < self.source_channels <= usize::MAX
        &&& 0 < self.sink_channels <= usize::MAX
    }

    /// Buses and sinks are as many as the graph has, and their blocks are whole. Without
    /// sends all of them are silent.
    pub proof fn law_blocks_are_whole(self, graph: GraphModel, sources: Seq<Seq<S>>, i: int)
        ensures
            self.buses(graph, sources).len() == graph.buses.len(),
            self.sinks(graph, sources).len() == graph.sinks.len(),
            0 <= i < graph.buses.len() ==> self.buses(graph, sources)[i].len() == self.block_frames
                * self.bus_channels(),
            0 <= i < graph.sinks.len() ==> self.sinks(graph, sources)[i].len() == self.block_frames
                * self.sink_channels,
            graph.sends.len() == 0 ==> forall|b: int, k: int|
                0 <= b < graph.buses.len() && 0 <= k < self.block_frames * self.bus_channels()
                    ==> #[trigger] self.buses(graph, sources)[b][k] == self.silence,
            graph.sends.len() == 0 ==> forall|t: int, k: int|
                0 <= t < graph.sinks.len() && 0 <= k < self.block_frames * self.sink_channels
                    ==> #[trigger] self.sinks(graph, sources)[t][k] == self.silence,
    {
        let plan = plan_of(
            graph,
            self.block_frames,
            self.source_channels,
            self.sink_channels,
            self.silence,
            self.linear,
        );
        lemma_stage_length(
            self.ops,
            plan.source_links,
            sources,
            plan.source_channels as int,
            plan.bus_channels as int,
            i,
            silent_block(self.silence, self.block_frames * self.bus_channels()),
        );
        lemma_stage_length(
            self.ops,
            plan.bus_links,
            plan.buses(self.ops, sources),
            plan.bus_channels as int,
            plan.sink_channels as int,
            i,
            silent_block(self.silence, self.block_frames * self.sink_channels),
        );
    }

    proof fn lemma_source_send_is_last(self, graph: GraphModel, send: SendModel)
        ensures
            ({
                let (sc, bc) = (self.source_channels, larger(
                    self.source_channels,
                    self.sink_channels,
                ));
                let longer = with_send(graph, send);
                let before = source_links(graph, graph.sends.len(), sc, bc, self.linear);
                source_links(longer, longer.sends.len(), sc, bc, self.linear)
                    == if send.ends is SourceToBus {
                    before.push(crate::mixer::source_link(graph, send, sc, bc, self.linear))
                } else {
                    before
                }
            }),
    {
        let longer = with_send(graph, send);
        lemma_source_links_prefix(
            graph,
            longer,
            graph.sends.len(),
            self.source_channels,
            larger(self.source_channels, self.sink_channels),
            self.linear,
        );
        assert(longer.sends[graph.sends.len() as int] == send);
    }

    proof fn lemma_bus_send_is_last(self, graph: GraphModel, send: SendModel)
        ensures
            ({
                let (kc, bc) = (self.sink_channels, larger(
                    self.source_channels,
                    self.sink_channels,
                ));
                let longer = with_send(graph, send);
                let before = bus_links(graph, graph.sends.len(), bc, kc, self.linear);
                bus_links(longer, longer.sends.len(), bc, kc, self.linear)
                    == if send.ends is BusToSink {
                    before.push(crate::mixer::bus_link(graph, send, bc, kc, self.linear))
                } else {
                    before
                }
            }),
    {
        let longer = with_send(graph, send);
        lemma_bus_links_prefix(
            graph,
            longer,
            graph.sends.len(),
            larger(self.source_channels, self.sink_channels),
            self.sink_channels,
            self.linear,
        );
        assert(longer.sends[graph.sends.len() as int] == send);
    }

    /// A send that is heard adds the source, scaled by its gain, to its bus: to the channel
    /// that its map brings the source's channel to, behind what was there.
    pub proof fn law_source_send_adds_to_its_bus(
        self,
        graph: GraphModel,
        send: SendModel,
        sources: Seq<Seq<S>>,
        s: int,
        b: int,
        frame: int,
        from: int,
        to: int,
    )
        requires
            self.has_shape(),
            names_are_apart(graph),
            0 <= s < graph.sources.len(),
            0 <= b < graph.buses.len(),
            from_source(send, graph.sources[s], graph.buses[b]),
            send.enabled,
            !send.muted,
            0 <= frame < self.block_frames,
            (frame + 1) * self.source_channels <= sources[s].len(),
            0 <= from < self.source_channels,
            0 <= to < self.bus_channels(),
            brings_only(send.channel_map, self.source_channels, self.bus_channels(), from, to),
        ensures
            ({
                let at = frame * self.bus_channels() + to;
                self.buses(with_send(graph, send), sources)[b][at] == (self.ops.add)(
                    self.buses(graph, sources)[b][at],
                    (self.ops.scale)(
                        sources[s][frame * self.source_channels + from],
                        (self.linear)(send.gain_db),
                    ),
                )
            }),
    {
        let (sc, bc) = (self.source_channels, self.bus_channels());
        let at = frame * bc + to;
        let silent = silent_block(self.silence, self.block_frames * bc);
        self.lemma_source_send_is_last(graph, send);
        lemma_source_at(graph.sources, s);
        lemma_bus_at(graph.buses, b);
        lemma_sample_place(frame, to, bc as int, self.block_frames as int);
        let links = source_links(graph, graph.sends.len(), sc, bc, self.linear);
        let link = crate::mixer::source_link(graph, send, sc, bc, self.linear);
        assert(links.push(link).drop_last() =~= links);
        assert(links.push(link).last() == link);
        let before = stage(self.ops, links, sources, sc as int, bc as int, b, silent);
        lemma_stage_length(self.ops, links, sources, sc as int, bc as int, b, silent);
        lemma_frame(sources[s], sc as int, frame, from);
        lemma_brings_only(
            self.ops,
            before[at],
            frame_of(sources[s], sc as int, frame),
            (self.linear)(send.gain_db),
            send.channel_map,
            sc,
            bc,
            from,
            to,
        );
    }

    /// A send that is muted or not enabled, that leads elsewhere, that brings nothing to the
    /// channel, or whose source has ended leaves a bus as it was.
    pub proof fn law_bus_keeps_without_the_send(
        self,
        graph: GraphModel,
        send: SendModel,
        sources: Seq<Seq<S>>,
        b: int,
        frame: int,
        to: int,
    )
        requires
            self.has_shape(),
            names_are_apart(graph),
            0 <= b < graph.buses.len(),
            0 <= frame < self.block_frames,
            0 <= to < self.bus_channels(),
            send.muted || !send.enabled || !enters_bus(send, graph.buses[b]) || brings_nothing(
                send.channel_map,
                self.source_channels,
                self.bus_channels(),
                to,
            ) || (exists|s: int|
                0 <= s < graph.sources.len() && from_source(
                    send,
                    #[trigger] graph.sources[s],
                    graph.buses[b],
                ) && sources[s].len() < (frame + 1) * self.source_channels),
        ensures
            ({
                let at = frame * self.bus_channels() + to;
                self.buses(with_send(graph, send), sources)[b][at] == self.buses(
                    graph,
                    sources,
                )[b][at]
            }),
    {
        let (sc, bc) = (self.source_channels, self.bus_channels());
        let at = frame * bc + to;
        let silent = silent_block(self.silence, self.block_frames * bc);
        self.lemma_source_send_is_last(graph, send);
        lemma_bus_at(graph.buses, b);
        lemma_sample_place(frame, to, bc as int, self.block_frames as int);
        let links = source_links(graph, graph.sends.len(), sc, bc, self.linear);
        if send.ends is SourceToBus {
            let link = crate::mixer::source_link(graph, send, sc, bc, self.linear);
            assert(links.push(link).drop_last() =~= links);
            assert(links.push(link).last() == link);
            lemma_stage_length(self.ops, links, sources, sc as int, bc as int, b, silent);
            let before = stage(self.ops, links, sources, sc as int, bc as int, b, silent);
            if !enters_bus(send, graph.buses[b]) {
                lemma_bus_not_at(graph.buses, send.ends->SourceToBus_bus_id, b);
            } else if brings_nothing(send.channel_map, sc, bc, to) {
                lemma_brings_nothing(
                    self.ops,
                    before[at],
                    frame_of(sources[link.input], sc as int, frame),
                    (self.linear)(send.gain_db),
                    send.channel_map,
                    sc,
                    bc,
                    to,
                );
            } else if send.enabled && !send.muted {
                let s = choose|s: int|
                    0 <= s < graph.sources.len() && from_source(
                        send,
                        #[trigger] graph.sources[s],
                        graph.buses[b],
                    ) && sources[s].len() < (frame + 1) * self.source_channels;
                lemma_source_at(graph.sources, s);
                lemma_ended(sources[s].len() as int, sc as int, frame);
            }
        }
    }

    /// A send that is heard adds the bus, scaled by its gain, to its sink: to the channel
    /// that its map brings the bus's channel to, behind what was there.
    pub proof fn law_bus_send_adds_to_its_sink(
        self,
        graph: GraphModel,
        send: SendModel,
        sources: Seq<Seq<S>>,
        b: int,
        t: int,
        frame: int,
        from: int,
        to: int,
    )
        requires
            self.has_shape(),
            names_are_apart(graph),
            0 <= b < graph.buses.len(),
            0 <= t < graph.sinks.len(),
            from_bus(send, graph.buses[b], graph.sinks[t]),
            send.enabled,
            !send.muted,
            0 <= frame < self.block_frames,
            0 <= from < self.bus_channels(),
            0 <= to < self.sink_channels,
            brings_only(send.channel_map, self.bus_channels(), self.sink_channels, from, to),
        ensures
            ({
                let at = frame * self.sink_channels + to;
                self.sinks(with_send(graph, send), sources)[t][at] == (self.ops.add)(
                    self.sinks(graph, sources)[t][at],
                    (self.ops.scale)(
                        self.buses(graph, sources)[b][frame * self.bus_channels() + from],
                        (self.linear)(send.gain_db),
                    ),
                )
            }),
            self.buses(with_send(graph, send), sources) == self.buses(graph, sources),
    {
        let (kc, bc) = (self.sink_channels, self.bus_channels());
        let at = frame * kc + to;
        let silent = silent_block(self.silence, self.block_frames * kc);
        self.lemma_source_send_is_last(graph, send);
        self.lemma_bus_send_is_last(graph, send);
        lemma_bus_at(graph.buses, b);
        lemma_sink_at(graph.sinks, t);
        lemma_sample_place(frame, to, kc as int, self.block_frames as int);
        let buses = self.buses(graph, sources);
        assert(self.buses(with_send(graph, send), sources) =~= buses);
        let links = bus_links(graph, graph.sends.len(), bc, kc, self.linear);
        let link = crate::mixer::bus_link(graph, send, bc, kc, self.linear);
        assert(links.push(link).drop_last() =~= links);
        assert(links.push(link).last() == link);
        let before = stage(self.ops, links, buses, bc as int, kc as int, t, silent);
        lemma_stage_length(self.ops, links, buses, bc as int, kc as int, t, silent);
        self.law_blocks_are_whole(graph, sources, b);
        lemma_sample_place(frame, bc - 1, bc as int, self.block_frames as int);
        assert((frame + 1) * bc <= self.block_frames * bc) by (nonlinear_arith)
            requires
                0 <= frame < self.block_frames,
                bc > 0,
        ;
        lemma_frame(buses[b], bc as int, frame, from);
        lemma_brings_only(
            self.ops,
            before[at],
            frame_of(buses[b], bc as int, frame),
            (self.linear)(send.gain_db),
            send.channel_map,
            bc,
            kc,
            from,
            to,
        );
    }

    /// A send that is muted or not enabled, that leads elsewhere, or that brings nothing to
    /// the channel leaves a sink as it was, as long as the buses are the same.
    pub proof fn law_sink_keeps_without_the_send(
        self,
        graph: GraphModel,
        send: SendModel,
        sources: Seq<Seq<S>>,
        others: Seq<Seq<S>>,
        t: int,
        frame: int,
        to: int,
    )
        requires
            self.has_shape(),
            names_are_apart(graph),
            self.buses(with_send(graph, send), others) == self.buses(graph, sources),
            0 <= t < graph.sinks.len(),
            0 <= frame < self.block_frames,
            0 <= to < self.sink_channels,
            send.muted || !send.enabled || !enters_sink(send, graph.sinks[t]) || brings_nothing(
                send.channel_map,
                self.bus_channels(),
                self.sink_channels,
                to,
            ),
        ensures
            ({
                let at = frame * self.sink_channels + to;
                self.sinks(with_send(graph, send), others)[t][at] == self.sinks(
                    graph,
                    sources,
                )[t][at]
            }),
    {
        let (kc, bc) = (self.sink_channels, self.bus_channels());
        let at = frame * kc + to;
        let silent = silent_block(self.silence, self.block_frames * kc);
        self.lemma_bus_send_is_last(graph, send);
        lemma_sample_place(frame, to, kc as int, self.block_frames as int);
        let buses = self.buses(graph, sources);
        let links = bus_links(graph, graph.sends.len(), bc, kc, self.linear);
        if send.ends is BusToSink {
            let link = crate::mixer::bus_link(graph, send, bc, kc, self.linear);
            assert(links.push(link).drop_last() =~= links);
            assert(links.push(link).last() == link);
            lemma_stage_length(self.ops, links, buses, bc as int, kc as int, t, silent);
            let before = stage(self.ops, links, buses, bc as int, kc as int, t, silent);
            if !enters_sink(send, graph.sinks[t]) {
                lemma_sink_not_at(graph.sinks, send.ends->sink_id, t);
            } else if brings_nothing(send.channel_map, bc, kc, to) {
                lemma_brings_nothing(
                    self.ops,
                    before[at],
                    frame_of(buses[link.input], bc as int, frame),
                    (self.linear)(send.gain_db),
                    send.channel_map,
                    bc,
                    kc,
                    to,
                );
            }
        }
    }
}

/// A sample of a frame is that of the block.
proof fn lemma_frame<S>(block: Seq<S>, channels: int, frame: int, channel: int)
    requires
        0 <= frame,
        0 <= channel < channels,
        (frame + 1) * channels <= block.len(),
    ensures
        frame_of(block, channels, frame)[channel] == block[frame * channels + channel],
        frame < block.len() as int / channels,
{
    assert(0 <= frame * channels && (frame + 1) * channels == frame * channels + channels)
        by (nonlinear_arith)
        requires
            0 <= frame,
            0 < channels,
    ;
    vstd::arithmetic::div_mod::lemma_div_is_ordered(
        (frame + 1) * channels,
        block.len() as int,
        channels,
    );
    vstd::arithmetic::div_mod::lemma_div_multiples_vanish(frame + 1, channels);
    assert((frame + 1) * channels == channels * (frame + 1)) by (nonlinear_arith);
}

/// A block that ends before a frame has fewer frames.
proof fn lemma_ended(samples: int, channels: int, frame: int)
    requires
        0 <= samples < (frame + 1) * channels,
        0 < channels,
    ensures
        samples / channels <= frame,
{
    vstd::arithmetic::div_mod::lemma_fundamental_div_mod(samples, channels);
    assert(samples / channels <= frame) by (nonlinear_arith)
        requires
            samples == channels * (samples / channels) + samples % channels,
            samples % channels >= 0,
            samples < (frame + 1) * channels,
            0 < channels,
    ;
}

/// A graph with its first sends alone.
spec fn first_sends(graph: GraphModel, n: int) -> GraphModel {
    GraphModel { sends: graph.sends.take(n), ..graph }
}

impl<S> Mix<S> {
    proof fn lemma_bus_of_one_send(
        self,
        graph: GraphModel,
        sources: Seq<Seq<S>>,
        n: int,
        i: int,
        s: int,
        b: int,
        frame: int,
        from: int,
        to: int,
    )
        requires
            self.has_shape(),
            names_are_apart(graph),
            0 <= i < graph.sends.len(),
            0 <= n <= graph.sends.len(),
            0 <= s < graph.sources.len(),
            0 <= b < graph.buses.len(),
            from_source(graph.sends[i], graph.sources[s], graph.buses[b]),
            graph.sends[i].enabled && !graph.sends[i].muted,
            forall|x: int|
                0 <= x < graph.sends.len() && x != i && enters_bus(
                    #[trigger] graph.sends[x],
                    graph.buses[b],
                ) ==> graph.sends[x].muted || !graph.sends[x].enabled,
            0 <= frame < self.block_frames,
            (frame + 1) * self.source_channels <= sources[s].len(),
            0 <= from < self.source_channels,
            0 <= to < self.bus_channels(),
            brings_only(
                graph.sends[i].channel_map,
                self.source_channels,
                self.bus_channels(),
                from,
                to,
            ),
        ensures
            self.buses(first_sends(graph, n), sources)[b][frame * self.bus_channels() + to] == if n
                <= i {
                self.silence
            } else {
                (self.ops.add)(
                    self.silence,
                    (self.ops.scale)(
                        sources[s][frame * self.source_channels + from],
                        (self.linear)(graph.sends[i].gain_db),
                    ),
                )
            },
        decreases n,
    {
        let now = first_sends(graph, n);
        if n == 0 {
            lemma_sample_place(
                frame,
                to,
                self.bus_channels() as int,
                self.block_frames as int,
            );
            self.law_blocks_are_whole(now, sources, b);
        } else {
            let before = first_sends(graph, n - 1);
            let send = graph.sends[n - 1];
            assert(now.sends =~= before.sends.push(send));
            assert(now == with_send(before, send));
            self.lemma_bus_of_one_send(graph, sources, n - 1, i, s, b, frame, from, to);
            if n - 1 == i {
                self.law_source_send_adds_to_its_bus(
                    before,
                    send,
                    sources,
                    s,
                    b,
                    frame,
                    from,
                    to,
                );
            } else {
                self.law_bus_keeps_without_the_send(before, send, sources, b, frame, to);
            }
        }
    }

    proof fn lemma_sink_of_one_send(
        self,
        graph: GraphModel,
        sources: Seq<Seq<S>>,
        n: int,
        j: int,
        b: int,
        t: int,
        frame: int,
        from: int,
        to: int,
    )
        requires
            self.has_shape(),
            names_are_apart(graph),
            0 <= j < graph.sends.len(),
            0 <= n <= graph.sends.len(),
            0 <= b < graph.buses.len(),
            0 <= t < graph.sinks.len(),
            from_bus(graph.sends[j], graph.buses[b], graph.sinks[t]),
            graph.sends[j].enabled && !graph.sends[j].muted,
            forall|x: int|
                0 <= x < graph.sends.len() && x != j && enters_sink(
                    #[trigger] graph.sends[x],
                    graph.sinks[t],
                ) ==> graph.sends[x].muted || !graph.sends[x].enabled,
            0 <= frame < self.block_frames,
            0 <= from < self.bus_channels(),
            0 <= to < self.sink_channels,
            brings_only(
                graph.sends[j].channel_map,
                self.bus_channels(),
                self.sink_channels,
                from,
                to,
            ),
        ensures
            ({
                let (bc, kc) = (self.bus_channels(), self.sink_channels);
                let buses = self.buses(graph, sources);
                let silent = silent_block(self.silence, self.block_frames * kc);
                let links = bus_links(graph, n as nat, bc, kc, self.linear);
                let block = stage(self.ops, links, buses, bc as int, kc as int, t, silent);
                block[frame * kc + to] == if n <= j {
                    self.silence
                } else {
                    (self.ops.add)(
                        self.silence,
                        (self.ops.scale)(
                            buses[b][frame * bc + from],
                            (self.linear)(graph.sends[j].gain_db),
                        ),
                    )
                }
            }),
        decreases n,
    {
        let (kc, bc) = (self.sink_channels, self.bus_channels());
        let at = frame * kc + to;
        let silent = silent_block(self.silence, self.block_frames * kc);
        let buses = self.buses(graph, sources);
        lemma_sample_place(frame, to, kc as int, self.block_frames as int);
        if n > 0 {
            self.lemma_sink_of_one_send(graph, sources, n - 1, j, b, t, frame, from, to);
            let send = graph.sends[n - 1];
            let links = bus_links(graph, (n - 1) as nat, bc, kc, self.linear);
            if send.ends is BusToSink {
                let link = crate::mixer::bus_link(graph, send, bc, kc, self.linear);
                assert(links.push(link).drop_last() =~= links);
                assert(links.push(link).last() == link);
                let before = stage(self.ops, links, buses, bc as int, kc as int, t, silent);
                lemma_stage_length(self.ops, links, buses, bc as int, kc as int, t, silent);
                if n - 1 == j {
                    lemma_bus_at(graph.buses, b);
                    lemma_sink_at(graph.sinks, t);
                    self.law_blocks_are_whole(graph, sources, b);
                    assert((frame + 1) * bc <= self.block_frames * bc) by (nonlinear_arith)
                        requires
                            0 <= frame < self.block_frames,
                            bc > 0,
                    ;
                    lemma_frame(buses[b], bc as int, frame, from);
                    lemma_brings_only(
                        self.ops,
                        before[at],
                        frame_of(buses[b], bc as int, frame),
                        (self.linear)(send.gain_db),
                        send.channel_map,
                        bc,
                        kc,
                        from,
                        to,
                    );
                } else if !enters_sink(send, graph.sinks[t]) {
                    lemma_sink_not_at(graph.sinks, send.ends->sink_id, t);
                }
            }
        }
    }

    /// A sample goes its way through the graph: where one send into a bus and one send out
    /// of it into a sink are heard, the sink plays the source, scaled by the gain of the
    /// first send and then by that of the second one. Sends that are muted or not enabled do
    /// not count, whatever else the graph holds.
    pub proof fn law_route_plays(
        self,
        graph: GraphModel,
        sources: Seq<Seq<S>>,
        i: int,
        j: int,
        s: int,
        b: int,
        t: int,
        frame: int,
        from: int,
        over: int,
        to: int,
    )
        requires
            self.has_shape(),
            names_are_apart(graph),
            0 <= i < graph.sends.len(),
            0 <= j < graph.sends.len(),
            0 <= s < graph.sources.len(),
            0 <= b < graph.buses.len(),
            0 <= t < graph.sinks.len(),
            from_source(graph.sends[i], graph.sources[s], graph.buses[b]),
            from_bus(graph.sends[j], graph.buses[b], graph.sinks[t]),
            graph.sends[i].enabled && !graph.sends[i].muted,
            graph.sends[j].enabled && !graph.sends[j].muted,
            forall|x: int|
                0 <= x < graph.sends.len() && x != i && enters_bus(
                    #[trigger] graph.sends[x],
                    graph.buses[b],
                ) ==> graph.sends[x].muted || !graph.sends[x].enabled,
            forall|x: int|
                0 <= x < graph.sends.len() && x != j && enters_sink(
                    #[trigger] graph.sends[x],
                    graph.sinks[t],
                ) ==> graph.sends[x].muted || !graph.sends[x].enabled,
            0 <= frame < self.block_frames,
            (frame + 1) * self.source_channels <= sources[s].len(),
            0 <= from < self.source_channels,
            0 <= over < self.bus_channels(),
            0 <= to < self.sink_channels,
            brings_only(
                graph.sends[i].channel_map,
                self.source_channels,
                self.bus_channels(),
                from,
                over,
            ),
            brings_only(
                graph.sends[j].channel_map,
                self.bus_channels(),
                self.sink_channels,
                over,
                to,
            ),
        ensures
            self.sinks(graph, sources)[t][frame * self.sink_channels + to] == (self.ops.add)(
                self.silence,
                (self.ops.scale)(
                    (self.ops.add)(
                        self.silence,
                        (self.ops.scale)(
                            sources[s][frame * self.source_channels + from],
                            (self.linear)(graph.sends[i].gain_db),
                        ),
                    ),
                    (self.linear)(graph.sends[j].gain_db),
                ),
            ),
    {
        let n = graph.sends.len() as int;
        self.lemma_bus_of_one_send(graph, sources, n, i, s, b, frame, from, over);
        assert(graph.sends.take(n) =~= graph.sends);
        assert(first_sends(graph, n) == graph);
        self.lemma_sink_of_one_send(graph, sources, n, j, b, t, frame, over, to);
    }

    /// One more pair in the map of a send brings one more channel along: the bus gets the
    /// source's channel added behind what the other pairs bring, and nothing else changes.
    pub proof fn law_every_pair_of_a_map_counts(
        self,
        graph: GraphModel,
        send: SendModel,
        pair: (u16, u16),
        sources: Seq<Seq<S>>,
        s: int,
        b: int,
        frame: int,
        to: int,
    )
        requires
            self.has_shape(),
            names_are_apart(graph),
            0 <= s < graph.sources.len(),
            0 <= b < graph.buses.len(),
            from_source(send, graph.sources[s], graph.buses[b]),
            send.enabled,
            !send.muted,
            send.channel_map.len() > 0,
            0 <= frame < self.block_frames,
            (frame + 1) * self.source_channels <= sources[s].len(),
            pair.0 < self.source_channels,
            0 <= to < self.bus_channels(),
        ensures
            ({
                let wider = SendModel { channel_map: send.channel_map.push(pair), ..send };
                let at = frame * self.bus_channels() + to;
                let less = self.buses(with_send(graph, send), sources)[b][at];
                self.buses(with_send(graph, wider), sources)[b][at] == if to == pair.1 {
                    (self.ops.add)(
                        less,
                        (self.ops.scale)(
                            sources[s][frame * self.source_channels + pair.0],
                            (self.linear)(send.gain_db),
                        ),
                    )
                } else {
                    less
                }
            }),
    {
        let wider = SendModel { channel_map: send.channel_map.push(pair), ..send };
        let (sc, bc) = (self.source_channels, self.bus_channels());
        let at = frame * bc + to;
        let silent = silent_block(self.silence, self.block_frames * bc);
        self.lemma_source_send_is_last(graph, send);
        self.lemma_source_send_is_last(graph, wider);
        lemma_source_at(graph.sources, s);
        lemma_bus_at(graph.buses, b);
        lemma_sample_place(frame, to, bc as int, self.block_frames as int);
        let links = source_links(graph, graph.sends.len(), sc, bc, self.linear);
        let link = crate::mixer::source_link(graph, send, sc, bc, self.linear);
        let other = crate::mixer::source_link(graph, wider, sc, bc, self.linear);
        assert(links.push(link).drop_last() =~= links);
        assert(links.push(other).drop_last() =~= links);
        assert(other.pairs =~= link.pairs.push((pair.0 as usize, pair.1 as usize)));
        assert(other.pairs.drop_last() =~= link.pairs);
        lemma_stage_length(self.ops, links, sources, sc as int, bc as int, b, silent);
        lemma_frame(sources[s], sc as int, frame, pair.0 as int);
    }

    /// The same of a send out of a bus and its sink.
    pub proof fn law_every_pair_of_a_sink_map_counts(
        self,
        graph: GraphModel,
        send: SendModel,
        pair: (u16, u16),
        sources: Seq<Seq<S>>,
        b: int,
        t: int,
        frame: int,
        to: int,
    )
        requires
            self.has_shape(),
            names_are_apart(graph),
            0 <= b < graph.buses.len(),
            0 <= t < graph.sinks.len(),
            from_bus(send, graph.buses[b], graph.sinks[t]),
            send.enabled,
            !send.muted,
            send.channel_map.len() > 0,
            0 <= frame < self.block_frames,
            pair.0 < self.bus_channels(),
            0 <= to < self.sink_channels,
        ensures
            ({
                let wider = SendModel { channel_map: send.channel_map.push(pair), ..send };
                let at = frame * self.sink_channels + to;
                let less = self.sinks(with_send(graph, send), sources)[t][at];
                self.sinks(with_send(graph, wider), sources)[t][at] == if to == pair.1 {
                    (self.ops.add)(
                        less,
                        (self.ops.scale)(
                            self.buses(graph, sources)[b][frame * self.bus_channels() + pair.0],
                            (self.linear)(send.gain_db),
                        ),
                    )
                } else {
                    less
                }
            }),
    {
        let wider = SendModel { channel_map: send.channel_map.push(pair), ..send };
        let (kc, bc) = (self.sink_channels, self.bus_channels());
        let at = frame * kc + to;
        let silent = silent_block(self.silence, self.block_frames * kc);
        self.lemma_bus_send_is_last(graph, send);
        self.lemma_bus_send_is_last(graph, wider);
        self.lemma_source_send_is_last(graph, send);
        self.lemma_source_send_is_last(graph, wider);
        lemma_bus_at(graph.buses, b);
        lemma_sink_at(graph.sinks, t);
        lemma_sample_place(frame, to, kc as int, self.block_frames as int);
        let buses = self.buses(graph, sources);
        assert(self.buses(with_send(graph, send), sources) =~= buses);
        assert(self.buses(with_send(graph, wider), sources) =~= buses);
        self.law_blocks_are_whole(graph, sources, b);
        assert((frame + 1) * bc <= self.block_frames * bc) by (nonlinear_arith)
            requires
                0 <= frame < self.block_frames,
                bc > 0,
        ;
        let links = bus_links(graph, graph.sends.len(), bc, kc, self.linear);
        let link = crate::mixer::bus_link(graph, send, bc, kc, self.linear);
        let other = crate::mixer::bus_link(graph, wider, bc, kc, self.linear);
        assert(links.push(link).drop_last() =~= links);
        assert(links.push(other).drop_last() =~= links);
        assert(other.pairs =~= link.pairs.push((pair.0 as usize, pair.1 as usize)));
        assert(other.pairs.drop_last() =~= link.pairs);
        lemma_stage_length(self.ops, links, buses, bc as int, kc as int, t, silent);
        lemma_frame(buses[b], bc as int, frame, pair.0 as int);
    }
}

/// Whether a channel map joins channel `from` to channel `to`.
pub open spec fn joins(
    map: Seq<(u16, u16)>,
    inputs: nat,
    outputs: nat,
    from: int,
    to: int,
) -> bool {
    if map.len() == 0 {
        from == to && 0 <= to < inputs && to < outputs
    } else {
        exists|p: int|
            0 <= p < map.len() && (#[trigger] map[p]).0 as int == from && map[p].1 as int == to
    }
}

/// Whether `louder` puts magnitudes in an order.
pub open spec fn orders<S>(louder: spec_fn(S, S) -> bool) -> bool {
    &&& forall|a: S| !#[trigger] louder(a, a)
    &&& forall|a: S, b: S, c: S|
        #[trigger] louder(a, b) && #[trigger] louder(b, c) ==> louder(a, c)
}

proof fn lemma_frame_peak<S>(
    ops: Arithmetic<S>,
    peak: S,
    frame: Seq<S>,
    gain: S,
    pairs: Seq<(usize, usize)>,
    channel: int,
)
    requires
        orders(ops.louder),
    ensures
        ({
            let top = frame_peak(ops, peak, frame, gain, pairs, channel);
            &&& forall|x: S| !#[trigger] (ops.louder)(x, peak) ==> !(ops.louder)(x, top)
            &&& forall|p: int|
                0 <= p < pairs.len() && (#[trigger] pairs[p]).1 == channel ==> !(ops.louder)(
                    (ops.magnitude)((ops.scale)(frame[pairs[p].0 as int], gain)),
                    top,
                )
            &&& top == peak || exists|p: int|
                0 <= p < pairs.len() && (#[trigger] pairs[p]).1 == channel && top == (
                ops.magnitude)((ops.scale)(frame[pairs[p].0 as int], gain))
        }),
    decreases pairs.len(),
{
    if pairs.len() > 0 {
        let init = pairs.drop_last();
        let so_far = frame_peak(ops, peak, frame, gain, init, channel);
        let top = frame_peak(ops, peak, frame, gain, pairs, channel);
        let last = pairs[pairs.len() - 1];
        let magnitude = (ops.magnitude)((ops.scale)(frame[last.0 as int], gain));
        lemma_frame_peak(ops, peak, frame, gain, init, channel);
        assert forall|x: S| !#[trigger] (ops.louder)(x, so_far) implies !(ops.louder)(x, top) by {
            if (ops.louder)(x, top) && top != so_far {
                assert((ops.louder)(x, magnitude) && (ops.louder)(magnitude, so_far));
            }
        }
        assert forall|x: S| !#[trigger] (ops.louder)(x, peak) implies !(ops.louder)(x, top) by {
            assert(!(ops.louder)(x, so_far));
        }
        assert forall|p: int| 0 <= p < pairs.len() && (#[trigger] pairs[p]).1 == channel implies !(
        ops.louder)((ops.magnitude)((ops.scale)(frame[pairs[p].0 as int], gain)), top) by {
            if p < init.len() {
                assert(init[p] == pairs[p]);
            }
        }
        if top != peak {
            if top == so_far {
                let p = choose|p: int|
                    0 <= p < init.len() && (#[trigger] init[p]).1 == channel && so_far == (
                    ops.magnitude)((ops.scale)(frame[init[p].0 as int], gain));
                assert(pairs[p] == init[p]);
            } else {
                assert(pairs[pairs.len() - 1].1 == channel);
            }
        }
    }
}

/// Whether a magnitude is one that a send makes of a frame's channel.
pub open spec fn is_sent<S>(
    ops: Arithmetic<S>,
    block: Seq<S>,
    channels: nat,
    gain: S,
    frame: int,
    from: int,
    magnitude: S,
) -> bool {
    magnitude == (ops.magnitude)((ops.scale)(block[frame * channels + from], gain))
}

/// Whether a peak is the loudest of all magnitudes that a send brings to a channel, and
/// silence where it brings none that is louder.
pub open spec fn is_loudest<S>(
    ops: Arithmetic<S>,
    silence: S,
    block: Seq<S>,
    channels: nat,
    outputs: nat,
    gain: S,
    map: Seq<(u16, u16)>,
    to: int,
    peak: S,
) -> bool {
    &&& !(ops.louder)(silence, peak)
    &&& forall|frame: int, from: int, m: S|
        0 <= frame && 0 <= from < channels && (frame + 1) * channels <= block.len() && joins(
            map,
            channels,
            outputs,
            from,
            to,
        ) && #[trigger] is_sent(ops, block, channels, gain, frame, from, m) ==> !(ops.louder)(
            m,
            peak,
        )
    &&& peak == silence || exists|frame: int, from: int|
        0 <= frame && 0 <= from < channels && (frame + 1) * channels <= block.len() && joins(
            map,
            channels,
            outputs,
            from,
            to,
        ) && #[trigger] is_sent(ops, block, channels, gain, frame, from, peak)
}

proof fn lemma_block_peak<S>(
    ops: Arithmetic<S>,
    silence: S,
    block: Seq<S>,
    channels: nat,
    outputs: nat,
    gain: S,
    map: Seq<(u16, u16)>,
    to: int,
    frames: nat,
)
    requires
        orders(ops.louder),
        0 < channels <= usize::MAX,
        outputs <= usize::MAX,
        frames * channels <= block.len(),
        forall|p: int| 0 <= p < map.len() ==> (#[trigger] map[p]).0 < channels,
    ensures
        ({
            let pairs = channel_pairs(map, channels, outputs);
            let peak = block_peak(ops, silence, block, channels as int, gain, pairs, to, frames);
            is_loudest(
                ops,
                silence,
                block.take((frames * channels) as int),
                channels,
                outputs,
                gain,
                map,
                to,
                peak,
            )
        }),
    decreases frames,
{
    let pairs = channel_pairs(map, channels, outputs);
    let peak = block_peak(ops, silence, block, channels as int, gain, pairs, to, frames);
    let part = block.take((frames * channels) as int);
    if frames == 0 {
        assert(frames * channels == 0) by (nonlinear_arith)
            requires
                frames == 0,
        ;
        assert forall|frame: int, from: int, m: S|
            0 <= frame && 0 <= from < channels && (frame + 1) * channels <= part.len() && joins(
                map,
                channels,
                outputs,
                from,
                to,
            ) && #[trigger] is_sent(ops, part, channels, gain, frame, from, m) implies !(
        ops.louder)(m, peak) by {
            assert((frame + 1) * channels > 0) by (nonlinear_arith)
                requires
                    frame >= 0,
                    channels > 0,
            ;
        }
    } else {
        let less = (frames - 1) as nat;
        let shorter = block.take((less * channels) as int);
        let before = block_peak(ops, silence, block, channels as int, gain, pairs, to, less);
        assert(less * channels + channels == frames * channels) by (nonlinear_arith)
            requires
                less == frames - 1,
        ;
        lemma_block_peak(ops, silence, block, channels, outputs, gain, map, to, less);
        let last = frame_of(block, channels as int, frames - 1);
        lemma_frame_peak(ops, before, last, gain, pairs, to);
        assert(!(ops.louder)(silence, peak));
        assert forall|frame: int, from: int, m: S|
            0 <= frame && 0 <= from < channels && (frame + 1) * channels <= part.len() && joins(
                map,
                channels,
                outputs,
                from,
                to,
            ) && #[trigger] is_sent(ops, part, channels, gain, frame, from, m) implies !(
        ops.louder)(m, peak) by {
            lemma_frame(part, channels as int, frame, from);
            vstd::arithmetic::div_mod::lemma_div_multiples_vanish(frames as int, channels as int);
            assert(frames * channels == channels * frames) by (nonlinear_arith);
            assert(frame < frames);
            if frame < less {
                assert((frame + 1) * channels <= less * channels) by (nonlinear_arith)
                    requires
                        frame < less,
                        channels > 0,
                ;
                assert((frame + 1) * channels == frame * channels + channels) by (nonlinear_arith);
                assert(0 <= frame * channels) by (nonlinear_arith)
                    requires
                        frame >= 0,
                        channels > 0,
                ;
                assert(shorter[frame * channels + from] == part[frame * channels + from]);
                assert(is_sent(ops, shorter, channels, gain, frame, from, m));
                assert(!(ops.louder)(m, before));
            } else {
                lemma_frame(block, channels as int, frame, from);
                let p = if map.len() == 0 {
                    to
                } else {
                    choose|p: int|
                        0 <= p < map.len() && (#[trigger] map[p]).0 as int == from
                            && map[p].1 as int == to
                };
                if map.len() == 0 {
                    assert(pairs[p] == (p as usize, p as usize));
                } else {
                    assert(pairs[p] == (map[p].0 as usize, map[p].1 as usize));
                }
                assert(pairs[p].1 == to && pairs[p].0 == from);
                assert(part[frame * channels + from] == block[frame * channels + from]);
            }
        }
        if peak != silence {
            if peak == before {
                let (frame, from) = choose|frame: int, from: int|
                    0 <= frame && 0 <= from < channels && (frame + 1) * channels <= shorter.len()
                        && joins(map, channels, outputs, from, to) && #[trigger] is_sent(
                        ops,
                        shorter,
                        channels,
                        gain,
                        frame,
                        from,
                        before,
                    );
                assert((frame + 1) * channels == frame * channels + channels) by (nonlinear_arith);
                assert(0 <= frame * channels) by (nonlinear_arith)
                    requires
                        frame >= 0,
                        channels > 0,
                ;
                assert(shorter[frame * channels + from] == part[frame * channels + from]);
                assert(is_sent(ops, part, channels, gain, frame, from, peak));
            } else {
                let p = choose|p: int|
                    0 <= p < pairs.len() && (#[trigger] pairs[p]).1 == to && peak == (
                    ops.magnitude)((ops.scale)(last[pairs[p].0 as int], gain));
                let from = pairs[p].0 as int;
                if map.len() == 0 {
                    assert(pairs[p] == (p as usize, p as usize));
                } else {
                    assert(pairs[p] == (map[p].0 as usize, map[p].1 as usize));
                }
                assert(joins(map, channels, outputs, from, to));
                assert((less + 1) * channels <= block.len());
                lemma_frame(block, channels as int, less as int, from);
                assert(0 <= less * channels) by (nonlinear_arith);
                assert(part[less * channels + from] == block[less * channels + from]);
                assert(is_sent(ops, part, channels, gain, less as int, from, peak));
            }
        }
    }
}

proof fn lemma_source_link_is_there<S>(
    graph: GraphModel,
    n: nat,
    x: int,
    sc: nat,
    bc: nat,
    linear: spec_fn(Decibels) -> S,
) -> (at: int)
    requires
        0 <= x < n <= graph.sends.len(),
        graph.sends[x].ends is SourceToBus,
    ensures
        0 <= at < source_links(graph, n, sc, bc, linear).len(),
        source_links(graph, n, sc, bc, linear)[at] == crate::mixer::source_link(
            graph,
            graph.sends[x],
            sc,
            bc,
            linear,
        ),
    decreases n,
{
    let before = source_links(graph, (n - 1) as nat, sc, bc, linear);
    if x == n - 1 {
        before.len() as int
    } else {
        lemma_source_link_is_there(graph, (n - 1) as nat, x, sc, bc, linear)
    }
}

proof fn lemma_bus_link_is_there<S>(
    graph: GraphModel,
    n: nat,
    x: int,
    bc: nat,
    kc: nat,
    linear: spec_fn(Decibels) -> S,
) -> (at: int)
    requires
        0 <= x < n <= graph.sends.len(),
        graph.sends[x].ends is BusToSink,
    ensures
        0 <= at < bus_links(graph, n, bc, kc, linear).len(),
        bus_links(graph, n, bc, kc, linear)[at] == crate::mixer::bus_link(
            graph,
            graph.sends[x],
            bc,
            kc,
            linear,
        ),
    decreases n,
{
    let before = bus_links(graph, (n - 1) as nat, bc, kc, linear);
    if x == n - 1 {
        before.len() as int
    } else {
        lemma_bus_link_is_there(graph, (n - 1) as nat, x, bc, kc, linear)
    }
}

/// The block that a send hears, and its channels.
pub open spec fn heard_by<S>(
    mix: Mix<S>,
    graph: GraphModel,
    send: SendModel,
    sources: Seq<Seq<S>>,
    block: Seq<S>,
    inputs: nat,
    outputs: nat,
) -> bool {
    match send.ends {
        SendEnds::SourceToBus { source_id, .. } => inputs == mix.source_channels && outputs
            == mix.bus_channels() && exists|s: int|
            0 <= s < graph.sources.len() && (#[trigger] graph.sources[s]).id == source_id
                && sources[s] == block,
        SendEnds::BusToSink { bus_id, .. } => inputs == mix.bus_channels() && outputs
            == mix.sink_channels && exists|b: int|
            0 <= b < graph.buses.len() && (#[trigger] graph.buses[b]).id == bus_id && mix.buses(
                graph,
                sources,
            )[b] == block,
    }
}

impl<S> Mix<S> {
    /// The plan that is mixed by.
    pub open spec fn plan(self, graph: GraphModel) -> PlanModel<S> {
        plan_of(
            graph,
            self.block_frames,
            self.source_channels,
            self.sink_channels,
            self.silence,
            self.linear,
        )
    }

    /// The peaks of a send are the loudest that it brings to the first channel and to the
    /// second one, scaled by its gain. A send that is muted or not enabled brings none.
    pub proof fn law_peaks_are_the_loudest(
        self,
        graph: GraphModel,
        sources: Seq<Seq<S>>,
        x: int,
        block: Seq<S>,
        inputs: nat,
        outputs: nat,
    )
        requires
            self.has_shape(),
            names_are_apart(graph),
            orders(self.ops.louder),
            0 <= x < graph.sends.len(),
            heard_by(self, graph, graph.sends[x], sources, block, inputs, outputs),
            block.len() as int % inputs as int == 0,
            forall|p: int|
                0 <= p < graph.sends[x].channel_map.len() ==> (
                #[trigger] graph.sends[x].channel_map[p]).0 < inputs,
        ensures
            ({
                let send = graph.sends[x];
                let gain = (self.linear)(send.gain_db);
                let map = send.channel_map;
                let peaks = self.plan(graph).peaks(self.ops, sources);
                let ids = self.plan(graph).send_ids();
                exists|n: int|
                    0 <= n < peaks.len() && n < ids.len() && #[trigger] ids[n] == send.id && if (
                    send.enabled && !send.muted) {
                        is_loudest(
                            self.ops,
                            self.silence,
                            block,
                            inputs,
                            outputs,
                            gain,
                            map,
                            0,
                            peaks[n].0,
                        ) && is_loudest(
                            self.ops,
                            self.silence,
                            block,
                            inputs,
                            outputs,
                            gain,
                            map,
                            1,
                            peaks[n].1,
                        )
                    } else {
                        peaks[n] == (self.silence, self.silence)
                    }
            }),
    {
        let send = graph.sends[x];
        let gain = (self.linear)(send.gain_db);
        let map = send.channel_map;
        let plan = self.plan(graph);
        let peaks = plan.peaks(self.ops, sources);
        let ids = plan.send_ids();
        let frames = (block.len() as int / inputs as int) as nat;
        vstd::arithmetic::div_mod::lemma_fundamental_div_mod(block.len() as int, inputs as int);
        assert(frames * inputs == inputs * frames) by (nonlinear_arith);
        assert(block.take((frames * inputs) as int) =~= block);
        lemma_block_peak(self.ops, self.silence, block, inputs, outputs, gain, map, 0, frames);
        lemma_block_peak(self.ops, self.silence, block, inputs, outputs, gain, map, 1, frames);
        let total = graph.sends.len();
        match send.ends {
            SendEnds::SourceToBus { source_id, .. } => {
                let s = choose|s: int|
                    0 <= s < graph.sources.len() && (#[trigger] graph.sources[s]).id == source_id
                        && sources[s] == block;
                lemma_source_at(graph.sources, s);
                let n = lemma_source_link_is_there(graph, total, x, inputs, outputs, self.linear);
                assert(plan.source_links[n].id == send.id);
                assert(ids[n] == send.id);
            },
            SendEnds::BusToSink { bus_id, .. } => {
                let b = choose|b: int|
                    0 <= b < graph.buses.len() && (#[trigger] graph.buses[b]).id == bus_id
                        && self.buses(graph, sources)[b] == block;
                lemma_bus_at(graph.buses, b);
                let at = lemma_bus_link_is_there(graph, total, x, inputs, outputs, self.linear);
                let n = plan.source_links.len() as int + at;
                assert(plan.bus_links[at].id == send.id);
                assert(ids[n] == send.id);
            },
        }
    }
}

/// A plan is made exactly where the block has a size that the machine can hold, nothing is
/// wrong with the graph, and every channel that a map names is there.
pub proof fn law_plan_is_made_of_a_sound_graph(
    graph: GraphModel,
    block_frames: nat,
    source_channels: nat,
    sink_channels: nat,
    bus_channels: nat,
)
    requires
        bus_channels == source_channels || bus_channels == sink_channels,
        bus_channels >= source_channels,
        bus_channels >= sink_channels,
    ensures
        plan_fault(graph, block_frames, source_channels, sink_channels) is None <==> {
            &&& block_frames > 0
            &&& source_channels > 0
            &&& sink_channels > 0
            &&& block_frames * bus_channels <= usize::MAX
            &&& graph.buses.len() * (block_frames * bus_channels) <= usize::MAX
            &&& graph.fault() is None
            &&& forall|i: int, p: int|
                #![trigger graph.sends[i].channel_map[p]]
                0 <= i < graph.sends.len() && 0 <= p < graph.sends[i].channel_map.len() ==> {
                    let (input, output) = graph.sends[i].channel_map[p];
                    match graph.sends[i].ends {
                        SendEnds::SourceToBus { .. } => input < source_channels && output
                            < bus_channels,
                        SendEnds::BusToSink { .. } => input < bus_channels && output
                            < sink_channels,
                    }
                }
        },
        block_frames == 0 ==> plan_fault(graph, block_frames, source_channels, sink_channels)
            == Some(MixerFault::ZeroBlockFrames),
        block_frames > 0 && source_channels == 0 ==> plan_fault(
            graph,
            block_frames,
            source_channels,
            sink_channels,
        ) == Some(MixerFault::ZeroSourceChannels),
        block_frames > 0 && source_channels > 0 && sink_channels == 0 ==> plan_fault(
            graph,
            block_frames,
            source_channels,
            sink_channels,
        ) == Some(MixerFault::ZeroSinkChannels),
{
    let check = |i: int| map_fault(graph, i, source_channels, bus_channels, sink_channels);
    assert(bus_channels == larger(source_channels, sink_channels));
    crate::faults::lemma_first_fault_none(graph.sends.len(), check);
    assert forall|i: int| 0 <= i < graph.sends.len() implies ((#[trigger] check(i)) is None <==> (
    forall|p: int|
        0 <= p < graph.sends[i].channel_map.len() ==> #[trigger] pair_fault(
            graph,
            i,
            source_channels,
            bus_channels,
            sink_channels,
            p,
        ) is None)) by {
        let pair_check = |p: int|
            pair_fault(graph, i, source_channels, bus_channels, sink_channels, p);
        crate::faults::lemma_first_fault_none(graph.sends[i].channel_map.len(), pair_check);
        if forall|p: int|
            0 <= p < graph.sends[i].channel_map.len() ==> #[trigger] pair_fault(
                graph,
                i,
                source_channels,
                bus_channels,
                sink_channels,
                p,
            ) is None {
            assert forall|p: int| 0 <= p < graph.sends[i].channel_map.len() implies (
            #[trigger] pair_check(p)) is None by {}
        }
        if check(i) is None {
            assert forall|p: int| 0 <= p < graph.sends[i].channel_map.len() implies
                #[trigger] pair_fault(
                graph,
                i,
                source_channels,
                bus_channels,
                sink_channels,
                p,
            ) is None by {
                assert(pair_check(p) is None);
            }
        }
    }
    if plan_fault(graph, block_frames, source_channels, sink_channels) is None {
        assert forall|i: int, p: int|
            #![trigger graph.sends[i].channel_map[p]]
            0 <= i < graph.sends.len() && 0 <= p < graph.sends[i].channel_map.len() implies {
            let (input, output) = graph.sends[i].channel_map[p];
            match graph.sends[i].ends {
                SendEnds::SourceToBus { .. } => input < source_channels && output < bus_channels,
                SendEnds::BusToSink { .. } => input < bus_channels && output < sink_channels,
            }
        } by {
            assert(check(i) is None);
            assert(pair_fault(graph, i, source_channels, bus_channels, sink_channels, p) is None);
        }
    }
    if forall|i: int, p: int|
        #![trigger graph.sends[i].channel_map[p]]
        0 <= i < graph.sends.len() && 0 <= p < graph.sends[i].channel_map.len() ==> {
            let (input, output) = graph.sends[i].channel_map[p];
            match graph.sends[i].ends {
                SendEnds::SourceToBus { .. } => input < source_channels && output < bus_channels,
                SendEnds::BusToSink { .. } => input < bus_channels && output < sink_channels,
            }
        } {
        assert forall|i: int| 0 <= i < graph.sends.len() implies (#[trigger] check(i)) is None by {
            assert forall|p: int| 0 <= p < graph.sends[i].channel_map.len() implies
                #[trigger] pair_fault(
                graph,
                i,
                source_channels,
                bus_channels,
                sink_channels,
                p,
            ) is None by {
                let pair = graph.sends[i].channel_map[p];
            }
        }
    }
}

/// Blocks are mixed exactly where there is one of at most the plan's size, in whole frames,
/// for every source, and a whole one for every sink.
pub proof fn law_blocks_that_fit_are_mixed<S>(
    plan: PlanModel<S>,
    sources: Seq<Seq<S>>,
    sinks: Seq<Seq<S>>,
)
    ensures
        plan.block_fault(sources, sinks) is None <==> {
            &&& sources.len() == plan.source_count
            &&& sinks.len() == plan.sink_count
            &&& forall|i: int|
                0 <= i < sources.len() ==> (#[trigger] sources[i]).len() <= plan.block_frames
                    * plan.source_channels && sources[i].len() as int % plan.source_channels as int
                    == 0
            &&& forall|i: int|
                0 <= i < sinks.len() ==> (#[trigger] sinks[i]).len() == plan.block_frames
                    * plan.sink_channels
        },
{
    let source_check = |i: int| plan.source_block_fault(sources, i);
    let sink_check = |i: int| plan.sink_block_fault(sinks, i);
    crate::faults::lemma_first_fault_none(sources.len(), source_check);
    crate::faults::lemma_first_fault_none(sinks.len(), sink_check);
    if plan.block_fault(sources, sinks) is None {
        assert forall|i: int| 0 <= i < sources.len() implies (#[trigger] sources[i]).len()
            <= plan.block_frames * plan.source_channels && sources[i].len() as int
            % plan.source_channels as int == 0 by {
            assert(source_check(i) is None);
        }
        assert forall|i: int| 0 <= i < sinks.len() implies (#[trigger] sinks[i]).len()
            == plan.block_frames * plan.sink_channels by {
            assert(sink_check(i) is None);
        }
    }
}

} // verus!
