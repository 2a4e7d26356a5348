//! What the edits of a routing graph do, said of the graph before and after.

use crate::decibels::Decibels;
use crate::editor::{
    applied, edit_fault, edited, lemma_filter, stand_in_order, EditModel,
};
use crate::routing::laws::{
    has_ends, is_gain, is_sound, law_first_of_an_identifier_is_found,
    law_sound_graphs_are_accepted,
};
use crate::routing::{
    send_index, source_index, BusModel, GraphFault, GraphModel, SendEnds, SendModel, SinkModel,
    SourceModel,
};
use vstd::prelude::*;

verus! {

/// Whether two graphs have the same sources, buses and sinks.
pub open spec fn same_nodes(before: GraphModel, after: GraphModel) -> bool {
    &&& after.sources == before.sources
    &&& after.buses == before.buses
    &&& after.sinks == before.sinks
}

/// Whether a list is another one with one more element behind the others.
pub open spec fn gained<A>(before: Seq<A>, after: Seq<A>, new: A) -> bool {
    &&& after.len() == before.len() + 1
    &&& after[before.len() as int] == new
    &&& forall|i: int| 0 <= i < before.len() ==> #[trigger] after[i] == before[i]
}

/// Whether a list is another one with another element at a place.
pub open spec fn replaced<A>(before: Seq<A>, after: Seq<A>, at: int, new: A) -> bool {
    &&& 0 <= at < before.len()
    &&& after.len() == before.len()
    &&& after[at] == new
    &&& forall|i: int| 0 <= i < before.len() && i != at ==> #[trigger] after[i] == before[i]
}

/// Whether a list holds exactly those elements of another one that are to be kept, in the same
/// order.
pub open spec fn kept<A>(before: Seq<A>, after: Seq<A>, keep: spec_fn(A) -> bool) -> bool {
    &&& forall|i: int| 0 <= i < after.len() ==> keep(#[trigger] after[i]) && before.contains(after[i])
    &&& forall|i: int| 0 <= i < before.len() && keep(#[trigger] before[i]) ==> after.contains(before[i])
    &&& forall|i: int, j: int|
        0 <= i < j < after.len() ==> stand_in_order(
            before,
            #[trigger] after[i],
            #[trigger] after[j],
        )
}

/// A source, a bus or a sink that is added stands behind the others as it is, and nothing else
/// changes.
pub proof fn law_added_node_is_there(
    graph: GraphModel,
    source: SourceModel,
    bus: BusModel,
    sink: SinkModel,
)
    ensures
        edit_fault(graph, EditModel::AddSource(source)) is None ==> {
            let after = applied(graph, EditModel::AddSource(source));
            &&& gained(graph.sources, after.sources, source)
            &&& after.buses == graph.buses
            &&& after.sinks == graph.sinks
            &&& after.sends == graph.sends
        },
        edit_fault(graph, EditModel::AddBus(bus)) is None ==> {
            let after = applied(graph, EditModel::AddBus(bus));
            &&& gained(graph.buses, after.buses, bus)
            &&& after.sources == graph.sources
            &&& after.sinks == graph.sinks
            &&& after.sends == graph.sends
        },
        edit_fault(graph, EditModel::AddSink(sink)) is None ==> {
            let after = applied(graph, EditModel::AddSink(sink));
            &&& gained(graph.sinks, after.sinks, sink)
            &&& after.sources == graph.sources
            &&& after.buses == graph.buses
            &&& after.sends == graph.sends
        },
{
}

/// A send that is set is in the graph as it is, its ends and all its settings: in the place of
/// the send of its identifier, or behind the others where there is none. Nothing else changes.
pub proof fn law_set_send_is_there(graph: GraphModel, send: SendModel)
    requires
        edit_fault(graph, EditModel::SetSend(send)) is None,
    ensures
        ({
            let after = applied(graph, EditModel::SetSend(send));
            &&& same_nodes(graph, after)
            &&& if exists|i: int| 0 <= i < graph.sends.len() && (#[trigger] graph.sends[i]).id
                == send.id {
                exists|i: int|
                    #![trigger graph.sends[i]]
                    graph.sends[i].id == send.id && replaced(graph.sends, after.sends, i, send)
            } else {
                gained(graph.sends, after.sends, send)
            }
        }),
{
    if exists|i: int| 0 <= i < graph.sends.len() && (#[trigger] graph.sends[i]).id == send.id {
        let k = choose|i: int|
            0 <= i < graph.sends.len() && (#[trigger] graph.sends[i]).id == send.id;
        law_first_of_an_identifier_is_found(graph, send.id, k);
        let i = send_index(graph.sends, send.id);
        assert(graph.sends[i].id == send.id);
        assert(replaced(
            graph.sends,
            applied(graph, EditModel::SetSend(send)).sends,
            i,
            send,
        ));
    }
}

/// A gain, a mute, a switch or a channel map that is set is what the send has then. The send
/// keeps all else, and nothing else in the graph changes.
pub proof fn law_setting_is_what_the_send_has(
    graph: GraphModel,
    id: Seq<char>,
    gain_db: Decibels,
    on: bool,
    map: Seq<(u16, u16)>,
    k: int,
)
    requires
        0 <= k < graph.sends.len(),
        graph.sends[k].id == id,
        forall|i: int| 0 <= i < graph.sends.len() && i != k ==> (#[trigger] graph.sends[i]).id != id,
    ensures
        ({
            let old_send = graph.sends[k];
            let gain = EditModel::SetSendGain { send_id: id, gain_db };
            let muted = EditModel::SetSendMuted { send_id: id, muted: on };
            let enabled = EditModel::SetSendEnabled { send_id: id, enabled: on };
            let mapped = EditModel::SetSendChannelMap { send_id: id, channel_map: map };
            &&& edit_fault(graph, gain) is None ==> same_nodes(graph, applied(graph, gain))
                && replaced(
                graph.sends,
                applied(graph, gain).sends,
                k,
                SendModel {
                    id,
                    ends: old_send.ends,
                    gain_db,
                    muted: old_send.muted,
                    enabled: old_send.enabled,
                    channel_map: old_send.channel_map,
                },
            )
            &&& edit_fault(graph, muted) is None ==> same_nodes(graph, applied(graph, muted))
                && replaced(
                graph.sends,
                applied(graph, muted).sends,
                k,
                SendModel {
                    id,
                    ends: old_send.ends,
                    gain_db: old_send.gain_db,
                    muted: on,
                    enabled: old_send.enabled,
                    channel_map: old_send.channel_map,
                },
            )
            &&& edit_fault(graph, enabled) is None ==> same_nodes(graph, applied(graph, enabled))
                && replaced(
                graph.sends,
                applied(graph, enabled).sends,
                k,
                SendModel {
                    id,
                    ends: old_send.ends,
                    gain_db: old_send.gain_db,
                    muted: old_send.muted,
                    enabled: on,
                    channel_map: old_send.channel_map,
                },
            )
            &&& edit_fault(graph, mapped) is None ==> same_nodes(graph, applied(graph, mapped))
                && replaced(
                graph.sends,
                applied(graph, mapped).sends,
                k,
                SendModel {
                    id,
                    ends: old_send.ends,
                    gain_db: old_send.gain_db,
                    muted: old_send.muted,
                    enabled: old_send.enabled,
                    channel_map: map,
                },
            )
        }),
{
    law_first_of_an_identifier_is_found(graph, id, k);
    assert(send_index(graph.sends, id) == k);
}

/// A source that is bound to a process is bound to that one. It keeps all else, and nothing
/// else in the graph changes.
pub proof fn law_source_is_bound_to_the_process(
    graph: GraphModel,
    id: Seq<char>,
    process_id: Option<u32>,
    k: int,
)
    requires
        0 <= k < graph.sources.len(),
        graph.sources[k].id == id,
        forall|i: int|
            0 <= i < graph.sources.len() && i != k ==> (#[trigger] graph.sources[i]).id != id,
        edit_fault(graph, EditModel::SetSourceProcessId { source_id: id, process_id }) is None,
    ensures
        ({
            let source = graph.sources[k];
            let after = applied(graph, EditModel::SetSourceProcessId { source_id: id, process_id });
            &&& replaced(
                graph.sources,
                after.sources,
                k,
                SourceModel {
                    id,
                    kind: source.kind,
                    endpoint_id: source.endpoint_id,
                    process_id,
                    executable_path: source.executable_path,
                    stream_name: source.stream_name,
                    display_name: source.display_name,
                },
            )
            &&& after.buses == graph.buses
            &&& after.sinks == graph.sinks
            &&& after.sends == graph.sends
        }),
{
    law_first_of_an_identifier_is_found(graph, id, k);
    assert(source_index(graph.sources, id) == k);
}

/// A node that is removed goes with the sends that it is an end of, and a send goes alone.
/// Everything else stays, in its order.
pub proof fn law_removal_takes_no_more_than_it_must(graph: GraphModel, id: Seq<char>)
    ensures
        edit_fault(graph, EditModel::RemoveSource(id)) is None ==> {
            let after = applied(graph, EditModel::RemoveSource(id));
            &&& kept(graph.sources, after.sources, |s: SourceModel| s.id != id)
            &&& kept(
                graph.sends,
                after.sends,
                |s: SendModel|
                    !(s.ends matches SendEnds::SourceToBus { source_id, .. } && source_id == id),
            )
            &&& after.buses == graph.buses
            &&& after.sinks == graph.sinks
        },
        edit_fault(graph, EditModel::RemoveBus(id)) is None ==> {
            let after = applied(graph, EditModel::RemoveBus(id));
            &&& kept(graph.buses, after.buses, |b: BusModel| b.id != id)
            &&& kept(
                graph.sends,
                after.sends,
                |s: SendModel|
                    match s.ends {
                        SendEnds::SourceToBus { bus_id, .. } => bus_id != id,
                        SendEnds::BusToSink { bus_id, .. } => bus_id != id,
                    },
            )
            &&& after.sources == graph.sources
            &&& after.sinks == graph.sinks
        },
        edit_fault(graph, EditModel::RemoveSink(id)) is None ==> {
            let after = applied(graph, EditModel::RemoveSink(id));
            &&& kept(graph.sinks, after.sinks, |s: SinkModel| s.id != id)
            &&& kept(
                graph.sends,
                after.sends,
                |s: SendModel|
                    !(s.ends matches SendEnds::BusToSink { sink_id, .. } && sink_id == id),
            )
            &&& after.sources == graph.sources
            &&& after.buses == graph.buses
        },
        edit_fault(graph, EditModel::RemoveSend(id)) is None ==> {
            let after = applied(graph, EditModel::RemoveSend(id));
            &&& kept(graph.sends, after.sends, |s: SendModel| s.id != id)
            &&& same_nodes(graph, after)
        },
{
    lemma_filter(graph.sources, |s: SourceModel| s.id != id);
    lemma_filter(graph.buses, |b: BusModel| b.id != id);
    lemma_filter(graph.sinks, |s: SinkModel| s.id != id);
    lemma_filter(graph.sends, |s: SendModel| s.id != id);
    lemma_filter(graph.sends, |s: SendModel| !crate::editor::leaves_source(s, id));
    lemma_filter(graph.sends, |s: SendModel| !crate::editor::touches_bus(s, id));
    lemma_filter(graph.sends, |s: SendModel| !crate::editor::enters_sink(s, id));
}

/// An edit that is refused changes nothing.
pub proof fn law_refused_edit_changes_nothing(graph: GraphModel, edit: EditModel)
    requires
        edit_fault(graph, edit) is Some,
    ensures
        applied(graph, edit) == graph,
{
}

/// A sound graph takes a node exactly where its identifier and its endpoint are new.
pub proof fn law_new_nodes_are_accepted(
    graph: GraphModel,
    source: SourceModel,
    bus: BusModel,
    sink: SinkModel,
)
    requires
        is_sound(graph),
    ensures
        edit_fault(graph, EditModel::AddSource(source)) is None <==> forall|i: int|
            0 <= i < graph.sources.len() ==> (#[trigger] graph.sources[i]).id != source.id && (
            source.endpoint_id is Some ==> graph.sources[i].endpoint_id != source.endpoint_id),
        edit_fault(graph, EditModel::AddBus(bus)) is None <==> forall|i: int|
            0 <= i < graph.buses.len() ==> (#[trigger] graph.buses[i]).id != bus.id,
        edit_fault(graph, EditModel::AddSink(sink)) is None <==> forall|i: int|
            0 <= i < graph.sinks.len() ==> (#[trigger] graph.sinks[i]).id != sink.id
                && graph.sinks[i].endpoint_id != sink.endpoint_id,
{
    let more = edited(graph, EditModel::AddSource(source))->Ok_0;
    law_sound_graphs_are_accepted(more);
    lemma_more_nodes_keep_ends(graph, more);
    let end = graph.sources.len() as int;
    assert(more.sources[end] == source);
    if is_sound(more) {
        assert forall|i: int| 0 <= i < graph.sources.len() implies (#[trigger] graph.sources[i]).id
            != source.id && (source.endpoint_id is Some ==> graph.sources[i].endpoint_id
            != source.endpoint_id) by {
            assert(more.sources[i].id != more.sources[end].id);
        }
    }
    let more = edited(graph, EditModel::AddBus(bus))->Ok_0;
    law_sound_graphs_are_accepted(more);
    lemma_more_nodes_keep_ends(graph, more);
    let end = graph.buses.len() as int;
    assert(more.buses[end] == bus);
    if is_sound(more) {
        assert forall|i: int| 0 <= i < graph.buses.len() implies (#[trigger] graph.buses[i]).id
            != bus.id by {
            assert(more.buses[i].id != more.buses[end].id);
        }
    }
    let more = edited(graph, EditModel::AddSink(sink))->Ok_0;
    law_sound_graphs_are_accepted(more);
    lemma_more_nodes_keep_ends(graph, more);
    let end = graph.sinks.len() as int;
    assert(more.sinks[end] == sink);
    if is_sound(more) {
        assert forall|i: int| 0 <= i < graph.sinks.len() implies (#[trigger] graph.sinks[i]).id
            != sink.id && graph.sinks[i].endpoint_id != sink.endpoint_id by {
            assert(more.sinks[i].id != more.sinks[end].id);
        }
    }
}

proof fn lemma_more_nodes_keep_ends(graph: GraphModel, more: GraphModel)
    requires
        is_sound(graph),
        more.sends == graph.sends,
        graph.sources.is_prefix_of(more.sources),
        graph.buses.is_prefix_of(more.buses),
        graph.sinks.is_prefix_of(more.sinks),
    ensures
        forall|i: int| 0 <= i < more.sends.len() ==> has_ends(more, #[trigger] more.sends[i]),
        forall|i: int| 0 <= i < graph.sources.len() ==> more.sources[i] == graph.sources[i],
        forall|i: int| 0 <= i < graph.buses.len() ==> more.buses[i] == graph.buses[i],
        forall|i: int| 0 <= i < graph.sinks.len() ==> more.sinks[i] == graph.sinks[i],
{
    assert forall|i: int| 0 <= i < graph.sources.len() implies more.sources[i]
        == graph.sources[i] by {}
    assert forall|i: int| 0 <= i < graph.buses.len() implies more.buses[i] == graph.buses[i] by {}
    assert forall|i: int| 0 <= i < graph.sinks.len() implies more.sinks[i] == graph.sinks[i] by {}
    assert forall|i: int| 0 <= i < more.sends.len() implies has_ends(more, #[trigger] more.sends[i]) by {
        let send = graph.sends[i];
        assert(has_ends(graph, send));
        match send.ends {
            SendEnds::SourceToBus { source_id, bus_id } => {
                let s = choose|k: int|
                    0 <= k < graph.sources.len() && (#[trigger] graph.sources[k]).id == source_id;
                let b = choose|k: int|
                    0 <= k < graph.buses.len() && (#[trigger] graph.buses[k]).id == bus_id;
                assert(more.sources[s].id == source_id && more.buses[b].id == bus_id);
            },
            SendEnds::BusToSink { bus_id, sink_id } => {
                let b = choose|k: int|
                    0 <= k < graph.buses.len() && (#[trigger] graph.buses[k]).id == bus_id;
                let t = choose|k: int|
                    0 <= k < graph.sinks.len() && (#[trigger] graph.sinks[k]).id == sink_id;
                assert(more.buses[b].id == bus_id && more.sinks[t].id == sink_id);
            },
        }
    }
}

/// A sound graph takes a send, new or in the place of another one, exactly where both of its
/// nodes are there and its gain lies in its range.
pub proof fn law_sends_between_nodes_are_accepted(graph: GraphModel, send: SendModel)
    requires
        is_sound(graph),
    ensures
        edit_fault(graph, EditModel::SetSend(send)) is None <==> has_ends(graph, send) && is_gain(
            send.gain_db,
        ),
{
    let after = edited(graph, EditModel::SetSend(send))->Ok_0;
    law_sound_graphs_are_accepted(after);
    let at = if graph.has_send(send.id) {
        let k = choose|i: int|
            0 <= i < graph.sends.len() && (#[trigger] graph.sends[i]).id == send.id;
        law_first_of_an_identifier_is_found(graph, send.id, k);
        send_index(graph.sends, send.id)
    } else {
        graph.sends.len() as int
    };
    assert(after.sends[at] == send);
    assert forall|i: int| 0 <= i < after.sends.len() && i != at implies #[trigger] after.sends[i]
        == graph.sends[i] by {}
    if is_sound(after) {
        assert(has_ends(after, after.sends[at]));
        assert(is_gain(after.sends[at].gain_db));
        lemma_same_nodes_same_ends(graph, after, send);
    }
    if has_ends(graph, send) && is_gain(send.gain_db) {
        assert forall|i: int| 0 <= i < after.sends.len() implies has_ends(
            after,
            #[trigger] after.sends[i],
        ) && is_gain(after.sends[i].gain_db) by {
            if i != at {
                assert(has_ends(graph, graph.sends[i]));
                assert(is_gain(graph.sends[i].gain_db));
            }
            lemma_same_nodes_same_ends(graph, after, after.sends[i]);
        }
        assert forall|i: int, j: int| 0 <= i < j < after.sends.len() implies (
        #[trigger] after.sends[i]).id != (#[trigger] after.sends[j]).id by {
            if j < graph.sends.len() {
                assert(graph.sends[i].id != graph.sends[j].id);
            } else {
                assert(graph.sends[i].id != send.id);
            }
        }
    }
}

proof fn lemma_same_nodes_same_ends(graph: GraphModel, after: GraphModel, send: SendModel)
    requires
        same_nodes(graph, after),
    ensures
        has_ends(graph, send) <==> has_ends(after, send),
{
}

/// What is set on a send of a sound graph is accepted where the send is there, and a gain where
/// it lies in its range, too. Where the send is not there, that is said.
pub proof fn law_settings_are_accepted(
    graph: GraphModel,
    id: Seq<char>,
    gain_db: Decibels,
    on: bool,
    map: Seq<(u16, u16)>,
)
    requires
        is_sound(graph),
    ensures
        ({
            let there = exists|i: int|
                0 <= i < graph.sends.len() && (#[trigger] graph.sends[i]).id == id;
            let gain = EditModel::SetSendGain { send_id: id, gain_db };
            let muted = EditModel::SetSendMuted { send_id: id, muted: on };
            let enabled = EditModel::SetSendEnabled { send_id: id, enabled: on };
            let mapped = EditModel::SetSendChannelMap { send_id: id, channel_map: map };
            &&& edit_fault(graph, gain) is None <==> there && is_gain(gain_db)
            &&& edit_fault(graph, muted) is None <==> there
            &&& edit_fault(graph, enabled) is None <==> there
            &&& edit_fault(graph, mapped) is None <==> there
            &&& !there ==> edit_fault(graph, gain) == Some(GraphFault::MissingSend(id))
                && edit_fault(graph, muted) == Some(GraphFault::MissingSend(id)) && edit_fault(
                graph,
                enabled,
            ) == Some(GraphFault::MissingSend(id)) && edit_fault(graph, mapped) == Some(
                GraphFault::MissingSend(id),
            )
        }),
{
    if graph.has_send(id) {
        let k = choose|i: int| 0 <= i < graph.sends.len() && (#[trigger] graph.sends[i]).id == id;
        law_first_of_an_identifier_is_found(graph, id, k);
        let at = send_index(graph.sends, id);
        let send = graph.sends[at];
        lemma_changed_send(graph, at, SendModel { gain_db, ..send });
        lemma_changed_send(graph, at, SendModel { muted: on, ..send });
        lemma_changed_send(graph, at, SendModel { enabled: on, ..send });
        lemma_changed_send(graph, at, SendModel { channel_map: map, ..send });
        assert(is_gain(send.gain_db));
    }
}

proof fn lemma_changed_send(graph: GraphModel, at: int, send: SendModel)
    requires
        is_sound(graph),
        0 <= at < graph.sends.len(),
        send.id == graph.sends[at].id,
        send.ends == graph.sends[at].ends,
    ensures
        (GraphModel { sends: graph.sends.update(at, send), ..graph }).fault() is None <==> is_gain(
            send.gain_db,
        ),
{
    let after = GraphModel { sends: graph.sends.update(at, send), ..graph };
    law_sound_graphs_are_accepted(after);
    assert(has_ends(graph, graph.sends[at]));
    if is_sound(after) {
        assert(is_gain(after.sends[at].gain_db));
    }
    assert forall|i: int| 0 <= i < after.sends.len() implies has_ends(
        after,
        #[trigger] after.sends[i],
    ) by {
        assert(has_ends(graph, graph.sends[i]));
        lemma_same_nodes_same_ends(graph, after, after.sends[i]);
    }
    assert forall|i: int, j: int| 0 <= i < j < after.sends.len() implies (
    #[trigger] after.sends[i]).id != (#[trigger] after.sends[j]).id by {
        assert(graph.sends[i].id != graph.sends[j].id);
    }
    if is_gain(send.gain_db) {
        assert forall|i: int| 0 <= i < after.sends.len() implies is_gain(
            (#[trigger] after.sends[i]).gain_db,
        ) by {
            assert(is_gain(graph.sends[i].gain_db));
        }
    }
}

/// What is not there cannot be removed or bound, and that is said; a send that is not there
/// need not be removed.
pub proof fn law_missing_nodes_are_told(graph: GraphModel, id: Seq<char>, process_id: Option<u32>)
    ensures
        (forall|i: int| 0 <= i < graph.sources.len() ==> (#[trigger] graph.sources[i]).id != id)
            ==> edit_fault(graph, EditModel::RemoveSource(id)) == Some(
            GraphFault::MissingSource(id),
        ) && edit_fault(graph, EditModel::SetSourceProcessId { source_id: id, process_id }) == Some(
            GraphFault::MissingSource(id),
        ),
        (forall|i: int| 0 <= i < graph.buses.len() ==> (#[trigger] graph.buses[i]).id != id)
            ==> edit_fault(graph, EditModel::RemoveBus(id)) == Some(GraphFault::MissingBus(id)),
        (forall|i: int| 0 <= i < graph.sinks.len() ==> (#[trigger] graph.sinks[i]).id != id)
            ==> edit_fault(graph, EditModel::RemoveSink(id)) == Some(GraphFault::MissingSink(id)),
{
}

/// A source of a sound graph can be bound to any process.
pub proof fn law_source_can_be_bound(graph: GraphModel, k: int, process_id: Option<u32>)
    requires
        is_sound(graph),
        0 <= k < graph.sources.len(),
    ensures
        edit_fault(
            graph,
            EditModel::SetSourceProcessId { source_id: graph.sources[k].id, process_id },
        ) is None,
{
    let id = graph.sources[k].id;
    law_first_of_an_identifier_is_found(graph, id, k);
    let at = source_index(graph.sources, id);
    let edit = EditModel::SetSourceProcessId { source_id: id, process_id };
    assert(graph.has_source(id));
    let after = edited(graph, edit)->Ok_0;
    law_sound_graphs_are_accepted(after);
    assert forall|i: int| 0 <= i < after.sources.len() implies (#[trigger] after.sources[i]).id
        == graph.sources[i].id && after.sources[i].endpoint_id == graph.sources[i].endpoint_id by {}
    assert forall|i: int, j: int| 0 <= i < j < after.sources.len() implies (
    #[trigger] after.sources[i]).id != (#[trigger] after.sources[j]).id && (
    after.sources[i].endpoint_id is Some && after.sources[j].endpoint_id is Some
        ==> after.sources[i].endpoint_id->0 != after.sources[j].endpoint_id->0) by {
        assert(graph.sources[i].id != graph.sources[j].id);
    }
    assert forall|i: int| 0 <= i < after.sends.len() implies has_ends(
        after,
        #[trigger] after.sends[i],
    ) by {
        let send = graph.sends[i];
        assert(has_ends(graph, send));
        if let SendEnds::SourceToBus { source_id, bus_id } = send.ends {
            let s = choose|k: int|
                0 <= k < graph.sources.len() && (#[trigger] graph.sources[k]).id == source_id;
            assert(after.sources[s].id == source_id);
        }
    }
}

} // verus!
