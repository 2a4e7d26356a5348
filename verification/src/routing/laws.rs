//! Which routing graphs are accepted, said of their nodes and sends alone.

use crate::decibels::{law_allowed_gains, Decibels};
use crate::faults::first_fault;
use crate::routing::{
    bus_index, law_fault_iff_not_well_formed, send_index, sink_index, source_index, BusModel,
    GraphFault, GraphModel, SendEnds, SendModel, SinkModel, SourceModel,
};
use vstd::prelude::*;

verus! {

/// Whether a graph has both nodes that a send names.
pub open spec fn has_ends(graph: GraphModel, send: SendModel) -> bool {
    match send.ends {
        SendEnds::SourceToBus { source_id, bus_id } => (exists|i: int|
            0 <= i < graph.sources.len() && (#[trigger] graph.sources[i]).id == source_id) && (
        exists|i: int| 0 <= i < graph.buses.len() && (#[trigger] graph.buses[i]).id == bus_id),
        SendEnds::BusToSink { bus_id, sink_id } => (exists|i: int|
            0 <= i < graph.buses.len() && (#[trigger] graph.buses[i]).id == bus_id) && (exists|
            i: int,
        |
            0 <= i < graph.sinks.len() && (#[trigger] graph.sinks[i]).id == sink_id),
    }
}

/// Whether a gain lies from -60 dB to +12 dB.
pub open spec fn is_gain(gain: Decibels) -> bool {
    gain.bits <= 0x4140_0000 || 0x8000_0000 <= gain.bits <= 0xc270_0000
}

/// Whether everything in a graph can be told apart, every send has its two nodes, and every
/// gain lies in its range.
pub open spec fn is_sound(graph: GraphModel) -> bool {
    &&& forall|i: int, j: int|
        0 <= i < j < graph.sources.len() ==> (#[trigger] graph.sources[i]).id != (
        #[trigger] graph.sources[j]).id && (graph.sources[i].endpoint_id is Some
            && graph.sources[j].endpoint_id is Some ==> graph.sources[i].endpoint_id->0
            != graph.sources[j].endpoint_id->0)
    &&& forall|i: int, j: int|
        0 <= i < j < graph.sinks.len() ==> (#[trigger] graph.sinks[i]).id != (
        #[trigger] graph.sinks[j]).id && graph.sinks[i].endpoint_id != graph.sinks[j].endpoint_id
    &&& forall|i: int, j: int|
        0 <= i < j < graph.buses.len() ==> (#[trigger] graph.buses[i]).id != (
        #[trigger] graph.buses[j]).id
    &&& forall|i: int, j: int|
        0 <= i < j < graph.sends.len() ==> (#[trigger] graph.sends[i]).id != (
        #[trigger] graph.sends[j]).id
    &&& forall|i: int| 0 <= i < graph.sends.len() ==> has_ends(graph, #[trigger] graph.sends[i])
    &&& forall|i: int| 0 <= i < graph.sends.len() ==> is_gain((#[trigger] graph.sends[i]).gain_db)
}

/// A graph is accepted exactly where its identifiers and endpoints differ, its sends join
/// nodes that are there, and its gains lie from -60 dB to +12 dB.
pub proof fn law_sound_graphs_are_accepted(graph: GraphModel)
    ensures
        graph.fault() is None <==> is_sound(graph),
        graph.well_formed() <==> is_sound(graph),
{
    law_fault_iff_not_well_formed(graph);
    assert forall|i: int| 0 <= i < graph.sends.len() implies (crate::decibels::gain_allowed(
        (#[trigger] graph.sends[i]).gain_db,
    ) <==> is_gain(graph.sends[i].gain_db)) by {
        law_allowed_gains(graph.sends[i].gain_db);
    }
    if graph.well_formed() {
        assert forall|i: int| 0 <= i < graph.sends.len() implies has_ends(
            graph,
            #[trigger] graph.sends[i],
        ) by {
            assert(graph.joins_nodes(graph.sends[i]));
        }
    }
    if is_sound(graph) {
        assert forall|i: int| 0 <= i < graph.sends.len() implies graph.joins_nodes(
            #[trigger] graph.sends[i],
        ) by {
            assert(has_ends(graph, graph.sends[i]));
        }
    }
}

/// What a fault says is so: the identifier, the endpoint or the gain that it names is the one
/// that is wrong.
pub proof fn law_fault_names_what_is_wrong(graph: GraphModel)
    ensures
        match graph.fault() {
            Some(GraphFault::DuplicateSource(id)) => exists|i: int, j: int|
                0 <= i < j < graph.sources.len() && (#[trigger] graph.sources[i]).id == id && (
                #[trigger] graph.sources[j]).id == id,
            Some(GraphFault::DuplicateSourceEndpoint(id)) => exists|i: int, j: int|
                0 <= i < j < graph.sources.len() && (#[trigger] graph.sources[i]).endpoint_id
                    == Some(id) && (#[trigger] graph.sources[j]).endpoint_id == Some(id),
            Some(GraphFault::DuplicateSink(id)) => exists|i: int, j: int|
                0 <= i < j < graph.sinks.len() && (#[trigger] graph.sinks[i]).id == id && (
                #[trigger] graph.sinks[j]).id == id,
            Some(GraphFault::DuplicateSinkEndpoint(id)) => exists|i: int, j: int|
                0 <= i < j < graph.sinks.len() && (#[trigger] graph.sinks[i]).endpoint_id == id && (
                #[trigger] graph.sinks[j]).endpoint_id == id,
            Some(GraphFault::DuplicateBus(id)) => exists|i: int, j: int|
                0 <= i < j < graph.buses.len() && (#[trigger] graph.buses[i]).id == id && (
                #[trigger] graph.buses[j]).id == id,
            Some(GraphFault::DuplicateSend(id)) => exists|i: int, j: int|
                0 <= i < j < graph.sends.len() && (#[trigger] graph.sends[i]).id == id && (
                #[trigger] graph.sends[j]).id == id,
            Some(GraphFault::MissingSource(id)) => (exists|i: int|
                0 <= i < graph.sends.len() && ((#[trigger] graph.sends[i]).ends matches
                    SendEnds::SourceToBus { source_id, .. } && source_id == id)) && forall|i: int|
                0 <= i < graph.sources.len() ==> (#[trigger] graph.sources[i]).id != id,
            Some(GraphFault::MissingSink(id)) => (exists|i: int|
                0 <= i < graph.sends.len() && ((#[trigger] graph.sends[i]).ends matches
                    SendEnds::BusToSink { sink_id, .. } && sink_id == id)) && forall|i: int|
                0 <= i < graph.sinks.len() ==> (#[trigger] graph.sinks[i]).id != id,
            Some(GraphFault::MissingBus(id)) => forall|i: int|
                0 <= i < graph.buses.len() ==> (#[trigger] graph.buses[i]).id != id,
            Some(GraphFault::InvalidGain(gain)) => !is_gain(gain) && exists|i: int|
                0 <= i < graph.sends.len() && (#[trigger] graph.sends[i]).gain_db == gain,
            Some(GraphFault::MissingSend(_)) => false,
            None => true,
        },
{
    let source_check = |i: int| graph.source_fault(i);
    let sink_check = |i: int| graph.sink_fault(i);
    let bus_check = |i: int| graph.bus_fault(i);
    let send_check = |i: int| graph.send_fault(i);
    if first_fault(graph.sources.len(), source_check) is Some {
        let i = lemma_fault_is_some_check(graph.sources.len(), source_check);
    } else if first_fault(graph.sinks.len(), sink_check) is Some {
        let i = lemma_fault_is_some_check(graph.sinks.len(), sink_check);
    } else if first_fault(graph.buses.len(), bus_check) is Some {
        let i = lemma_fault_is_some_check(graph.buses.len(), bus_check);
    } else if first_fault(graph.sends.len(), send_check) is Some {
        let i = lemma_fault_is_some_check(graph.sends.len(), send_check);
        law_allowed_gains(graph.sends[i].gain_db);
    }
}

proof fn lemma_fault_is_some_check<E>(n: nat, check: spec_fn(int) -> Option<E>) -> (i: int)
    requires
        first_fault(n, check) is Some,
    ensures
        0 <= i < n,
        first_fault(n, check) == check(i),
    decreases n,
{
    if first_fault((n - 1) as nat, check) is Some {
        lemma_fault_is_some_check((n - 1) as nat, check)
    } else {
        n - 1
    }
}

/// Of nodes and sends that are there, the first one of an identifier is found.
pub proof fn law_first_of_an_identifier_is_found(graph: GraphModel, id: Seq<char>, k: int)
    ensures
        0 <= k < graph.sources.len() && graph.sources[k].id == id ==> {
            let i = source_index(graph.sources, id);
            0 <= i <= k && graph.sources[i].id == id && forall|j: int|
                0 <= j < i ==> (#[trigger] graph.sources[j]).id != id
        },
        0 <= k < graph.buses.len() && graph.buses[k].id == id ==> {
            let i = bus_index(graph.buses, id);
            0 <= i <= k && graph.buses[i].id == id && forall|j: int|
                0 <= j < i ==> (#[trigger] graph.buses[j]).id != id
        },
        0 <= k < graph.sinks.len() && graph.sinks[k].id == id ==> {
            let i = sink_index(graph.sinks, id);
            0 <= i <= k && graph.sinks[i].id == id && forall|j: int|
                0 <= j < i ==> (#[trigger] graph.sinks[j]).id != id
        },
        0 <= k < graph.sends.len() && graph.sends[k].id == id ==> {
            let i = send_index(graph.sends, id);
            0 <= i <= k && graph.sends[i].id == id && forall|j: int|
                0 <= j < i ==> (#[trigger] graph.sends[j]).id != id
        },
{
    if 0 <= k < graph.sources.len() && graph.sources[k].id == id {
        lemma_first_source(graph.sources, id, k);
    }
    if 0 <= k < graph.buses.len() && graph.buses[k].id == id {
        lemma_first_bus(graph.buses, id, k);
    }
    if 0 <= k < graph.sinks.len() && graph.sinks[k].id == id {
        lemma_first_sink(graph.sinks, id, k);
    }
    if 0 <= k < graph.sends.len() && graph.sends[k].id == id {
        lemma_first_send(graph.sends, id, k);
    }
}

proof fn lemma_first_source(list: Seq<SourceModel>, id: Seq<char>, k: int)
    requires
        0 <= k < list.len(),
        list[k].id == id,
    ensures
        0 <= source_index(list, id) <= k,
        list[source_index(list, id)].id == id,
        forall|j: int| 0 <= j < source_index(list, id) ==> (#[trigger] list[j]).id != id,
    decreases list.len(),
{
    if list[0].id != id {
        let rest = list.skip(1);
        assert(rest[k - 1] == list[k]);
        lemma_first_source(rest, id, k - 1);
        assert forall|j: int| 0 <= j < source_index(list, id) implies (#[trigger] list[j]).id
            != id by {
            if j > 0 {
                assert(rest[j - 1] == list[j]);
            }
        }
    }
}

proof fn lemma_first_bus(list: Seq<BusModel>, id: Seq<char>, k: int)
    requires
        0 <= k < list.len(),
        list[k].id == id,
    ensures
        0 <= bus_index(list, id) <= k,
        list[bus_index(list, id)].id == id,
        forall|j: int| 0 <= j < bus_index(list, id) ==> (#[trigger] list[j]).id != id,
    decreases list.len(),
{
    if list[0].id != id {
        let rest = list.skip(1);
        assert(rest[k - 1] == list[k]);
        lemma_first_bus(rest, id, k - 1);
        assert forall|j: int| 0 <= j < bus_index(list, id) implies (#[trigger] list[j]).id
            != id by {
            if j > 0 {
                assert(rest[j - 1] == list[j]);
            }
        }
    }
}

proof fn lemma_first_sink(list: Seq<SinkModel>, id: Seq<char>, k: int)
    requires
        0 <= k < list.len(),
        list[k].id == id,
    ensures
        0 <= sink_index(list, id) <= k,
        list[sink_index(list, id)].id == id,
        forall|j: int| 0 <= j < sink_index(list, id) ==> (#[trigger] list[j]).id != id,
    decreases list.len(),
{
    if list[0].id != id {
        let rest = list.skip(1);
        assert(rest[k - 1] == list[k]);
        lemma_first_sink(rest, id, k - 1);
        assert forall|j: int| 0 <= j < sink_index(list, id) implies (#[trigger] list[j]).id
            != id by {
            if j > 0 {
                assert(rest[j - 1] == list[j]);
            }
        }
    }
}

proof fn lemma_first_send(list: Seq<SendModel>, id: Seq<char>, k: int)
    requires
        0 <= k < list.len(),
        list[k].id == id,
    ensures
        0 <= send_index(list, id) <= k,
        list[send_index(list, id)].id == id,
        forall|j: int| 0 <= j < send_index(list, id) ==> (#[trigger] list[j]).id != id,
    decreases list.len(),
{
    if list[0].id != id {
        let rest = list.skip(1);
        assert(rest[k - 1] == list[k]);
        lemma_first_send(rest, id, k - 1);
        assert forall|j: int| 0 <= j < send_index(list, id) implies (#[trigger] list[j]).id
            != id by {
            if j > 0 {
                assert(rest[j - 1] == list[j]);
            }
        }
    }
}

} // verus!
