//! What becomes of a configuration that is read.

use crate::routing::{GraphModel, SendEnds};
use crate::service::config::{
    are_missing, lemma_prefix_is_injective, migrated_graph, schema_for_version, settings_of,
    ConfigFault, ConfigSchema, UiModel, V1GraphModel,
};
use crate::service::laws::{lemma_endpoints_of, uses};
use vstd::prelude::*;

verus! {

/// A configuration of the first kind keeps its sources and its sinks. Each sink gets a bus of its
/// own that plays on it as it is, and each send goes from its source to the bus of its sink, with
/// all its settings.
pub proof fn law_old_sends_go_over_the_bus_of_their_sink(graph: V1GraphModel, i: int, k: int)
    requires
        0 <= i < graph.sends.len(),
        0 <= k < graph.sinks.len(),
    ensures
        ({
            let next = migrated_graph(graph);
            let to_bus = next.sends[graph.sinks.len() + i];
            let to_sink = next.sends[k];
            &&& next.sources == graph.sources
            &&& next.sinks == graph.sinks
            &&& next.buses.len() == graph.sinks.len()
            &&& next.sends.len() == graph.sinks.len() + graph.sends.len()
            &&& to_sink.ends == SendEnds::BusToSink {
                bus_id: next.buses[k].id,
                sink_id: graph.sinks[k].id,
            }
            &&& to_sink.gain_db.bits == 0
            &&& !to_sink.muted
            &&& to_sink.enabled
            &&& to_sink.channel_map.len() == 0
            &&& graph.sinks[k].id == graph.sends[i].sink_id ==> to_bus.ends
                == SendEnds::SourceToBus {
                source_id: graph.sends[i].source_id,
                bus_id: next.buses[k].id,
            }
            &&& to_bus.gain_db == graph.sends[i].gain_db
            &&& to_bus.muted == graph.sends[i].muted
            &&& to_bus.enabled == graph.sends[i].enabled
            &&& to_bus.channel_map == graph.sends[i].channel_map
        }),
{
}

/// Two sinks share a bus only where they share an identifier.
pub proof fn law_sinks_have_buses_of_their_own(graph: V1GraphModel, i: int, j: int)
    requires
        0 <= i < graph.sinks.len(),
        0 <= j < graph.sinks.len(),
    ensures
        migrated_graph(graph).buses[i].id == migrated_graph(graph).buses[j].id
            <==> graph.sinks[i].id == graph.sinks[j].id,
{
    if migrated_graph(graph).buses[i].id == migrated_graph(graph).buses[j].id {
        lemma_prefix_is_injective("migrated-bus:"@, graph.sinks[i].id, graph.sinks[j].id);
    }
}

/// The first and the second kind of configuration can be read, and no other; which one it is has
/// to be said.
pub proof fn law_known_kinds_are_read(version: u64)
    ensures
        schema_for_version(Some(2)) == Ok::<ConfigSchema, ConfigFault>(ConfigSchema::Current),
        schema_for_version(Some(1)) == Ok::<ConfigSchema, ConfigFault>(ConfigSchema::V1),
        version != 1 && version != 2 ==> schema_for_version(Some(version)) == Err::<
            ConfigSchema,
            ConfigFault,
        >(ConfigFault::UnsupportedSchemaVersion(version)),
        schema_for_version(None) matches Err(ConfigFault::Json(_)),
{
}

/// The window is dark only where that was chosen, and otherwise light; how it starts is as it was
/// chosen.
pub proof fn law_choices_are_followed(ui: UiModel)
    ensures
        ui.theme == "dark"@ ==> settings_of(ui).theme == "dark"@,
        ui.theme != "dark"@ ==> settings_of(ui).theme == "light"@,
        settings_of(ui).start_on_boot == ui.start_on_boot,
        settings_of(ui).launch_hidden == ui.launch_hidden,
{
}

/// The endpoints that are missing are those that a source or a sink uses and that are not there.
pub proof fn law_missing_endpoints_are_those_in_use(
    missing: Seq<Seq<char>>,
    graph: GraphModel,
    available: Seq<Seq<char>>,
    endpoint: Seq<char>,
)
    requires
        are_missing(missing, graph, available),
    ensures
        missing.contains(endpoint) <==> uses(graph, endpoint) && !available.contains(endpoint),
{
    lemma_endpoints_of(graph, endpoint);
}

} // verus!
