//! What the main window shows and makes of what is chosen in it.

use crate::routing::{GraphModel, SendEnds, SourceKind};
use crate::service::device::{DeviceCompatibility, DeviceFlow, DeviceModel};
use crate::service::engine::ServiceModel;
use crate::service::error::ServiceFault;
use crate::window::{
    default_index, entry, kept_index, outputs, position, service_fault, text_position,
    update_refusal, ShownEntries, WindowModel,
};
use vstd::prelude::*;
use vstd::std_specs::cmp::PartialEqSpec;

verus! {

/// The first entry that is the chosen one is the one that is found.
pub proof fn law_first_match_is_found<T: PartialEqSpec>(ids: Seq<T>, id: T, at: int)
    requires
        0 <= at < ids.len(),
        ids[at].eq_spec(&id),
        forall|i: int| 0 <= i < at ==> !(#[trigger] ids[i]).eq_spec(&id),
    ensures
        position(ids, id) == at,
    decreases at,
{
    if at > 0 {
        let rest = ids.skip(1);
        assert(!ids[0].eq_spec(&id));
        assert(rest[at - 1] == ids[at]);
        assert forall|i: int| 0 <= i < at - 1 implies !(#[trigger] rest[i]).eq_spec(&id) by {
            assert(rest[i] == ids[i + 1]);
        }
        law_first_match_is_found(rest, id, at - 1);
    }
}

/// Where nothing was chosen the suggested entry is selected, or the first one where that is not
/// there; of an empty list none is. What was chosen and is gone selects none either.
pub proof fn law_something_is_selected(count: nat, fallback: i32, found: int)
    requires
        0 <= found,
    ensures
        kept_index(None, count, fallback) == default_index(count, fallback),
        default_index(count, fallback) == -1 <==> count == 0,
        count > 0 ==> 0 <= default_index(count, fallback) < count,
        count > 0 && 0 <= fallback < count ==> default_index(count, fallback) == fallback,
        count > 0 && !(0 <= fallback < count) ==> default_index(count, fallback) == 0,
        found < count ==> kept_index(Some(found), count, fallback) == found,
        found >= count ==> kept_index(Some(found), count, fallback) == -1,
{
}

/// The outputs that are offered are the devices that play and are ready for it, by their
/// identifiers and names.
pub proof fn law_ready_devices_are_offered(devices: Seq<DeviceModel>, i: int, k: int)
    ensures
        0 <= i < devices.len() && devices[i].flow == DeviceFlow::Render && devices[i].compatibility
            == DeviceCompatibility::RenderReady ==> outputs(devices).contains(
            (devices[i].id@, devices[i].name@),
        ),
        0 <= k < outputs(devices).len() ==> exists|i: int|
            0 <= i < devices.len() && (#[trigger] devices[i]).flow == DeviceFlow::Render
                && devices[i].compatibility == DeviceCompatibility::RenderReady && outputs(
                devices,
            )[k] == (devices[i].id@, devices[i].name@),
    decreases devices.len(),
{
    if devices.len() > 0 {
        let init = devices.drop_last();
        let rest = outputs(init);
        let all = outputs(devices);
        law_ready_devices_are_offered(init, i, k);
        if 0 <= i < devices.len() && devices[i].flow == DeviceFlow::Render
            && devices[i].compatibility == DeviceCompatibility::RenderReady {
            let shown = (devices[i].id@, devices[i].name@);
            if i < init.len() {
                assert(init[i] == devices[i]);
                let at = rest.index_of(shown);
                assert(all[at] == shown);
            } else {
                assert(all[all.len() - 1] == shown);
            }
        }
        if 0 <= k < all.len() {
            if k < rest.len() {
                let j = choose|j: int|
                    0 <= j < init.len() && (#[trigger] init[j]).flow == DeviceFlow::Render
                        && init[j].compatibility == DeviceCompatibility::RenderReady && rest[k] == (
                    init[j].id@,
                    init[j].name@,
                    );
                assert(devices[j] == init[j]);
            } else {
                assert(devices[devices.len() - 1] == devices.last());
            }
        }
    }
}

/// The window plays the process that is chosen on the device that is chosen, with the gain and
/// the mute that are set; where one of them is not chosen it says so.
pub proof fn law_chosen_process_is_played_on_the_chosen_device(
    window: WindowModel,
    shown: ShownEntries,
)
    ensures
        ({
            let (source, output) = (shown.source_index, shown.output_index);
            let chosen = 0 <= source < window.process_pids.len() && 0 <= output
                < window.sink_ids.len();
            &&& window.route(shown) is Ok <==> chosen
            &&& chosen ==> {
                let graph = window.route(shown)->Ok_0;
                &&& graph.sources.len() == 1 && graph.buses.len() == 1 && graph.sinks.len() == 1
                &&& graph.sends.len() == 2
                &&& graph.sources[0].kind == SourceKind::ProcessLoopback
                &&& graph.sources[0].process_id == Some(window.process_pids[source as int])
                &&& graph.sinks[0].endpoint_id == window.sink_ids[output as int]
                &&& graph.sends[0].ends == SendEnds::SourceToBus {
                    source_id: graph.sources[0].id,
                    bus_id: graph.buses[0].id,
                }
                &&& graph.sends[0].gain_db == window.gain_db
                &&& graph.sends[0].muted == window.muted
                &&& graph.sends[0].enabled
                &&& graph.sends[1].ends == SendEnds::BusToSink {
                    bus_id: graph.buses[0].id,
                    sink_id: graph.sinks[0].id,
                }
                &&& graph.sends[1].gain_db.bits == 0
                &&& !graph.sends[1].muted
                &&& graph.sends[1].enabled
            }
        }),
{
}

/// What is selected when the lists are read again is remembered by its identity; what is not
/// selected stays what it was.
pub proof fn law_selection_is_remembered(window: WindowModel, shown: ShownEntries)
    requires
        !window.refreshing,
    ensures
        ({
            let after = window.refreshed(shown);
            let (source, output) = (shown.source_index, shown.output_index);
            &&& after.refreshing
            &&& 0 <= source < window.process_pids.len() ==> after.selected_process_pid == Some(
                window.process_pids[source as int],
            )
            &&& !(0 <= source < window.process_pids.len()) ==> after.selected_process_pid
                == window.selected_process_pid
            &&& 0 <= output < window.sink_ids.len() ==> after.selected_sink_id == Some(
                window.sink_ids[output as int],
            )
            &&& !(0 <= output < window.sink_ids.len()) ==> after.selected_sink_id
                == window.selected_sink_id
            &&& after.process_pids == window.process_pids
            &&& after.sink_ids == window.sink_ids
            &&& after.gain_db == window.gain_db
            &&& after.muted == window.muted
            &&& entry(window.sink_ids, output) is Some ==> window.remembered(shown).selected_sink_id
                == after.selected_sink_id
        }),
{
}

/// The first text that is the chosen one is the one that is found; where none is, what is found
/// lies behind the list.
pub proof fn law_first_text_is_found(texts: Seq<Seq<char>>, text: Seq<char>)
    ensures
        0 <= text_position(texts, text) <= texts.len(),
        text_position(texts, text) < texts.len() <==> exists|i: int|
            0 <= i < texts.len() && #[trigger] texts[i] == text,
        text_position(texts, text) < texts.len() ==> texts[text_position(texts, text)] == text,
        forall|i: int| 0 <= i < text_position(texts, text) ==> #[trigger] texts[i] != text,
    decreases texts.len(),
{
    if texts.len() > 0 {
        let rest = texts.skip(1);
        law_first_text_is_found(rest, text);
        if texts[0] != text {
            assert forall|i: int| 0 <= i < text_position(texts, text) implies #[trigger] texts[i]
                != text by {
                if i > 0 {
                    assert(rest[i - 1] == texts[i]);
                }
            }
            if exists|i: int| 0 <= i < texts.len() && #[trigger] texts[i] == text {
                let i = choose|i: int| 0 <= i < texts.len() && #[trigger] texts[i] == text;
                assert(rest[i - 1] == text);
            }
        }
    }
}

/// What is wrong with a graph is told before what an engine lacks for it, whether the engine is to
/// be made or to be changed.
pub proof fn law_faults_of_a_graph_are_told_first(service: ServiceModel, graph: GraphModel)
    ensures
        graph.fault() matches Some(fault) ==> service_fault(graph) == Some(
            ServiceFault::Graph(fault),
        ) && update_refusal(service, graph) == Some(ServiceFault::Graph(fault)),
        update_refusal(service, graph) is None <==> graph.fault() is None
            && service.engine.update_fault(graph) is None,
        service_fault(graph) is None ==> graph.sources.len() > 0 && graph.sinks.len() > 0,
{
}

} // verus!
