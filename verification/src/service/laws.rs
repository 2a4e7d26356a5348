//! What the service does with commands and edits, and what it tells.

use crate::decibels::Decibels;
use crate::editor::laws::{
    law_setting_is_what_the_send_has, law_settings_are_accepted, replaced, same_nodes,
};
use crate::editor::{applied, edit_fault, EditModel};
use crate::routing::laws::{is_gain, is_sound, law_first_of_an_identifier_is_found};
use crate::routing::{send_index, GraphModel, SendModel, SinkModel, SourceModel};
use crate::runtime::config::config_fault;
use crate::runtime::laws::law_running_engine_keeps_its_streams;
use crate::runtime::status::AudioEngineState;
use crate::service::engine::{
    endpoints_of, failed_endpoints, fresh_service, lost_events, mentions_endpoint, named_endpoints,
    reconnect_fault, restored_events, source_endpoints, CommandModel, ServiceEventModel,
    ServiceModel,
};
use crate::service::error::ServiceFault;
use crate::service::state::HubModel;
use crate::text::{has_text, occurs_at};
use crate::windows::endpoint::{inactive_reason, WindowsFault};
use vstd::prelude::*;

verus! {

/// Whether a service works: its engine runs on its graph, and could be set up with it.
pub open spec fn works(service: ServiceModel) -> bool {
    &&& is_sound(service.graph)
    &&& service.engine.graph == service.graph
    &&& service.engine.state == AudioEngineState::Running
    &&& service.engine.session_open
    &&& config_fault(
        service.graph,
        service.engine.block_frames as nat,
        service.engine.fifo_capacity_frames as nat,
    ) is None
}

/// Whether a service is another one but for one send, in its graph as in that of its engine.
pub open spec fn changed_one_send(
    before: ServiceModel,
    after: ServiceModel,
    at: int,
    send: SendModel,
) -> bool {
    &&& same_nodes(before.graph, after.graph)
    &&& replaced(before.graph.sends, after.graph.sends, at, send)
    &&& after.engine.graph == after.graph
    &&& after.engine.state == before.engine.state
    &&& after.engine.session_open == before.engine.session_open
    &&& after.engine.stats == before.engine.stats
    &&& after.engine.last_error == before.engine.last_error
    &&& after.engine.stop_requested == before.engine.stop_requested
    &&& after.engine.block_frames == before.engine.block_frames
    &&& after.engine.fifo_capacity_frames == before.engine.fifo_capacity_frames
    &&& after.faulted == before.faulted
    &&& after.last_state == before.last_state
    &&& after.last_stats == before.last_stats
}

proof fn lemma_same_nodes_same_streams(service: ServiceModel, graph: GraphModel)
    requires
        works(service),
        same_nodes(service.graph, graph),
    ensures
        service.engine.update_fault(graph) is None,
{
    crate::runtime::laws::law_engine_needs_something_to_do(
        graph,
        service.engine.block_frames as nat,
        service.engine.fifo_capacity_frames as nat,
    );
    crate::runtime::laws::law_engine_needs_something_to_do(
        service.graph,
        service.engine.block_frames as nat,
        service.engine.fifo_capacity_frames as nat,
    );
    law_running_engine_keeps_its_streams(service.engine, graph);
}

/// A service that works takes a mute and a switch of a send, and a gain exactly where it lies in
/// its range. The send then has what was set, the engine plays by it, and nothing else changes.
pub proof fn law_running_engine_takes_what_is_set(
    service: ServiceModel,
    k: int,
    gain_db: Decibels,
    on: bool,
)
    requires
        works(service),
        0 <= k < service.graph.sends.len(),
    ensures
        ({
            let send = service.graph.sends[k];
            let gain = CommandModel::SetGain { send_id: send.id, gain_db };
            let muted = CommandModel::SetMuted { send_id: send.id, muted: on };
            let enabled = CommandModel::SetSendEnabled { send_id: send.id, enabled: on };
            &&& service.command_fault(gain) is None <==> is_gain(gain_db)
            &&& service.command_fault(muted) is None
            &&& service.command_fault(enabled) is None
            &&& changed_one_send(
                service,
                service.after_command(gain),
                k,
                SendModel { gain_db, ..send },
            )
            &&& changed_one_send(
                service,
                service.after_command(muted),
                k,
                SendModel { muted: on, ..send },
            )
            &&& changed_one_send(
                service,
                service.after_command(enabled),
                k,
                SendModel { enabled: on, ..send },
            )
        }),
{
    let graph = service.graph;
    let send = graph.sends[k];
    let map = send.channel_map;
    law_first_of_an_identifier_is_found(graph, send.id, k);
    let at = send_index(graph.sends, send.id);
    if at != k {
        assert(graph.sends[at].id == graph.sends[k].id);
    }
    law_settings_are_accepted(graph, send.id, gain_db, on, map);
    lemma_same_nodes_same_streams(
        service,
        GraphModel { sends: graph.sends.update(k, SendModel { gain_db, ..send }), ..graph },
    );
    lemma_same_nodes_same_streams(
        service,
        GraphModel { sends: graph.sends.update(k, SendModel { muted: on, ..send }), ..graph },
    );
    lemma_same_nodes_same_streams(
        service,
        GraphModel { sends: graph.sends.update(k, SendModel { enabled: on, ..send }), ..graph },
    );
}

/// An engine that does not run takes nothing that is set on a send, and no engine takes it for
/// a send that is not there.
pub proof fn law_settings_need_a_running_engine_and_a_send(
    service: ServiceModel,
    id: Seq<char>,
    gain_db: Decibels,
    on: bool,
)
    requires
        service.engine.state != AudioEngineState::Running || forall|i: int|
            0 <= i < service.graph.sends.len() ==> (#[trigger] service.graph.sends[i]).id != id,
    ensures
        service.command_fault(CommandModel::SetGain { send_id: id, gain_db }) is Some,
        service.command_fault(CommandModel::SetMuted { send_id: id, muted: on }) is Some,
        service.command_fault(CommandModel::SetSendEnabled { send_id: id, enabled: on }) is Some,
{
}

/// A graph that is applied to a service is the one that its engine plays, too.
pub proof fn law_applied_graph_is_played(service: ServiceModel, graph: GraphModel)
    ensures
        service.command_fault(CommandModel::ApplyRoute(graph)) is None
            <==> service.engine.update_fault(graph) is None,
        service.after_command(CommandModel::ApplyRoute(graph)).graph == graph,
        service.after_command(CommandModel::ApplyRoute(graph)).engine.graph == graph,
        service.after_command(CommandModel::ApplyRoute(graph)).engine.state
            == service.engine.state,
{
}

/// An engine is started exactly from a stop, and stopped from anything else; both keep its
/// graph and what was counted. A start forgets the last error, a stop closes the session.
pub proof fn law_engine_starts_and_stops(service: ServiceModel)
    ensures
        ({
            let on = service.after_command(CommandModel::Start);
            let off = service.after_command(CommandModel::Stop);
            let still = service.engine.state == AudioEngineState::Stopped;
            &&& service.command_fault(CommandModel::Start) is None <==> still
            &&& service.command_fault(CommandModel::Stop) is None <==> !still
            &&& on.engine.state == AudioEngineState::Running
            &&& on.engine.last_error is None
            &&& !on.engine.stop_requested
            &&& off.engine.state == AudioEngineState::Stopped
            &&& off.engine.stop_requested
            &&& !off.engine.session_open
            &&& off.engine.last_error == service.engine.last_error
            &&& on.graph == service.graph && on.engine.graph == service.engine.graph
            &&& off.graph == service.graph && off.engine.graph == service.engine.graph
            &&& on.engine.stats == service.engine.stats
            &&& off.engine.stats == service.engine.stats
            &&& on.command_fault(CommandModel::Stop) is None
            &&& off.command_fault(CommandModel::Start) is None
        }),
{
}

/// A new service stands still, plays the graph that it was made of, and can be started.
pub proof fn law_new_service_can_be_started(graph: GraphModel)
    ensures
        fresh_service(graph).graph == graph,
        fresh_service(graph).engine.graph == graph,
        fresh_service(graph).engine.state == AudioEngineState::Stopped,
        fresh_service(graph).command_fault(CommandModel::Start) is None,
        fresh_service(graph).engine.block_frames > 0,
        fresh_service(graph).engine.fifo_capacity_frames
            >= fresh_service(graph).engine.block_frames,
        fresh_service(graph).faulted.len() == 0,
        fresh_service(graph).last_state is None,
        fresh_service(graph).last_stats is None,
{
}

/// A new try can be asked for where a device was lost or the engine failed, and not where it
/// stands still or runs.
pub proof fn law_only_broken_engines_reconnect(state: AudioEngineState)
    ensures
        reconnect_fault(state) is None <==> {
            ||| state == AudioEngineState::Degraded
            ||| state == AudioEngineState::Reconnecting
            ||| state == AudioEngineState::Failed
        },
        state == AudioEngineState::Stopped ==> reconnect_fault(state) matches Some(
            ServiceFault::NotReady(_),
        ),
        state == AudioEngineState::Running ==> reconnect_fault(state) matches Some(
            ServiceFault::Rejected { .. },
        ),
{
}

proof fn lemma_source_endpoints(sources: Seq<SourceModel>, n: nat, endpoint: Seq<char>)
    requires
        n <= sources.len(),
    ensures
        source_endpoints(sources, n).contains(endpoint) <==> exists|i: int|
            0 <= i < n && (#[trigger] sources[i]).endpoint_id == Some(endpoint),
    decreases n,
{
    if n > 0 {
        let rest = source_endpoints(sources, (n - 1) as nat);
        lemma_source_endpoints(sources, (n - 1) as nat, endpoint);
        if let Some(id) = sources[n - 1].endpoint_id {
            let all = source_endpoints(sources, n);
            assert(all == rest.push(id));
            if rest.contains(endpoint) {
                let i = rest.index_of(endpoint);
                assert(all[i] == endpoint);
            }
            if id == endpoint {
                assert(all[all.len() - 1] == endpoint);
                assert(sources[n - 1].endpoint_id == Some(endpoint));
            }
        }
    }
}

/// Whether a source or a sink of a graph uses an endpoint.
pub open spec fn uses(graph: GraphModel, endpoint: Seq<char>) -> bool {
    ||| exists|i: int|
        0 <= i < graph.sources.len() && (#[trigger] graph.sources[i]).endpoint_id == Some(endpoint)
    ||| exists|i: int| 0 <= i < graph.sinks.len() && (#[trigger] graph.sinks[i]).endpoint_id == endpoint
}

pub(crate) proof fn lemma_endpoints_of(graph: GraphModel, endpoint: Seq<char>)
    ensures
        endpoints_of(graph).contains(endpoint) <==> uses(graph, endpoint),
{
    let sources = source_endpoints(graph.sources, graph.sources.len());
    let sinks = graph.sinks.map_values(|s: SinkModel| s.endpoint_id);
    let all = endpoints_of(graph);
    lemma_source_endpoints(graph.sources, graph.sources.len(), endpoint);
    assert(all == sources + sinks);
    if all.contains(endpoint) {
        let i = all.index_of(endpoint);
        if i < sources.len() {
            assert(sources[i] == endpoint);
        } else {
            assert(sinks[i - sources.len()] == endpoint);
            assert(graph.sinks[i - sources.len()].endpoint_id == endpoint);
        }
    }
    if sources.contains(endpoint) {
        let i = sources.index_of(endpoint);
        assert(all[i] == endpoint);
    }
    if exists|i: int| 0 <= i < graph.sinks.len() && (#[trigger] graph.sinks[i]).endpoint_id
        == endpoint {
        let i = choose|i: int|
            0 <= i < graph.sinks.len() && (#[trigger] graph.sinks[i]).endpoint_id == endpoint;
        assert(sinks[i] == endpoint);
        assert(all[sources.len() + i] == endpoint);
    }
}

proof fn lemma_named(endpoints: Seq<Seq<char>>, error: Seq<char>, endpoint: Seq<char>)
    ensures
        named_endpoints(endpoints, error).contains(endpoint) <==> endpoints.contains(endpoint)
            && mentions_endpoint(error, endpoint),
    decreases endpoints.len(),
{
    if endpoints.len() > 0 {
        let init = endpoints.drop_last();
        lemma_named(init, error, endpoint);
        let rest = named_endpoints(init, error);
        let all = named_endpoints(endpoints, error);
        if endpoints.contains(endpoint) {
            let i = endpoints.index_of(endpoint);
            if i < init.len() {
                assert(init[i] == endpoint);
            }
        }
        if init.contains(endpoint) {
            let i = init.index_of(endpoint);
            assert(endpoints[i] == endpoint);
        }
        if endpoints.last() == endpoint {
            assert(endpoints[endpoints.len() - 1] == endpoint);
        }
        if rest.contains(endpoint) {
            let i = rest.index_of(endpoint);
            assert(all[i] == endpoint);
        }
        if all.contains(endpoint) {
            let i = all.index_of(endpoint);
            if i < rest.len() {
                assert(rest[i] == endpoint);
            }
        }
        if mentions_endpoint(error, endpoints.last()) {
            assert(all[all.len() - 1] == endpoints.last());
        }
    }
}

/// When an engine that ran loses a device, the endpoints that its graph uses and its error names
/// are told to be lost, and no others; they are remembered until the engine runs again.
pub proof fn law_lost_devices_are_told(
    service: ServiceModel,
    error: Seq<char>,
    before: Seq<char>,
    endpoint: Seq<char>,
    behind: Seq<char>,
)
    requires
        service.last_state == Some(AudioEngineState::Running),
        service.engine.state == AudioEngineState::Degraded || service.engine.state
            == AudioEngineState::Reconnecting,
        service.engine.last_error == Some(error),
    ensures
        uses(service.graph, endpoint) && error == before + "endpoint="@ + endpoint + behind
            ==> service.news().contains(ServiceEventModel::DeviceLost(endpoint))
            && service.faulted_after().contains(endpoint),
        uses(service.graph, endpoint) && error == before + "endpoint=Some(\""@ + endpoint + "\")"@
            + behind ==> service.news().contains(ServiceEventModel::DeviceLost(endpoint)),
        service.news().contains(ServiceEventModel::DeviceLost(endpoint)) ==> uses(
            service.graph,
            endpoint,
        ) && has_text(error, endpoint),
        service.news().contains(ServiceEventModel::DeviceLost(endpoint))
            <==> service.faulted_after().contains(endpoint),
        service.news().contains(ServiceEventModel::StateChanged(service.engine.state)),
{
    let failed = failed_endpoints(service.graph, service.engine.last_error);
    lemma_endpoints_of(service.graph, endpoint);
    lemma_named(endpoints_of(service.graph), error, endpoint);
    let plain = "endpoint="@ + endpoint;
    let quoted = "endpoint=Some(\""@ + endpoint + "\")"@;
    if error == before + "endpoint="@ + endpoint + behind {
        assert(error =~= before + plain + behind);
        assert(occurs_at(error, plain, before.len() as int)) by {
            assert(error.subrange(
                before.len() as int,
                (before.len() + plain.len()) as int,
            ) =~= plain);
        }
    }
    if error == before + "endpoint=Some(\""@ + endpoint + "\")"@ + behind {
        assert(error =~= before + quoted + behind);
        assert(occurs_at(error, quoted, before.len() as int)) by {
            assert(error.subrange(
                before.len() as int,
                (before.len() + quoted.len()) as int,
            ) =~= quoted);
        }
    }
    let news = service.news();
    let lost = lost_events(failed);
    assert(news[0] == ServiceEventModel::StateChanged(service.engine.state));
    assert(forall|i: int| 0 <= i < lost.len() ==> #[trigger] news[1 + i] == lost[i]);
    if failed.contains(endpoint) {
        let i = failed.index_of(endpoint);
        assert(lost[i] == ServiceEventModel::DeviceLost(endpoint));
        assert(news[1 + i] == lost[i]);
    }
    if news.contains(ServiceEventModel::DeviceLost(endpoint)) {
        let i = news.index_of(ServiceEventModel::DeviceLost(endpoint));
        if 0 < i <= lost.len() {
            assert(lost[i - 1] == news[i]);
            assert(failed[i - 1] == endpoint);
        }
        assert(failed.contains(endpoint));
        lemma_mentioned_text_is_there(error, endpoint);
    }
}

proof fn lemma_part_occurs(text: Seq<char>, before: Seq<char>, part: Seq<char>, behind: Seq<char>)
    requires
        has_text(text, before + part + behind),
    ensures
        has_text(text, part),
{
    let whole = before + part + behind;
    let at = choose|at: int| occurs_at(text, whole, at);
    let from = at + before.len();
    let found = text.subrange(at, at + whole.len());
    assert(text.subrange(from, (from + part.len()) as int) =~= found.subrange(
        before.len() as int,
        (before.len() + part.len()) as int,
    ));
    assert(whole.subrange(before.len() as int, (before.len() + part.len()) as int) =~= part);
    assert(occurs_at(text, part, from as int));
}

proof fn lemma_mentioned_text_is_there(error: Seq<char>, endpoint: Seq<char>)
    requires
        mentions_endpoint(error, endpoint),
    ensures
        has_text(error, endpoint),
{
    let nothing = Seq::<char>::empty();
    assert("endpoint="@ + endpoint + nothing =~= "endpoint="@ + endpoint);
    assert("endpoint_id="@ + endpoint + nothing =~= "endpoint_id="@ + endpoint);
    if has_text(error, "endpoint="@ + endpoint) {
        lemma_part_occurs(error, "endpoint="@, endpoint, nothing);
    } else if has_text(error, "endpoint=Some(\""@ + endpoint + "\")"@) {
        lemma_part_occurs(error, "endpoint=Some(\""@, endpoint, "\")"@);
    } else if has_text(error, "endpoint_id="@ + endpoint) {
        lemma_part_occurs(error, "endpoint_id="@, endpoint, nothing);
    } else {
        lemma_part_occurs(error, "endpoint_id=Some(\""@, endpoint, "\")"@);
    }
}

/// When an engine runs again after it lost a device or failed, every endpoint that was told to be
/// lost is told to be back, and none is remembered any more.
pub proof fn law_lost_devices_are_told_to_be_back(service: ServiceModel, endpoint: Seq<char>)
    requires
        service.engine.state == AudioEngineState::Running,
        service.last_state == Some(AudioEngineState::Degraded) || service.last_state == Some(
            AudioEngineState::Reconnecting,
        ) || service.last_state == Some(AudioEngineState::Failed),
    ensures
        service.news().contains(ServiceEventModel::DeviceRestored(endpoint))
            <==> service.faulted.contains(endpoint),
        service.news().contains(ServiceEventModel::StateChanged(AudioEngineState::Running)),
        service.faulted_after().len() == 0,
{
    let news = service.news();
    let restored = restored_events(service.faulted);
    assert(news[0] == ServiceEventModel::StateChanged(AudioEngineState::Running));
    assert(forall|i: int| 0 <= i < restored.len() ==> #[trigger] news[1 + i] == restored[i]);
    if service.faulted.contains(endpoint) {
        let i = service.faulted.index_of(endpoint);
        assert(restored[i] == ServiceEventModel::DeviceRestored(endpoint));
        assert(news[1 + i] == restored[i]);
    }
    if news.contains(ServiceEventModel::DeviceRestored(endpoint)) {
        let i = news.index_of(ServiceEventModel::DeviceRestored(endpoint));
        if 0 < i <= restored.len() {
            assert(restored[i - 1] == news[i]);
            assert(service.faulted[i - 1] == endpoint);
        }
    }
}

/// Nothing is told twice: without a change of the state or the counts there is no news, with one
/// it is told. The endpoints that were told to be lost stay remembered meanwhile.
pub proof fn law_only_changes_are_news(service: ServiceModel)
    ensures
        service.news().len() == 0 <==> service.last_state == Some(service.engine.state)
            && service.last_stats == Some(service.engine.stats),
        service.last_stats != Some(service.engine.stats) ==> service.news().last()
            == ServiceEventModel::StatsChanged(service.engine.stats),
        service.last_state != Some(service.engine.state) ==> service.news()[0]
            == ServiceEventModel::StateChanged(service.engine.state),
        service.last_state == Some(service.engine.state) ==> service.faulted_after()
            == service.faulted,
{
    if service.last_stats != Some(service.engine.stats) {
        let news = service.news();
        assert(news[news.len() - 1] == ServiceEventModel::StatsChanged(service.engine.stats));
    }
}

/// What an edit sets on a send reaches the editor's graph, and a running engine's graph with it:
/// after it the send of the identifier has the same settings in both.
pub proof fn law_running_engine_follows_the_editor<B, W>(
    hub: HubModel<B, W>,
    k: int,
    gain_db: Decibels,
    on: bool,
)
    requires
        hub.engine matches Some(service) && works(service) && service.graph == hub.editor,
        0 <= k < hub.editor.sends.len(),
    ensures
        ({
            let send = hub.editor.sends[k];
            let gain = EditModel::SetSendGain { send_id: send.id, gain_db };
            let muted = EditModel::SetSendMuted { send_id: send.id, muted: on };
            let enabled = EditModel::SetSendEnabled { send_id: send.id, enabled: on };
            &&& hub.route_fault(gain) is None <==> is_gain(gain_db)
            &&& hub.route_fault(muted) is None
            &&& hub.route_fault(enabled) is None
            &&& is_gain(gain_db) ==> {
                let after = hub.edited(gain);
                &&& after.editor.sends[k].gain_db == gain_db
                &&& after.engine matches Some(service) && service.graph == after.editor
                    && service.engine.graph == after.editor
            }
            &&& hub.edited(muted).editor.sends[k].muted == on
            &&& hub.edited(muted).engine matches Some(service) && service.graph == hub.edited(
                muted,
            ).editor && service.engine.graph == service.graph
            &&& hub.edited(enabled).editor.sends[k].enabled == on
            &&& hub.edited(enabled).engine matches Some(service) && service.graph == hub.edited(
                enabled,
            ).editor && service.engine.graph == service.graph
        }),
{
    let service = hub.engine->0;
    let graph = hub.editor;
    let send = graph.sends[k];
    assert(is_sound(graph));
    assert forall|i: int| 0 <= i < graph.sends.len() && i != k implies (
    #[trigger] graph.sends[i]).id != send.id by {}
    law_first_of_an_identifier_is_found(graph, send.id, k);
    law_settings_are_accepted(graph, send.id, gain_db, on, send.channel_map);
    law_setting_is_what_the_send_has(graph, send.id, gain_db, on, send.channel_map, k);
    law_running_engine_takes_what_is_set(service, k, gain_db, on);
}

/// Any edit that the editor takes and that no running engine is told of changes the editor's
/// graph as the edit says, and the revision; one that is refused changes nothing.
pub proof fn law_edits_reach_the_editor<B, W>(hub: HubModel<B, W>, edit: EditModel)
    requires
        hub.revision < u64::MAX - 1,
    ensures
        hub.route_fault(edit) is None ==> hub.edited(edit).editor == applied(hub.editor, edit)
            && hub.edited(edit).revision > hub.revision,
        hub.route_fault(edit) is Some ==> hub.edited(edit) == hub,
        hub.engine is None ==> (hub.route_fault(edit) is None <==> edit_fault(hub.editor, edit) is None)
            && hub.edited(edit).engine is None,
        hub.edited(edit).config_path == hub.config_path,
        hub.edited(edit).settings == hub.settings,
        hub.edited(edit).identity == hub.identity,
        hub.edited(edit).auth == hub.auth,
        hub.edited(edit).monitor_taps == hub.monitor_taps,
{
}

/// A fault is one of a device that may come back exactly where the endpoint is not active, or
/// the code says that the device or the audio service is gone.
pub proof fn law_lost_devices_are_known_by_their_codes(
    hresult: i32,
    operation: Seq<char>,
    endpoint_id: Option<Seq<char>>,
    endpoint: Seq<char>,
    reason: Seq<char>,
)
    ensures
        ({
            let unsigned = if hresult < 0 {
                hresult + 0x1_0000_0000
            } else {
                hresult as int
            };
            let gone = {
                ||| unsigned == 0x8889_0004
                ||| unsigned == 0x8889_0005
                ||| unsigned == 0x8889_000f
                ||| unsigned == 0x8889_0010
                ||| unsigned == 0x8007_048f
                ||| unsigned == 0x8007_0490
            };
            &&& (WindowsFault::HResult { operation, hresult, endpoint_id }).recoverable() <==> gone
            &&& (WindowsFault::ComInitialization { hresult }).recoverable() <==> gone
            &&& (WindowsFault::CaptureState { reason, endpoint_id: endpoint }).recoverable()
                <==> reason == inactive_reason()
            &&& (WindowsFault::RenderState { reason, endpoint_id: endpoint }).recoverable()
                <==> reason == inactive_reason()
            &&& !WindowsFault::UnsupportedPlatform.recoverable()
            &&& !(WindowsFault::InvalidFormat { reason, endpoint_id }).recoverable()
        }),
{
}

} // verus!
