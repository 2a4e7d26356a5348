//! Editing a routing graph: every edit is checked as a whole before it counts.

pub mod laws;

use crate::decibels::{gain_allowed, Decibels};
use crate::routing::{
    bus_models, copy_channel_map, law_fault_iff_not_well_formed, owned, send_index, send_models,
    sink_models, source_index, source_models, BusId, BusModel, BusSpec, GraphFault, GraphModel,
    RouteGraph, RouteGraphError, SendEnds, SendId, SendModel, SendSpec, SinkId, SinkModel, SinkSpec,
    SourceId, SourceModel, SourceSpec,
};
use crate::snapshot::RouteGraphSnapshot;
use vstd::prelude::*;

verus! {

/// One edit of a routing graph.
#[derive(Debug, PartialEq, Eq)]
pub enum RouteEdit {
    AddSource(SourceSpec),
    /// Removes a source and every send out of it.
    RemoveSource(SourceId),
    AddBus(BusSpec),
    /// Removes a bus and every send into or out of it.
    RemoveBus(BusId),
    AddSink(SinkSpec),
    /// Removes a sink and every send into it.
    RemoveSink(SinkId),
    /// Adds a send, or replaces the one with the same identifier.
    SetSend(SendSpec),
    RemoveSend(SendId),
    SetSendGain { send_id: SendId, gain_db: Decibels },
    SetSendMuted { send_id: SendId, muted: bool },
    /// A send that is not enabled keeps its settings and is left out of the mix.
    SetSendEnabled { send_id: SendId, enabled: bool },
    SetSendChannelMap { send_id: SendId, channel_map: Vec<(u16, u16)> },
    /// Binds a process source to another process.
    SetSourceProcessId { source_id: SourceId, process_id: Option<u32> },
}

/// What a `RouteEdit` says.
#[verifier::ext_equal]
pub enum EditModel {
    AddSource(SourceModel),
    RemoveSource(Seq<char>),
    AddBus(BusModel),
    RemoveBus(Seq<char>),
    AddSink(SinkModel),
    RemoveSink(Seq<char>),
    SetSend(SendModel),
    RemoveSend(Seq<char>),
    SetSendGain { send_id: Seq<char>, gain_db: Decibels },
    SetSendMuted { send_id: Seq<char>, muted: bool },
    SetSendEnabled { send_id: Seq<char>, enabled: bool },
    SetSendChannelMap { send_id: Seq<char>, channel_map: Seq<(u16, u16)> },
    SetSourceProcessId { source_id: Seq<char>, process_id: Option<u32> },
}

impl View for RouteEdit {
    type V = EditModel;

    open spec fn view(&self) -> EditModel {
        match *self {
            RouteEdit::AddSource(s) => EditModel::AddSource(s@),
            RouteEdit::RemoveSource(id) => EditModel::RemoveSource(id@),
            RouteEdit::AddBus(b) => EditModel::AddBus(b@),
            RouteEdit::RemoveBus(id) => EditModel::RemoveBus(id@),
            RouteEdit::AddSink(s) => EditModel::AddSink(s@),
            RouteEdit::RemoveSink(id) => EditModel::RemoveSink(id@),
            RouteEdit::SetSend(s) => EditModel::SetSend(s@),
            RouteEdit::RemoveSend(id) => EditModel::RemoveSend(id@),
            RouteEdit::SetSendGain { send_id, gain_db } => EditModel::SetSendGain {
                send_id: send_id@,
                gain_db,
            },
            RouteEdit::SetSendMuted { send_id, muted } => EditModel::SetSendMuted {
                send_id: send_id@,
                muted,
            },
            RouteEdit::SetSendEnabled { send_id, enabled } => EditModel::SetSendEnabled {
                send_id: send_id@,
                enabled,
            },
            RouteEdit::SetSendChannelMap { send_id, channel_map } =>
                EditModel::SetSendChannelMap { send_id: send_id@, channel_map: channel_map@ },
            RouteEdit::SetSourceProcessId { source_id, process_id } =>
                EditModel::SetSourceProcessId { source_id: source_id@, process_id },
        }
    }
}

/// Whether `send` leaves the source `id`.
pub open spec fn leaves_source(send: SendModel, id: Seq<char>) -> bool {
    send.ends matches SendEnds::SourceToBus { source_id, .. } && source_id == id
}

/// Whether `send` enters or leaves the bus `id`.
pub open spec fn touches_bus(send: SendModel, id: Seq<char>) -> bool {
    match send.ends {
        SendEnds::SourceToBus { bus_id, .. } => bus_id == id,
        SendEnds::BusToSink { bus_id, .. } => bus_id == id,
    }
}

/// Whether `send` enters the sink `id`.
pub open spec fn enters_sink(send: SendModel, id: Seq<char>) -> bool {
    send.ends matches SendEnds::BusToSink { sink_id, .. } && sink_id == id
}

/// `graph` with its send `id` changed to what `change` makes of it.
pub open spec fn with_send(
    graph: GraphModel,
    id: Seq<char>,
    change: spec_fn(SendModel) -> SendModel,
) -> Result<GraphModel, GraphFault> {
    if graph.has_send(id) {
        let i = send_index(graph.sends, id);
        Ok(GraphModel { sends: graph.sends.update(i, change(graph.sends[i])), ..graph })
    } else {
        Err(GraphFault::MissingSend(id))
    }
}

/// What `edit` makes of `graph` before the result is checked.
pub open spec fn edited(graph: GraphModel, edit: EditModel) -> Result<GraphModel, GraphFault> {
    match edit {
        EditModel::AddSource(s) => Ok(GraphModel { sources: graph.sources.push(s), ..graph }),
        EditModel::RemoveSource(id) => if graph.has_source(id) {
            Ok(
                GraphModel {
                    sources: graph.sources.filter(|s: SourceModel| s.id != id),
                    sends: graph.sends.filter(|s: SendModel| !leaves_source(s, id)),
                    ..graph
                },
            )
        } else {
            Err(GraphFault::MissingSource(id))
        },
        EditModel::AddBus(b) => Ok(GraphModel { buses: graph.buses.push(b), ..graph }),
        EditModel::RemoveBus(id) => if graph.has_bus(id) {
            Ok(
                GraphModel {
                    buses: graph.buses.filter(|b: BusModel| b.id != id),
                    sends: graph.sends.filter(|s: SendModel| !touches_bus(s, id)),
                    ..graph
                },
            )
        } else {
            Err(GraphFault::MissingBus(id))
        },
        EditModel::AddSink(s) => Ok(GraphModel { sinks: graph.sinks.push(s), ..graph }),
        EditModel::RemoveSink(id) => if graph.has_sink(id) {
            Ok(
                GraphModel {
                    sinks: graph.sinks.filter(|s: SinkModel| s.id != id),
                    sends: graph.sends.filter(|s: SendModel| !enters_sink(s, id)),
                    ..graph
                },
            )
        } else {
            Err(GraphFault::MissingSink(id))
        },
        EditModel::SetSend(send) => if graph.has_send(send.id) {
            Ok(
                GraphModel {
                    sends: graph.sends.update(send_index(graph.sends, send.id), send),
                    ..graph
                },
            )
        } else {
            Ok(GraphModel { sends: graph.sends.push(send), ..graph })
        },
        EditModel::RemoveSend(id) => Ok(
            GraphModel { sends: graph.sends.filter(|s: SendModel| s.id != id), ..graph },
        ),
        EditModel::SetSendGain { send_id, gain_db } => with_send(
            graph,
            send_id,
            |s: SendModel| SendModel { gain_db, ..s },
        ),
        EditModel::SetSendMuted { send_id, muted } => with_send(
            graph,
            send_id,
            |s: SendModel| SendModel { muted, ..s },
        ),
        EditModel::SetSendEnabled { send_id, enabled } => with_send(
            graph,
            send_id,
            |s: SendModel| SendModel { enabled, ..s },
        ),
        EditModel::SetSendChannelMap { send_id, channel_map } => with_send(
            graph,
            send_id,
            |s: SendModel| SendModel { channel_map, ..s },
        ),
        EditModel::SetSourceProcessId { source_id, process_id } => if graph.has_source(source_id) {
            let i = source_index(graph.sources, source_id);
            Ok(
                GraphModel {
                    sources: graph.sources.update(
                        i,
                        SourceModel { process_id, ..graph.sources[i] },
                    ),
                    ..graph
                },
            )
        } else {
            Err(GraphFault::MissingSource(source_id))
        },
    }
}

/// The fault that keeps `edit` from applying to `graph`, if there is one.
pub open spec fn edit_fault(graph: GraphModel, edit: EditModel) -> Option<GraphFault> {
    match edited(graph, edit) {
        Ok(next) => next.fault(),
        Err(fault) => Some(fault),
    }
}

/// `graph` after `edit`: the edited graph where it is valid, else `graph` itself.
pub open spec fn applied(graph: GraphModel, edit: EditModel) -> GraphModel {
    if edit_fault(graph, edit) is None {
        edited(graph, edit)->Ok_0
    } else {
        graph
    }
}

/// The settings of a send that can change while its identity and ends stay.
pub struct SendSettings {
    pub gain_db: Decibels,
    pub muted: bool,
    pub enabled: bool,
    pub channel_map: Vec<(u16, u16)>,
}

impl SendSpec {
    /// The send with other settings.
    pub fn with_settings(&self, settings: SendSettings) -> (send: SendSpec)
        ensures
            send@ == (SendModel {
                gain_db: settings.gain_db,
                muted: settings.muted,
                enabled: settings.enabled,
                channel_map: settings.channel_map@,
                ..self@
            }),
    {
        let SendSettings { gain_db, muted, enabled, channel_map } = settings;
        match self {
            SendSpec::SourceToBus { id, source_id, bus_id, .. } => SendSpec::SourceToBus {
                id: id.clone(),
                source_id: source_id.clone(),
                bus_id: bus_id.clone(),
                gain_db,
                muted,
                enabled,
                channel_map,
            },
            SendSpec::BusToSink { id, bus_id, sink_id, .. } => SendSpec::BusToSink {
                id: id.clone(),
                bus_id: bus_id.clone(),
                sink_id: sink_id.clone(),
                gain_db,
                muted,
                enabled,
                channel_map,
            },
        }
    }

    /// The settings of the send.
    pub fn settings(&self) -> (settings: SendSettings)
        ensures
            settings.gain_db == self@.gain_db,
            settings.muted == self@.muted,
            settings.enabled == self@.enabled,
            settings.channel_map@ == self@.channel_map,
    {
        SendSettings {
            gain_db: self.gain_db(),
            muted: self.muted(),
            enabled: self.enabled(),
            channel_map: copy_channel_map(self.channel_map()),
        }
    }
}

/// Filtering a list one longer appends the new element or leaves it out.
proof fn lemma_filter_step<A>(list: Seq<A>, i: int, keep: spec_fn(A) -> bool)
    requires
        0 <= i < list.len(),
    ensures
        list.take(i + 1).filter(keep) == if keep(list[i]) {
            list.take(i).filter(keep).push(list[i])
        } else {
            list.take(i).filter(keep)
        },
{
    reveal(Seq::filter);
    assert(list.take(i + 1).drop_last() =~= list.take(i));
}

fn sources_without(sources: &Vec<SourceSpec>, id: &SourceId) -> (kept: Vec<SourceSpec>)
    ensures
        source_models(kept@) == source_models(sources@).filter(|s: SourceModel| s.id != id@),
{
    let ghost keep = |s: SourceModel| s.id != id@;
    let ghost all = source_models(sources@);
    let mut kept: Vec<SourceSpec> = Vec::new();
    assert(source_models(kept@) =~= all.take(0).filter(keep)) by {
        reveal(Seq::filter);
    }
    for i in 0..sources.len()
        invariant
            keep == (|s: SourceModel| s.id != id@),
            all == source_models(sources@),
            source_models(kept@) == all.take(i as int).filter(keep),
    {
        proof {
            lemma_filter_step(all, i as int, keep);
        }
        if sources[i].id.0 != id.0 {
            let ghost before = kept@;
            kept.push(sources[i].clone());
            assert(source_models(kept@) =~= source_models(before).push(all[i as int]));
        }
    }
    assert(all.take(sources.len() as int) =~= all);
    kept
}

fn buses_without(buses: &Vec<BusSpec>, id: &BusId) -> (kept: Vec<BusSpec>)
    ensures
        bus_models(kept@) == bus_models(buses@).filter(|b: BusModel| b.id != id@),
{
    let ghost keep = |b: BusModel| b.id != id@;
    let ghost all = bus_models(buses@);
    let mut kept: Vec<BusSpec> = Vec::new();
    assert(bus_models(kept@) =~= all.take(0).filter(keep)) by {
        reveal(Seq::filter);
    }
    for i in 0..buses.len()
        invariant
            keep == (|b: BusModel| b.id != id@),
            all == bus_models(buses@),
            bus_models(kept@) == all.take(i as int).filter(keep),
    {
        proof {
            lemma_filter_step(all, i as int, keep);
        }
        if buses[i].id.0 != id.0 {
            let ghost before = kept@;
            kept.push(buses[i].clone());
            assert(bus_models(kept@) =~= bus_models(before).push(all[i as int]));
        }
    }
    assert(all.take(buses.len() as int) =~= all);
    kept
}

fn sinks_without(sinks: &Vec<SinkSpec>, id: &SinkId) -> (kept: Vec<SinkSpec>)
    ensures
        sink_models(kept@) == sink_models(sinks@).filter(|s: SinkModel| s.id != id@),
{
    let ghost keep = |s: SinkModel| s.id != id@;
    let ghost all = sink_models(sinks@);
    let mut kept: Vec<SinkSpec> = Vec::new();
    assert(sink_models(kept@) =~= all.take(0).filter(keep)) by {
        reveal(Seq::filter);
    }
    for i in 0..sinks.len()
        invariant
            keep == (|s: SinkModel| s.id != id@),
            all == sink_models(sinks@),
            sink_models(kept@) == all.take(i as int).filter(keep),
    {
        proof {
            lemma_filter_step(all, i as int, keep);
        }
        if sinks[i].id.0 != id.0 {
            let ghost before = kept@;
            kept.push(sinks[i].clone());
            assert(sink_models(kept@) =~= sink_models(before).push(all[i as int]));
        }
    }
    assert(all.take(sinks.len() as int) =~= all);
    kept
}

/// Which sends an edit takes out of the graph.
enum SendGroup<'a> {
    Leaving(&'a SourceId),
    Touching(&'a BusId),
    Entering(&'a SinkId),
    Named(&'a SendId),
}

impl<'a> SendGroup<'a> {
    spec fn has(self, send: SendModel) -> bool {
        match self {
            SendGroup::Leaving(id) => leaves_source(send, id@),
            SendGroup::Touching(id) => touches_bus(send, id@),
            SendGroup::Entering(id) => enters_sink(send, id@),
            SendGroup::Named(id) => send.id == id@,
        }
    }

    fn contains(&self, send: &SendSpec) -> (contained: bool)
        ensures
            contained == self.has(send@),
    {
        match self {
            SendGroup::Leaving(id) => match send {
                SendSpec::SourceToBus { source_id, .. } => source_id.0 == id.0,
                SendSpec::BusToSink { .. } => false,
            },
            SendGroup::Touching(id) => match send {
                SendSpec::SourceToBus { bus_id, .. } => bus_id.0 == id.0,
                SendSpec::BusToSink { bus_id, .. } => bus_id.0 == id.0,
            },
            SendGroup::Entering(id) => match send {
                SendSpec::SourceToBus { .. } => false,
                SendSpec::BusToSink { sink_id, .. } => sink_id.0 == id.0,
            },
            SendGroup::Named(id) => send.id().0 == id.0,
        }
    }
}

fn sends_without(sends: &Vec<SendSpec>, group: SendGroup) -> (kept: Vec<SendSpec>)
    ensures
        send_models(kept@) == send_models(sends@).filter(|s: SendModel| !group.has(s)),
{
    let ghost keep = |s: SendModel| !group.has(s);
    let ghost all = send_models(sends@);
    let mut kept: Vec<SendSpec> = Vec::new();
    assert(send_models(kept@) =~= all.take(0).filter(keep)) by {
        reveal(Seq::filter);
    }
    for i in 0..sends.len()
        invariant
            keep == (|s: SendModel| !group.has(s)),
            all == send_models(sends@),
            send_models(kept@) == all.take(i as int).filter(keep),
    {
        proof {
            lemma_filter_step(all, i as int, keep);
        }
        if !group.contains(&sends[i]) {
            let ghost before = kept@;
            kept.push(sends[i].clone());
            assert(send_models(kept@) =~= send_models(before).push(all[i as int]));
        }
    }
    assert(all.take(sends.len() as int) =~= all);
    kept
}

/// Which setting of a send an edit changes.
#[derive(Debug, PartialEq, Eq)]
pub enum SettingChange {
    Gain(Decibels),
    Muted(bool),
    Enabled(bool),
    ChannelMap(Vec<(u16, u16)>),
}

impl SettingChange {
    /// The send with the setting changed.
    pub open spec fn changed(self, send: SendModel) -> SendModel {
        match self {
            SettingChange::Gain(gain_db) => SendModel { gain_db, ..send },
            SettingChange::Muted(muted) => SendModel { muted, ..send },
            SettingChange::Enabled(enabled) => SendModel { enabled, ..send },
            SettingChange::ChannelMap(map) => SendModel { channel_map: map@, ..send },
        }
    }
}

/// Changes a setting of a send, without checking the graph that comes of it.
pub fn change_send(graph: &mut RouteGraph, send_id: &SendId, change: SettingChange) -> (result: Result<
    (),
    RouteGraphError,
>)
    ensures
        match result {
            Ok(_) => with_send(old(graph)@, send_id@, |s: SendModel| change.changed(s)) == Ok::<
                GraphModel,
                GraphFault,
            >(final(graph)@),
            Err(e) => with_send(old(graph)@, send_id@, |s: SendModel| change.changed(s)) == Err::<
                GraphModel,
                GraphFault,
            >(e@) && final(graph)@ == old(graph)@,
        },
{
    let ghost before = graph@;
    match graph.find_send(send_id) {
        Some(i) => {
            let ghost old_sends = graph.sends@;
            assert(before.sends[i as int] == old_sends[i as int]@);
            let mut settings = graph.sends[i].settings();
            match change {
                SettingChange::Gain(gain_db) => {
                    settings.gain_db = gain_db;
                },
                SettingChange::Muted(muted) => {
                    settings.muted = muted;
                },
                SettingChange::Enabled(enabled) => {
                    settings.enabled = enabled;
                },
                SettingChange::ChannelMap(map) => {
                    settings.channel_map = map;
                },
            }
            let next = graph.sends[i].with_settings(settings);
            assert(next@ =~= change.changed(before.sends[i as int]));
            graph.sends.set(i, next);
            assert(graph@.sends =~= before.sends.update(
                i as int,
                change.changed(before.sends[i as int]),
            ));
            Ok(())
        },
        None => Err(RouteGraphError::MissingSend(owned(&send_id.0))),
    }
}

/// Makes `edit` in `graph` without checking the result.
fn edit_graph(graph: &mut RouteGraph, edit: RouteEdit) -> (result: Result<(), RouteGraphError>)
    ensures
        match result {
            Ok(_) => edited(old(graph)@, edit@) == Ok::<GraphModel, GraphFault>(final(graph)@),
            Err(e) => edited(old(graph)@, edit@) == Err::<GraphModel, GraphFault>(e@),
        },
{
    let ghost before = graph@;
    let ghost model = edit@;
    match edit {
        RouteEdit::AddSource(source) => {
            graph.sources.push(source);
            assert(graph@.sources =~= before.sources.push(source@));
            Ok(())
        },
        RouteEdit::RemoveSource(id) => {
            if graph.find_source(&id).is_none() {
                return Err(RouteGraphError::MissingSource(owned(&id.0)));
            }
            graph.sources = sources_without(&graph.sources, &id);
            let group = SendGroup::Leaving(&id);
            graph.sends = sends_without(&graph.sends, group);
            assert((|s: SendModel| !group.has(s)) =~= (|s: SendModel| !leaves_source(s, id@)));
            Ok(())
        },
        RouteEdit::AddBus(bus) => {
            graph.buses.push(bus);
            assert(graph@.buses =~= before.buses.push(bus@));
            Ok(())
        },
        RouteEdit::RemoveBus(id) => {
            if graph.find_bus(&id).is_none() {
                return Err(RouteGraphError::MissingBus(owned(&id.0)));
            }
            graph.buses = buses_without(&graph.buses, &id);
            let group = SendGroup::Touching(&id);
            graph.sends = sends_without(&graph.sends, group);
            assert((|s: SendModel| !group.has(s)) =~= (|s: SendModel| !touches_bus(s, id@)));
            Ok(())
        },
        RouteEdit::AddSink(sink) => {
            graph.sinks.push(sink);
            assert(graph@.sinks =~= before.sinks.push(sink@));
            Ok(())
        },
        RouteEdit::RemoveSink(id) => {
            if graph.find_sink(&id).is_none() {
                return Err(RouteGraphError::MissingSink(owned(&id.0)));
            }
            graph.sinks = sinks_without(&graph.sinks, &id);
            let group = SendGroup::Entering(&id);
            graph.sends = sends_without(&graph.sends, group);
            assert((|s: SendModel| !group.has(s)) =~= (|s: SendModel| !enters_sink(s, id@)));
            Ok(())
        },
        RouteEdit::SetSend(send) => {
            match graph.find_send(send.id()) {
                Some(i) => {
                    graph.sends.set(i, send);
                    assert(graph@.sends =~= before.sends.update(i as int, send@));
                },
                None => {
                    graph.sends.push(send);
                    assert(graph@.sends =~= before.sends.push(send@));
                },
            }
            Ok(())
        },
        RouteEdit::RemoveSend(id) => {
            let group = SendGroup::Named(&id);
            graph.sends = sends_without(&graph.sends, group);
            assert((|s: SendModel| !group.has(s)) =~= (|s: SendModel| s.id != id@));
            Ok(())
        },
        RouteEdit::SetSendGain { send_id, gain_db } => {
            let change = SettingChange::Gain(gain_db);
            assert((|s: SendModel| change.changed(s)) =~= (|s: SendModel| SendModel {
                gain_db,
                ..s
            }));
            change_send(graph, &send_id, change)
        },
        RouteEdit::SetSendMuted { send_id, muted } => {
            let change = SettingChange::Muted(muted);
            assert((|s: SendModel| change.changed(s)) =~= (|s: SendModel| SendModel {
                muted,
                ..s
            }));
            change_send(graph, &send_id, change)
        },
        RouteEdit::SetSendEnabled { send_id, enabled } => {
            let change = SettingChange::Enabled(enabled);
            assert((|s: SendModel| change.changed(s)) =~= (|s: SendModel| SendModel {
                enabled,
                ..s
            }));
            change_send(graph, &send_id, change)
        },
        RouteEdit::SetSendChannelMap { send_id, channel_map } => {
            let ghost pairs = channel_map@;
            let change = SettingChange::ChannelMap(channel_map);
            assert((|s: SendModel| change.changed(s)) =~= (|s: SendModel| SendModel {
                channel_map: pairs,
                ..s
            }));
            change_send(graph, &send_id, change)
        },
        RouteEdit::SetSourceProcessId { source_id, process_id } => {
            match graph.find_source(&source_id) {
                Some(i) => {
                    assert(before.sources[i as int] == graph.sources@[i as int]@);
                    let mut source = graph.sources[i].clone();
                    source.process_id = process_id;
                    graph.sources.set(i, source);
                    assert(graph@.sources =~= before.sources.update(
                        i as int,
                        SourceModel { process_id, ..before.sources[i as int] },
                    ));
                    Ok(())
                },
                None => Err(RouteGraphError::MissingSource(owned(&source_id.0))),
            }
        },
    }
}

/// A routing graph that is being edited.
#[derive(Debug)]
pub struct RouteEditor {
    draft: RouteGraph,
}

impl View for RouteEditor {
    type V = GraphModel;

    closed spec fn view(&self) -> GraphModel {
        self.draft@
    }
}

impl RouteEditor {
    /// Starts to edit `draft`.
    pub fn new(draft: RouteGraph) -> (editor: Self)
        ensures
            editor@ == draft@,
    {
        RouteEditor { draft }
    }

    /// The graph as it stands.
    pub fn draft(&self) -> (draft: &RouteGraph)
        ensures
            draft@ == self@,
    {
        &self.draft
    }

    /// Applies `edit`. An edit that cannot be made, or that leaves the graph invalid,
    /// is refused with the fault and changes nothing.
    pub fn apply(&mut self, edit: RouteEdit) -> (result: Result<(), RouteGraphError>)
        ensures
            final(self)@ == applied(old(self)@, edit@),
            match result {
                Ok(_) => edit_fault(old(self)@, edit@) is None,
                Err(e) => edit_fault(old(self)@, edit@) == Some(e@),
            },
    {
        let mut next = self.draft.clone();
        match edit_graph(&mut next, edit) {
            Ok(_) => {},
            Err(e) => {
                return Err(e);
            },
        }
        match next.validate() {
            Ok(_) => {
                self.draft = next;
                Ok(())
            },
            Err(e) => Err(e),
        }
    }

    /// Freezes the graph as it stands, if it is valid.
    pub fn commit(&self) -> (result: Result<RouteGraphSnapshot, RouteGraphError>)
        ensures
            match result {
                Ok(snapshot) => snapshot@ == self@,
                Err(e) => self@.fault() == Some(e@),
            },
            result is Ok <==> self@.well_formed(),
    {
        RouteGraphSnapshot::new(self.draft.clone())
    }
}

impl Clone for RouteEditor {
    fn clone(&self) -> (copy: Self)
        ensures
            copy@ == self@,
    {
        RouteEditor { draft: self.draft.clone() }
    }
}

/// A graph that is valid stays so, whatever edits are asked for, and an edit that is
/// refused changes nothing.
pub proof fn law_edit_keeps_graph_valid(graph: GraphModel, edit: EditModel)
    requires
        graph.well_formed(),
    ensures
        applied(graph, edit).well_formed(),
        edit_fault(graph, edit) is Some ==> applied(graph, edit) == graph,
{
    if edit_fault(graph, edit) is None {
        law_fault_iff_not_well_formed(edited(graph, edit)->Ok_0);
    }
}

/// Whether two things stand in a list, one before the other.
pub open spec fn stand_in_order<A>(list: Seq<A>, x: A, y: A) -> bool {
    exists|a: int, b: int|
        0 <= a < b < list.len() && #[trigger] list[a] == x && #[trigger] list[b] == y
}

pub(crate) proof fn lemma_filter<A>(list: Seq<A>, keep: spec_fn(A) -> bool)
    ensures
        forall|i: int|
            0 <= i < list.filter(keep).len() ==> keep(#[trigger] list.filter(keep)[i])
                && list.contains(list.filter(keep)[i]),
        forall|i: int|
            0 <= i < list.len() && keep(#[trigger] list[i]) ==> list.filter(keep).contains(
                list[i],
            ),
        forall|i: int, j: int|
            0 <= i < j < list.filter(keep).len() ==> stand_in_order(
                list,
                #[trigger] list.filter(keep)[i],
                #[trigger] list.filter(keep)[j],
            ),
    decreases list.len(),
{
    reveal(Seq::filter);
    if list.len() > 0 {
        let init = list.drop_last();
        let part = init.filter(keep);
        let all = list.filter(keep);
        let end = list.len() - 1;
        lemma_filter(init, keep);
        assert(list[end] == list.last());
        assert forall|i: int| 0 <= i < all.len() implies keep(#[trigger] all[i]) && list.contains(
            all[i],
        ) by {
            if i < part.len() {
                assert(all[i] == part[i]);
                let k = choose|k: int| 0 <= k < init.len() && init[k] == part[i];
                assert(list[k] == part[i]);
            }
        }
        assert forall|i: int| 0 <= i < list.len() && keep(#[trigger] list[i]) implies all.contains(
            list[i],
        ) by {
            if i < end {
                assert(init[i] == list[i]);
                let k = choose|k: int| 0 <= k < part.len() && part[k] == init[i];
                assert(all[k] == list[i]);
            } else {
                assert(all[part.len() as int] == list[i]);
            }
        }
        assert forall|i: int, j: int| 0 <= i < j < all.len() implies stand_in_order(
            list,
            #[trigger] all[i],
            #[trigger] all[j],
        ) by {
            assert(all[i] == part[i]);
            if j < part.len() {
                assert(all[j] == part[j]);
                assert(stand_in_order(init, part[i], part[j]));
                let (a, b) = choose|a: int, b: int|
                    0 <= a < b < init.len() && #[trigger] init[a] == part[i]
                        && #[trigger] init[b] == part[j];
                assert(list[a] == part[i] && list[b] == part[j]);
            } else {
                assert(init.contains(part[i]));
                let a = choose|a: int| 0 <= a < init.len() && init[a] == part[i];
                assert(list[a] == part[i] && list[end] == all[j]);
            }
        }
    }
}

/// Fewer sends of a valid graph differ from each other, and have gains that are allowed.
proof fn lemma_fewer_sends(graph: GraphModel, keep: spec_fn(SendModel) -> bool, less: GraphModel)
    requires
        graph.well_formed(),
        less.sends == graph.sends.filter(keep),
        forall|i: int|
            0 <= i < graph.sends.len() && keep(#[trigger] graph.sends[i]) ==> less.joins_nodes(
                graph.sends[i],
            ),
    ensures
        forall|i: int, j: int|
            0 <= i < j < less.sends.len() ==> (#[trigger] less.sends[i]).id != (
            #[trigger] less.sends[j]).id,
        forall|i: int| 0 <= i < less.sends.len() ==> less.joins_nodes(#[trigger] less.sends[i]),
        forall|i: int|
            0 <= i < less.sends.len() ==> gain_allowed((#[trigger] less.sends[i]).gain_db),
{
    lemma_filter(graph.sends, keep);
    assert forall|i: int, j: int| 0 <= i < j < less.sends.len() implies (
    #[trigger] less.sends[i]).id != (#[trigger] less.sends[j]).id by {
        assert(stand_in_order(graph.sends, less.sends[i], less.sends[j]));
        let (a, b) = choose|a: int, b: int|
            0 <= a < b < graph.sends.len() && #[trigger] graph.sends[a] == less.sends[i]
                && #[trigger] graph.sends[b] == less.sends[j];
        assert(graph.sends[a].id != graph.sends[b].id);
    }
    assert forall|i: int| 0 <= i < less.sends.len() implies less.joins_nodes(
        #[trigger] less.sends[i],
    ) && gain_allowed(less.sends[i].gain_db) by {
        assert(graph.sends.contains(less.sends[i]));
        let a = choose|a: int| 0 <= a < graph.sends.len() && graph.sends[a] == less.sends[i];
        assert(keep(graph.sends[a]));
        assert(gain_allowed(graph.sends[a].gain_db));
    }
}

/// A source of a valid graph can be removed: it goes, the sends out of it go with it, and
/// everything else stays.
pub proof fn law_source_can_be_removed(graph: GraphModel, id: Seq<char>)
    requires
        graph.well_formed(),
        graph.has_source(id),
    ensures
        edit_fault(graph, EditModel::RemoveSource(id)) is None,
        !applied(graph, EditModel::RemoveSource(id)).has_source(id),
        forall|i: int|
            0 <= i < applied(graph, EditModel::RemoveSource(id)).sends.len() ==> !leaves_source(
                #[trigger] applied(graph, EditModel::RemoveSource(id)).sends[i],
                id,
            ),
        forall|i: int|
            0 <= i < graph.sends.len() && !leaves_source(#[trigger] graph.sends[i], id) ==> applied(
                graph,
                EditModel::RemoveSource(id),
            ).sends.contains(graph.sends[i]),
        applied(graph, EditModel::RemoveSource(id)).buses == graph.buses,
        applied(graph, EditModel::RemoveSource(id)).sinks == graph.sinks,
{
    let keep_source = |s: SourceModel| s.id != id;
    let keep_send = |s: SendModel| !leaves_source(s, id);
    let less = edited(graph, EditModel::RemoveSource(id))->Ok_0;
    lemma_filter(graph.sources, keep_source);
    lemma_filter(graph.sends, keep_send);
    assert forall|i: int, j: int| 0 <= i < j < less.sources.len() implies (
    #[trigger] less.sources[i]).id != (#[trigger] less.sources[j]).id && (
    less.sources[j].endpoint_id is Some ==> less.sources[i].endpoint_id
        != less.sources[j].endpoint_id) by {
        assert(stand_in_order(graph.sources, less.sources[i], less.sources[j]));
        let (a, b) = choose|a: int, b: int|
            0 <= a < b < graph.sources.len() && #[trigger] graph.sources[a] == less.sources[i]
                && #[trigger] graph.sources[b] == less.sources[j];
        assert(graph.sources[a].id != graph.sources[b].id);
    }
    assert forall|i: int|
        0 <= i < graph.sends.len() && keep_send(#[trigger] graph.sends[i]) implies less.joins_nodes(
        graph.sends[i],
    ) by {
        let send = graph.sends[i];
        assert(graph.joins_nodes(send));
        if let SendEnds::SourceToBus { source_id, .. } = send.ends {
            let k = choose|k: int|
                0 <= k < graph.sources.len() && (#[trigger] graph.sources[k]).id == source_id;
            assert(keep_source(graph.sources[k]));
            assert(less.sources.contains(graph.sources[k]));
            let n = choose|n: int| 0 <= n < less.sources.len() && less.sources[n]
                == graph.sources[k];
            assert(less.sources[n].id == source_id);
        }
    }
    lemma_fewer_sends(graph, keep_send, less);
    assert(less.well_formed());
    law_fault_iff_not_well_formed(less);
}

/// A bus of a valid graph can be removed: it goes, the sends into and out of it go with
/// it, and everything else stays.
pub proof fn law_bus_can_be_removed(graph: GraphModel, id: Seq<char>)
    requires
        graph.well_formed(),
        graph.has_bus(id),
    ensures
        edit_fault(graph, EditModel::RemoveBus(id)) is None,
        !applied(graph, EditModel::RemoveBus(id)).has_bus(id),
        forall|i: int|
            0 <= i < applied(graph, EditModel::RemoveBus(id)).sends.len() ==> !touches_bus(
                #[trigger] applied(graph, EditModel::RemoveBus(id)).sends[i],
                id,
            ),
        forall|i: int|
            0 <= i < graph.sends.len() && !touches_bus(#[trigger] graph.sends[i], id) ==> applied(
                graph,
                EditModel::RemoveBus(id),
            ).sends.contains(graph.sends[i]),
        applied(graph, EditModel::RemoveBus(id)).sources == graph.sources,
        applied(graph, EditModel::RemoveBus(id)).sinks == graph.sinks,
{
    let keep_bus = |b: BusModel| b.id != id;
    let keep_send = |s: SendModel| !touches_bus(s, id);
    let less = edited(graph, EditModel::RemoveBus(id))->Ok_0;
    lemma_filter(graph.buses, keep_bus);
    lemma_filter(graph.sends, keep_send);
    assert forall|i: int, j: int| 0 <= i < j < less.buses.len() implies (
    #[trigger] less.buses[i]).id != (#[trigger] less.buses[j]).id by {
        assert(stand_in_order(graph.buses, less.buses[i], less.buses[j]));
        let (a, b) = choose|a: int, b: int|
            0 <= a < b < graph.buses.len() && #[trigger] graph.buses[a] == less.buses[i]
                && #[trigger] graph.buses[b] == less.buses[j];
        assert(graph.buses[a].id != graph.buses[b].id);
    }
    assert forall|i: int|
        0 <= i < graph.sends.len() && keep_send(#[trigger] graph.sends[i]) implies less.joins_nodes(
        graph.sends[i],
    ) by {
        let send = graph.sends[i];
        assert(graph.joins_nodes(send));
        let bus_id = match send.ends {
            SendEnds::SourceToBus { bus_id, .. } => bus_id,
            SendEnds::BusToSink { bus_id, .. } => bus_id,
        };
        let k = choose|k: int|
            0 <= k < graph.buses.len() && (#[trigger] graph.buses[k]).id == bus_id;
        assert(keep_bus(graph.buses[k]));
        assert(less.buses.contains(graph.buses[k]));
        let n = choose|n: int| 0 <= n < less.buses.len() && less.buses[n] == graph.buses[k];
        assert(less.buses[n].id == bus_id);
    }
    lemma_fewer_sends(graph, keep_send, less);
    assert(less.well_formed());
    law_fault_iff_not_well_formed(less);
}

/// A sink of a valid graph can be removed: it goes, the sends into it go with it, and
/// everything else stays.
pub proof fn law_sink_can_be_removed(graph: GraphModel, id: Seq<char>)
    requires
        graph.well_formed(),
        graph.has_sink(id),
    ensures
        edit_fault(graph, EditModel::RemoveSink(id)) is None,
        !applied(graph, EditModel::RemoveSink(id)).has_sink(id),
        forall|i: int|
            0 <= i < applied(graph, EditModel::RemoveSink(id)).sends.len() ==> !enters_sink(
                #[trigger] applied(graph, EditModel::RemoveSink(id)).sends[i],
                id,
            ),
        forall|i: int|
            0 <= i < graph.sends.len() && !enters_sink(#[trigger] graph.sends[i], id) ==> applied(
                graph,
                EditModel::RemoveSink(id),
            ).sends.contains(graph.sends[i]),
        applied(graph, EditModel::RemoveSink(id)).sources == graph.sources,
        applied(graph, EditModel::RemoveSink(id)).buses == graph.buses,
{
    let keep_sink = |s: SinkModel| s.id != id;
    let keep_send = |s: SendModel| !enters_sink(s, id);
    let less = edited(graph, EditModel::RemoveSink(id))->Ok_0;
    lemma_filter(graph.sinks, keep_sink);
    lemma_filter(graph.sends, keep_send);
    assert forall|i: int, j: int| 0 <= i < j < less.sinks.len() implies (
    #[trigger] less.sinks[i]).id != (#[trigger] less.sinks[j]).id && less.sinks[i].endpoint_id
        != less.sinks[j].endpoint_id by {
        assert(stand_in_order(graph.sinks, less.sinks[i], less.sinks[j]));
        let (a, b) = choose|a: int, b: int|
            0 <= a < b < graph.sinks.len() && #[trigger] graph.sinks[a] == less.sinks[i]
                && #[trigger] graph.sinks[b] == less.sinks[j];
        assert(graph.sinks[a].id != graph.sinks[b].id);
    }
    assert forall|i: int|
        0 <= i < graph.sends.len() && keep_send(#[trigger] graph.sends[i]) implies less.joins_nodes(
        graph.sends[i],
    ) by {
        let send = graph.sends[i];
        assert(graph.joins_nodes(send));
        if let SendEnds::BusToSink { sink_id, .. } = send.ends {
            let k = choose|k: int|
                0 <= k < graph.sinks.len() && (#[trigger] graph.sinks[k]).id == sink_id;
            assert(keep_sink(graph.sinks[k]));
            assert(less.sinks.contains(graph.sinks[k]));
            let n = choose|n: int| 0 <= n < less.sinks.len() && less.sinks[n] == graph.sinks[k];
            assert(less.sinks[n].id == sink_id);
        }
    }
    lemma_fewer_sends(graph, keep_send, less);
    assert(less.well_formed());
    law_fault_iff_not_well_formed(less);
}

/// A send of a valid graph can be removed, and nothing goes with it. One that is not there
/// can be removed, too: nothing changes.
pub proof fn law_send_can_be_removed(graph: GraphModel, id: Seq<char>)
    requires
        graph.well_formed(),
    ensures
        edit_fault(graph, EditModel::RemoveSend(id)) is None,
        !applied(graph, EditModel::RemoveSend(id)).has_send(id),
        forall|i: int|
            0 <= i < graph.sends.len() && (#[trigger] graph.sends[i]).id != id ==> applied(
                graph,
                EditModel::RemoveSend(id),
            ).sends.contains(graph.sends[i]),
{
    let keep = |s: SendModel| s.id != id;
    let less = edited(graph, EditModel::RemoveSend(id))->Ok_0;
    lemma_filter(graph.sends, keep);
    assert forall|i: int| 0 <= i < graph.sends.len() && keep(#[trigger] graph.sends[i]) implies
        less.joins_nodes(graph.sends[i]) by {
        assert(graph.joins_nodes(graph.sends[i]));
    }
    lemma_fewer_sends(graph, keep, less);
    assert(less.well_formed());
    law_fault_iff_not_well_formed(less);
}

/// Whether `after` is `before` with the send at a place in other settings.
pub open spec fn differs_at(before: GraphModel, after: GraphModel, at: int, send: SendModel) -> bool {
    &&& 0 <= at < before.sends.len()
    &&& before.sends[at].id == send.id
    &&& before.sends[at].ends == send.ends
    &&& after == (GraphModel { sends: before.sends.update(at, send), ..before })
}

proof fn lemma_send_changed(
    graph: GraphModel,
    id: Seq<char>,
    change: spec_fn(SendModel) -> SendModel,
)
    requires
        graph.well_formed(),
        graph.has_send(id),
        forall|s: SendModel| (#[trigger] change(s)).id == s.id && change(s).ends == s.ends,
        forall|s: SendModel|
            gain_allowed(s.gain_db) ==> gain_allowed((#[trigger] change(s)).gain_db),
    ensures
        with_send(graph, id, change) matches Ok(after) && after.fault() is None && differs_at(
            graph,
            after,
            send_index(graph.sends, id),
            change(graph.sends[send_index(graph.sends, id)]),
        ) && graph.sends[send_index(graph.sends, id)].id == id,
{
    let at = send_index(graph.sends, id);
    let k = choose|k: int| 0 <= k < graph.sends.len() && (#[trigger] graph.sends[k]).id == id;
    lemma_first_send(graph.sends, id, k);
    let after = with_send(graph, id, change)->Ok_0;
    let changed = change(graph.sends[at]);
    assert(after.sends[at] == changed);
    assert forall|i: int, j: int| 0 <= i < j < after.sends.len() implies (
    #[trigger] after.sends[i]).id != (#[trigger] after.sends[j]).id by {
        assert(graph.sends[i].id != graph.sends[j].id);
    }
    assert forall|i: int| 0 <= i < after.sends.len() implies after.joins_nodes(
        #[trigger] after.sends[i],
    ) && gain_allowed(after.sends[i].gain_db) by {
        assert(graph.joins_nodes(graph.sends[i]));
        assert(gain_allowed(graph.sends[i].gain_db));
    }
    assert(after.well_formed());
    law_fault_iff_not_well_formed(after);
}

/// A gain that is allowed, a mute and a switch can be set on every send of a valid graph.
/// The send keeps its identity and its ends, and every other send stays as it is.
pub proof fn law_setting_changes_one_send(
    graph: GraphModel,
    id: Seq<char>,
    gain_db: Decibels,
    on: bool,
)
    requires
        graph.well_formed(),
        graph.has_send(id),
        gain_allowed(gain_db),
    ensures
        ({
            let at = send_index(graph.sends, id);
            let send = graph.sends[at];
            let gain = EditModel::SetSendGain { send_id: id, gain_db };
            let muted = EditModel::SetSendMuted { send_id: id, muted: on };
            let enabled = EditModel::SetSendEnabled { send_id: id, enabled: on };
            &&& send.id == id
            &&& edit_fault(graph, gain) is None
            &&& differs_at(graph, applied(graph, gain), at, SendModel { gain_db, ..send })
            &&& edit_fault(graph, muted) is None
            &&& differs_at(graph, applied(graph, muted), at, SendModel { muted: on, ..send })
            &&& edit_fault(graph, enabled) is None
            &&& differs_at(graph, applied(graph, enabled), at, SendModel { enabled: on, ..send })
        }),
{
    lemma_send_changed(graph, id, |s: SendModel| SendModel { gain_db, ..s });
    lemma_send_changed(graph, id, |s: SendModel| SendModel { muted: on, ..s });
    lemma_send_changed(graph, id, |s: SendModel| SendModel { enabled: on, ..s });
}

proof fn lemma_first_send(sends: Seq<SendModel>, id: Seq<char>, k: int)
    requires
        0 <= k < sends.len(),
        sends[k].id == id,
    ensures
        0 <= send_index(sends, id) <= k,
        sends[send_index(sends, id)].id == id,
    decreases sends.len(),
{
    if sends[0].id != id {
        assert(sends.skip(1)[k - 1] == sends[k]);
        lemma_first_send(sends.skip(1), id, k - 1);
    }
}

} // verus!
