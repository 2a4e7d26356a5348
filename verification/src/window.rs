//! What the main window keeps and decides.

pub mod laws;

use crate::arithmetic::is_unary;
use crate::decibels::Decibels;
use crate::diagnostics::{
    process_source, process_source_spec, render_sink, render_sink_spec, route_of, single_route,
};
use crate::routing::{shown_gain, GraphModel, RouteGraph, DEFAULT_BLOCK_FRAMES};
use crate::runtime::config::{config_fault, DEFAULT_FIFO_CAPACITY_BLOCKS};
use crate::runtime::engine::EngineReport;
use crate::runtime::status::{AudioEngineState, AudioEngineStats};
use crate::service::device::{DeviceCompatibility, DeviceFlow, DeviceModel};
use crate::service::engine::{EngineService, ServiceModel};
use crate::service::error::{service_fault_text, ServiceFault};
use crate::text::{decimal_text, push_decimal, text_models};
use vstd::prelude::*;
use vstd::std_specs::cmp::PartialEqSpec;
use vstd::string::StringExecFns;

verus! {

/// Whether a route is silent: one of its two switches is off.
pub fn effective_mute(source_enabled: bool, monitor_enabled: bool) -> (muted: bool)
    ensures
        muted == !(source_enabled && monitor_enabled),
{
    !source_enabled || !monitor_enabled
}

/// Where something stands in a list; the length of the list where it does not.
pub open spec fn position<T: PartialEqSpec>(ids: Seq<T>, id: T) -> int
    decreases ids.len(),
{
    if ids.len() == 0 || ids[0].eq_spec(&id) {
        0
    } else {
        1 + position(ids.skip(1), id)
    }
}

/// The entry that is selected where none was: the one that the list shows, while there is
/// one, and the first one else.
pub open spec fn default_index(count: nat, fallback: i32) -> int {
    if count == 0 {
        -1
    } else if 0 <= fallback < count {
        fallback as int
    } else {
        0
    }
}

/// The entry that is selected in a new list: the one that was selected before, wherever
/// it stands now, and none where it is gone.
pub open spec fn kept_index(found: Option<int>, count: nat, fallback: i32) -> int {
    match found {
        Some(at) => if at < count {
            at
        } else {
            -1
        },
        None => default_index(count, fallback),
    }
}

fn choose_fallback(count: usize, fallback: i32) -> (index: i32)
    ensures
        index == default_index(count as nat, fallback),
{
    if count == 0 {
        -1
    } else if fallback >= 0 && (fallback as usize) < count {
        fallback
    } else {
        0
    }
}

/// Selects an entry in a new list: the one that was selected before, or none where it is
/// gone; where none was, the one that the list shows.
pub fn preserve_selection_index<T: PartialEq>(
    previous_id: Option<&T>,
    new_ids: &[T],
    fallback_index: i32,
) -> (index: i32)
    requires
        T::obeys_eq_spec(),
        new_ids@.len() <= i32::MAX,
    ensures
        index == kept_index(
            match previous_id {
                Some(id) => Some(position(new_ids@, *id)),
                None => None,
            },
            new_ids@.len(),
            fallback_index,
        ),
{
    let count = new_ids.len();
    match previous_id {
        Some(id) => {
            let mut at: usize = 0;
            assert(new_ids@.skip(0) =~= new_ids@);
            while at < count
                invariant
                    T::obeys_eq_spec(),
                    count == new_ids@.len(),
                    count <= i32::MAX,
                    at <= count,
                    previous_id == Some(id),
                    position(new_ids@, *id) == at + position(new_ids@.skip(at as int), *id),
                decreases count - at,
            {
                assert(new_ids@.skip(at as int)[0] == new_ids@[at as int]);
                assert(new_ids@.skip(at as int).skip(1) =~= new_ids@.skip(at + 1));
                if new_ids[at] == *id {
                    return at as i32;
                }
                at = at + 1;
            }
            -1
        },
        None => choose_fallback(count, fallback_index),
    }
}

/// Where a text stands in a list; the length of the list where it does not.
pub open spec fn text_position(texts: Seq<Seq<char>>, text: Seq<char>) -> int
    decreases texts.len(),
{
    if texts.len() == 0 || texts[0] == text {
        0
    } else {
        1 + text_position(texts.skip(1), text)
    }
}

/// Selects an entry in a new list of texts, as `preserve_selection_index` does.
pub fn preserve_text_index(
    previous_id: Option<&String>,
    new_ids: &Vec<String>,
    fallback_index: i32,
) -> (index: i32)
    requires
        new_ids@.len() <= i32::MAX,
    ensures
        index == kept_index(
            match previous_id {
                Some(id) => Some(text_position(text_models(new_ids@), id@)),
                None => None,
            },
            new_ids@.len(),
            fallback_index,
        ),
{
    let ghost all = text_models(new_ids@);
    let count = new_ids.len();
    match previous_id {
        Some(id) => {
            let mut at: usize = 0;
            assert(all.skip(0) =~= all);
            while at < count
                invariant
                    all == text_models(new_ids@),
                    count == new_ids@.len(),
                    count <= i32::MAX,
                    at <= count,
                    previous_id == Some(id),
                    text_position(all, id@) == at + text_position(all.skip(at as int), id@),
                decreases count - at,
            {
                assert(all.skip(at as int)[0] == new_ids@[at as int]@);
                assert(all.skip(at as int).skip(1) =~= all.skip(at + 1));
                if new_ids[at] == *id {
                    return at as i32;
                }
                at = at + 1;
            }
            -1
        },
        None => choose_fallback(count, fallback_index),
    }
}

/// A selection that is kept is the same entry as before; one that cannot be kept is none.
pub proof fn law_selection_follows_identity<T: PartialEqSpec>(
    ids: Seq<T>,
    id: T,
    fallback: i32,
)
    requires
        ids.len() <= i32::MAX,
    ensures
        ({
            let index = kept_index(Some(position(ids, id)), ids.len(), fallback);
            if exists|i: int| 0 <= i < ids.len() && (#[trigger] ids[i]).eq_spec(&id) {
                0 <= index < ids.len() && ids[index].eq_spec(&id)
            } else {
                index == -1
            }
        }),
{
    lemma_position(ids, id);
}

proof fn lemma_position<T: PartialEqSpec>(ids: Seq<T>, id: T)
    ensures
        0 <= position(ids, id) <= ids.len(),
        position(ids, id) < ids.len() ==> ids[position(ids, id)].eq_spec(&id),
        forall|i: int|
            0 <= i < ids.len() && (#[trigger] ids[i]).eq_spec(&id) ==> position(ids, id) <= i,
    decreases ids.len(),
{
    if ids.len() > 0 && !ids[0].eq_spec(&id) {
        let rest = ids.skip(1);
        lemma_position(rest, id);
        assert forall|i: int| 0 <= i < ids.len() && (#[trigger] ids[i]).eq_spec(&id) implies
            position(ids, id) <= i by {
            if i > 0 {
                assert(rest[i - 1] == ids[i]);
            }
        }
        if position(rest, id) < rest.len() {
            assert(rest[position(rest, id)] == ids[position(ids, id)]);
        }
    }
}

/// What the window keeps.
#[derive(Debug)]
pub struct AppState {
    service: Option<EngineService>,
    process_pids: Vec<u32>,
    sink_ids: Vec<String>,
    gain_db: Decibels,
    muted: bool,
    running: bool,
    refreshing: bool,
    selected_process_pid: Option<u32>,
    selected_sink_id: Option<String>,
}

/// What an `AppState` says.
#[verifier::ext_equal]
pub struct WindowModel {
    pub service: Option<ServiceModel>,
    pub process_pids: Seq<u32>,
    pub sink_ids: Seq<Seq<char>>,
    pub gain_db: Decibels,
    pub muted: bool,
    pub running: bool,
    pub refreshing: bool,
    pub selected_process_pid: Option<u32>,
    pub selected_sink_id: Option<Seq<char>>,
}

impl View for AppState {
    type V = WindowModel;

    closed spec fn view(&self) -> WindowModel {
        WindowModel {
            service: crate::service::state::engine_model(self.service),
            process_pids: self.process_pids@,
            sink_ids: text_models(self.sink_ids@),
            gain_db: self.gain_db,
            muted: self.muted,
            running: self.running,
            refreshing: self.refreshing,
            selected_process_pid: self.selected_process_pid,
            selected_sink_id: crate::routing::optional_text(self.selected_sink_id),
        }
    }
}

/// The entry of a list that is shown; none where the list shows none.
pub open spec fn entry<T>(list: Seq<T>, index: i32) -> Option<T> {
    if 0 <= index < list.len() {
        Some(list[index as int])
    } else {
        None
    }
}

/// What the two lists of the window show.
#[derive(Clone, Copy, Debug, PartialEq, Eq, Structural)]
pub struct ShownEntries {
    pub source_index: i32,
    pub output_index: i32,
}

impl WindowModel {
    /// The route that the window shows, or what is missing.
    pub open spec fn route(self, shown: ShownEntries) -> Result<GraphModel, Seq<char>> {
        match (entry(self.process_pids, shown.source_index), entry(
            self.sink_ids,
            shown.output_index,
        )) {
            (None, _) => Err("请先选择音频来源进程"@),
            (_, None) => Err("请先选择输出设备"@),
            (Some(pid), Some(sink_id)) => Ok(
                route_of(
                    process_source(pid),
                    render_sink("sink"@, sink_id),
                    self.gain_db,
                    self.muted,
                ),
            ),
        }
    }

    /// After the selection was remembered by what is selected.
    pub open spec fn remembered(self, shown: ShownEntries) -> WindowModel {
        WindowModel {
            selected_process_pid: entry(self.process_pids, shown.source_index),
            selected_sink_id: entry(self.sink_ids, shown.output_index),
            ..self
        }
    }

    /// After a refresh was asked for. What is shown counts before what was remembered.
    pub open spec fn refreshed(self, shown: ShownEntries) -> WindowModel {
        if self.refreshing {
            self
        } else {
            WindowModel {
                selected_process_pid: match entry(self.process_pids, shown.source_index) {
                    Some(pid) => Some(pid),
                    None => self.selected_process_pid,
                },
                selected_sink_id: match entry(self.sink_ids, shown.output_index) {
                    Some(id) => Some(id),
                    None => self.selected_sink_id,
                },
                refreshing: true,
                ..self
            }
        }
    }
}

/// Why an engine for a graph cannot be had, if it cannot.
pub open spec fn service_fault(graph: GraphModel) -> Option<ServiceFault> {
    match graph.fault() {
        Some(fault) => Some(ServiceFault::Graph(fault)),
        None => match config_fault(
            graph,
            DEFAULT_BLOCK_FRAMES as nat,
            (DEFAULT_BLOCK_FRAMES * DEFAULT_FIFO_CAPACITY_BLOCKS) as nat,
        ) {
            Some(fault) => Some(ServiceFault::Engine(fault)),
            None => None,
        },
    }
}

/// Whether a service runs an engine for a graph.
pub open spec fn runs(service: Option<ServiceModel>, graph: GraphModel) -> bool {
    service matches Some(service) && service.graph == graph && service.engine.graph == graph
        && service.engine.state == AudioEngineState::Running
}

impl AppState {
    /// Nothing is listed and nothing runs.
    pub fn new() -> (state: Self)
        ensures
            state@ == (WindowModel {
                service: None,
                process_pids: Seq::empty(),
                sink_ids: Seq::empty(),
                gain_db: (Decibels { bits: 0 }),
                muted: false,
                running: false,
                refreshing: false,
                selected_process_pid: None,
                selected_sink_id: None,
            }),
    {
        let state = AppState {
            service: None,
            process_pids: Vec::new(),
            sink_ids: Vec::new(),
            gain_db: Decibels { bits: 0 },
            muted: false,
            running: false,
            refreshing: false,
            selected_process_pid: None,
            selected_sink_id: None,
        };
        assert(state@.process_pids =~= Seq::empty());
        assert(state@.sink_ids =~= Seq::empty());
        state
    }

    /// Whether an engine runs.
    pub fn running(&self) -> (running: bool)
        ensures
            running == self@.running,
    {
        self.running
    }

    fn shown_pid(&self, index: i32) -> (pid: Option<u32>)
        ensures
            pid == entry(self@.process_pids, index),
    {
        if index >= 0 && (index as usize) < self.process_pids.len() {
            Some(self.process_pids[index as usize])
        } else {
            None
        }
    }

    fn shown_sink(&self, index: i32) -> (id: Option<String>)
        ensures
            crate::routing::optional_text(id) == entry(self@.sink_ids, index),
    {
        if index >= 0 && (index as usize) < self.sink_ids.len() {
            assert(self@.sink_ids[index as int] == self.sink_ids@[index as int]@);
            Some(self.sink_ids[index as usize].clone())
        } else {
            None
        }
    }

    /// Remembers what is selected, not where it stands.
    pub fn remember_selection(&mut self, shown: ShownEntries)
        ensures
            final(self)@ == old(self)@.remembered(shown),
    {
        let pid = self.shown_pid(shown.source_index);
        let sink = self.shown_sink(shown.output_index);
        self.selected_process_pid = pid;
        self.selected_sink_id = sink;
    }

    /// Asks for new lists, and says whether they are to be made: not while they are being
    /// made.
    pub fn request_refresh(&mut self, shown: ShownEntries) -> (begin: bool)
        ensures
            begin == !old(self)@.refreshing,
            final(self)@ == old(self)@.refreshed(shown),
    {
        if self.refreshing {
            return false;
        }
        if let Some(pid) = self.shown_pid(shown.source_index) {
            self.selected_process_pid = Some(pid);
        }
        if let Some(id) = self.shown_sink(shown.output_index) {
            self.selected_sink_id = Some(id);
        }
        self.refreshing = true;
        true
    }

    /// Notes that the lists were made, or that they could not be.
    pub fn refresh_ended(&mut self)
        ensures
            final(self)@ == (WindowModel { refreshing: false, ..old(self)@ }),
    {
        self.refreshing = false;
    }

    /// Takes a new list of processes in, and says which entry is selected.
    pub fn set_processes(&mut self, pids: Vec<u32>, shown_index: i32) -> (index: i32)
        requires
            pids@.len() <= i32::MAX,
        ensures
            index == kept_index(
                match old(self)@.selected_process_pid {
                    Some(pid) => Some(position(pids@, pid)),
                    None => None,
                },
                pids@.len(),
                shown_index,
            ),
            final(self)@ == (WindowModel {
                process_pids: pids@,
                selected_process_pid: entry(pids@, index),
                ..old(self)@
            }),
    {
        let index = preserve_selection_index(
            self.selected_process_pid.as_ref(),
            pids.as_slice(),
            shown_index,
        );
        self.process_pids = pids;
        self.selected_process_pid = self.shown_pid(index);
        index
    }

    /// Takes a new list of outputs in, and says which entry is selected.
    pub fn set_sinks(&mut self, ids: Vec<String>, shown_index: i32) -> (index: i32)
        requires
            ids@.len() <= i32::MAX,
        ensures
            index == kept_index(
                match old(self)@.selected_sink_id {
                    Some(id) => Some(text_position(text_models(ids@), id)),
                    None => None,
                },
                ids@.len(),
                shown_index,
            ),
            final(self)@ == (WindowModel {
                sink_ids: text_models(ids@),
                selected_sink_id: entry(text_models(ids@), index),
                ..old(self)@
            }),
    {
        let index = preserve_text_index(self.selected_sink_id.as_ref(), &ids, shown_index);
        self.sink_ids = ids;
        self.selected_sink_id = self.shown_sink(index);
        index
    }

    /// The route that the window shows.
    pub fn build_graph(&self, shown: ShownEntries) -> (result: Result<RouteGraph, String>)
        ensures
            match (result, self@.route(shown)) {
                (Ok(graph), Ok(wanted)) => graph@ == wanted,
                (Err(reason), Err(wanted)) => reason@ == wanted,
                _ => false,
            },
    {
        let pid = match self.shown_pid(shown.source_index) {
            Some(pid) => pid,
            None => {
                return Err("请先选择音频来源进程".to_owned());
            },
        };
        let sink_id = match self.shown_sink(shown.output_index) {
            Some(sink_id) => sink_id,
            None => {
                return Err("请先选择输出设备".to_owned());
            },
        };
        Ok(
            single_route(
                process_source_spec(pid),
                render_sink_spec("sink", sink_id.as_str()),
                self.gain_db,
                self.muted,
            ),
        )
    }

    /// Starts an engine for the route that the window shows, and says what the window
    /// tells of it.
    pub fn start_engine<F: Fn(Decibels) -> String>(
        &mut self,
        shown: ShownEntries,
        show_gain: &F,
    ) -> (told: String)
        requires
            is_unary::<Decibels, String, F>(*show_gain),
        ensures
            match old(self)@.route(shown) {
                Err(reason) => told@ == reason && final(self)@ == old(self)@,
                Ok(graph) => match service_fault(graph) {
                    Some(fault) => {
                        &&& told@ == service_fault_text(fault, shown_gain(*show_gain))
                        &&& final(self)@ == (WindowModel { running: false, ..old(self)@ })
                    },
                    None => {
                        &&& told@ == "Running"@
                        &&& runs(final(self)@.service, graph)
                        &&& final(self)@ == (WindowModel {
                            running: true,
                            service: final(self)@.service,
                            ..old(self)@
                        })
                    },
                },
            },
    {
        let graph = match self.build_graph(shown) {
            Ok(graph) => graph,
            Err(reason) => {
                return reason;
            },
        };
        match EngineService::new(graph) {
            Ok(service) => {
                let mut service = service;
                match service.start() {
                    Ok(_) => {
                        self.service = Some(service);
                        self.running = true;
                        "Running".to_owned()
                    },
                    Err(error) => {
                        self.running = false;
                        error.message(show_gain)
                    },
                }
            },
            Err(error) => {
                self.running = false;
                error.message(show_gain)
            },
        }
    }

    /// Takes a report of the engine's threads, where there is an engine.
    pub fn take_report(&mut self, report: EngineReport)
        ensures
            final(self)@ == (WindowModel {
                service: match old(self)@.service {
                    Some(service) => Some(
                        ServiceModel { engine: service.engine.reported(report), ..service },
                    ),
                    None => None,
                },
                ..old(self)@
            }),
    {
        if let Some(service) = self.service.take() {
            let mut service = service;
            service.take_report(report);
            self.service = Some(service);
        }
    }

    /// Stops the engine.
    pub fn stop_engine(&mut self)
        ensures
            final(self)@ == (WindowModel { service: None, running: false, ..old(self)@ }),
    {
        if let Some(service) = self.service.take() {
            let mut service = service;
            let _ = service.stop();
        }
        self.running = false;
    }

    /// Takes another gain or mute, which an engine follows at once. Says what the window
    /// tells, where the engine does not.
    pub fn apply_send_change<F: Fn(Decibels) -> String>(
        &mut self,
        shown: ShownEntries,
        gain_db: Option<Decibels>,
        muted: Option<bool>,
        show_gain: &F,
    ) -> (told: Option<String>)
        requires
            is_unary::<Decibels, String, F>(*show_gain),
        ensures
            ({
                let noted = WindowModel {
                    gain_db: match gain_db {
                        Some(gain) => gain,
                        None => old(self)@.gain_db,
                    },
                    muted: match muted {
                        Some(mute) => mute,
                        None => old(self)@.muted,
                    },
                    ..old(self)@
                };
                match (noted.route(shown), noted.service) {
                    (Ok(graph), Some(service)) => match update_refusal(service, graph) {
                        Some(fault) => {
                            &&& (told matches Some(told) && told@ == service_fault_text(
                                fault,
                                shown_gain(*show_gain),
                            ))
                            &&& final(self)@ == noted
                        },
                        None => {
                            &&& told is None
                            &&& final(self)@ == (WindowModel {
                                service: Some(service.with_graph(graph)),
                                ..noted
                            })
                        },
                    },
                    _ => told is None && final(self)@ == noted,
                }
            }),
    {
        if let Some(gain) = gain_db {
            self.gain_db = gain;
        }
        if let Some(mute) = muted {
            self.muted = mute;
        }
        let graph = match self.build_graph(shown) {
            Ok(graph) => graph,
            Err(_) => {
                return None;
            },
        };
        if let Some(service) = self.service.take() {
            let mut service = service;
            let result = service.update_graph(graph);
            self.service = Some(service);
            if let Err(error) = result {
                return Some(error.message(show_gain));
            }
        }
        None
    }

    /// Follows another selection: an engine that runs is stopped, and one for the new
    /// route is started. Says what the window tells of it.
    pub fn apply_route_selection<F: Fn(Decibels) -> String>(
        &mut self,
        shown: ShownEntries,
        show_gain: &F,
    ) -> (told: Option<String>)
        requires
            is_unary::<Decibels, String, F>(*show_gain),
        ensures
            if !old(self)@.running {
                told is None && final(self)@ == old(self)@
            } else if old(self)@.service is None {
                told is None && final(self)@ == (WindowModel { running: false, ..old(self)@ })
            } else {
                let stopped = WindowModel { running: false, service: None, ..old(self)@ };
                match stopped.route(shown) {
                    Err(reason) => (told matches Some(told) && told@ == reason) && final(self)@
                        == stopped,
                    Ok(graph) => match service_fault(graph) {
                        Some(fault) => {
                            &&& (told matches Some(told) && told@ == service_fault_text(
                                fault,
                                shown_gain(*show_gain),
                            ))
                            &&& final(self)@ == stopped
                        },
                        None => {
                            &&& (told matches Some(told) && told@ == "Running"@)
                            &&& runs(final(self)@.service, graph)
                            &&& final(self)@ == (WindowModel {
                                running: true,
                                service: final(self)@.service,
                                ..stopped
                            })
                        },
                    },
                }
            },
    {
        if !self.running {
            return None;
        }
        match self.service.take() {
            Some(service) => {
                let mut service = service;
                let _ = service.stop();
                self.running = false;
            },
            None => {
                self.running = false;
                return None;
            },
        }
        Some(self.start_engine(shown, show_gain))
    }

    /// Looks at the engine, and says its state where there is one.
    pub fn poll_status(&mut self) -> (state: Option<AudioEngineState>)
        ensures
            match old(self)@.service {
                Some(service) => {
                    &&& state == Some(service.engine.state)
                    &&& final(self)@ == (WindowModel {
                        running: service.engine.state == AudioEngineState::Running,
                        ..old(self)@
                    })
                },
                None => state is None && final(self)@ == old(self)@,
            },
    {
        let status = match &self.service {
            Some(service) => service.status(),
            None => {
                return None;
            },
        };
        self.running = status.running;
        Some(status.state)
    }
}

/// Why an engine does not take another graph while it runs, if it does not.
pub open spec fn update_refusal(service: ServiceModel, graph: GraphModel) -> Option<ServiceFault> {
    match graph.fault() {
        Some(fault) => Some(ServiceFault::Graph(fault)),
        None => match service.engine.update_fault(graph) {
            Some(fault) => Some(ServiceFault::Engine(fault)),
            None => None,
        },
    }
}

/// How a process is listed.
pub open spec fn process_label(name: Seq<char>, pid: u32) -> Seq<char> {
    name + " (PID "@ + decimal_text(pid as nat) + ")"@
}

/// How a process is listed.
pub fn label_process(name: &str, pid: u32) -> (label: String)
    ensures
        label@ == process_label(name@, pid),
{
    let mut label = name.to_owned();
    label.append(" (PID ");
    push_decimal(&mut label, pid as u64);
    label.append(")");
    assert(label@ =~= process_label(name@, pid));
    label
}

/// Whether a device is listed as an output.
pub open spec fn is_output(device: DeviceModel) -> bool {
    device.flow == DeviceFlow::Render && device.compatibility == DeviceCompatibility::RenderReady
}

/// The outputs among some devices: identifier and name.
pub open spec fn outputs(devices: Seq<DeviceModel>) -> Seq<(Seq<char>, Seq<char>)>
    decreases devices.len(),
{
    if devices.len() == 0 {
        Seq::empty()
    } else {
        let rest = outputs(devices.drop_last());
        let last = devices.last();
        if is_output(last) {
            rest.push((last.id@, last.name@))
        } else {
            rest
        }
    }
}

/// The identifiers and names of a list.
pub open spec fn named(entries: Seq<(String, String)>) -> Seq<(Seq<char>, Seq<char>)> {
    entries.map_values(|e: (String, String)| (e.0@, e.1@))
}

/// The outputs among some devices.
pub fn list_outputs(devices: &Vec<DeviceModel>) -> (entries: Vec<(String, String)>)
    ensures
        named(entries@) == outputs(devices@),
{
    let mut entries: Vec<(String, String)> = Vec::new();
    assert(devices@.take(0) =~= Seq::empty());
    assert(named(entries@) =~= Seq::empty());
    for i in 0..devices.len()
        invariant
            named(entries@) == outputs(devices@.take(i as int)),
    {
        let ghost before = named(entries@);
        assert(devices@.take(i + 1).drop_last() =~= devices@.take(i as int));
        let ready = match devices[i].compatibility {
            DeviceCompatibility::RenderReady => true,
            _ => false,
        };
        if devices[i].flow == DeviceFlow::Render && ready {
            entries.push((devices[i].id.0.clone(), devices[i].name.clone()));
            assert(named(entries@) =~= before.push((devices@[i as int].id@, devices@[i as int].name@)));
        }
    }
    assert(devices@.take(devices@.len() as int) =~= devices@);
    entries
}

/// The line of counts. `peak` is the peak in dB, written out.
pub open spec fn counts_line(stats: AudioEngineStats, peak: Seq<char>) -> Seq<char> {
    "capture packet: "@ + decimal_text(stats.capture_packets as nat) + " | render writes: "@
        + decimal_text(stats.render_writes as nat) + " | underflow: "@ + decimal_text(
        stats.fifo_underflows as nat,
    ) + " | discontinuity: "@ + decimal_text(stats.discontinuities as nat) + " | peak: "@ + peak
        + " dBFS"@
}

/// The line of counts.
pub fn describe_counts(stats: &AudioEngineStats, peak: &str) -> (line: String)
    ensures
        line@ == counts_line(*stats, peak@),
{
    let mut line = "capture packet: ".to_owned();
    push_decimal(&mut line, stats.capture_packets);
    line.append(" | render writes: ");
    push_decimal(&mut line, stats.render_writes);
    line.append(" | underflow: ");
    push_decimal(&mut line, stats.fifo_underflows);
    line.append(" | discontinuity: ");
    push_decimal(&mut line, stats.discontinuities);
    line.append(" | peak: ");
    line.append(peak);
    line.append(" dBFS");
    assert(line@ =~= counts_line(*stats, peak@));
    line
}

} // verus!
