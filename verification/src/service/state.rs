//! What the application knows: one place for everything that others look at.

use crate::editor::{applied, edit_fault, EditModel, RouteEdit, RouteEditor};
use crate::network::addresses::shown;
use crate::network::nodes::NetworkDiscovery;
use crate::routing::{GraphModel, RouteGraph};
use crate::runtime::engine::EngineReport;
use crate::runtime::status::{bump, bumped, AudioEngineState};
use crate::service::config::{empty_graph, first_settings, AppSettings, SettingsModel};
use crate::service::engine::{CommandModel, EngineCommand, EngineService, ServiceModel};
use crate::service::error::{ServiceError, ServiceFault};
use crate::web::auth::{AuthModel, AuthState};
use vstd::prelude::*;

verus! {

/// How this machine is known in the network.
#[derive(Debug, PartialEq, Eq)]
pub struct NodeIdentityBrief {
    pub node_id: String,
    pub device_name: String,
    pub network_enabled: bool,
    pub web_port: u16,
    /// The addresses under which others reach it.
    pub addresses: Vec<String>,
}

/// What a `NodeIdentityBrief` says.
#[verifier::ext_equal]
pub struct BriefModel {
    pub node_id: Seq<char>,
    pub device_name: Seq<char>,
    pub network_enabled: bool,
    pub web_port: u16,
    pub addresses: Seq<Seq<char>>,
}

impl View for NodeIdentityBrief {
    type V = BriefModel;

    open spec fn view(&self) -> BriefModel {
        BriefModel {
            node_id: self.node_id@,
            device_name: self.device_name@,
            network_enabled: self.network_enabled,
            web_port: self.web_port,
            addresses: shown(self.addresses@),
        }
    }
}

/// The identity of a machine that has none yet.
pub open spec fn no_identity() -> BriefModel {
    BriefModel {
        node_id: Seq::empty(),
        device_name: Seq::empty(),
        network_enabled: false,
        web_port: 0,
        addresses: Seq::empty(),
    }
}

impl NodeIdentityBrief {
    /// No identity yet.
    pub fn empty() -> (identity: Self)
        ensures
            identity@ == no_identity(),
    {
        let identity = NodeIdentityBrief {
            node_id: String::new(),
            device_name: String::new(),
            network_enabled: false,
            web_port: 0,
            addresses: Vec::new(),
        };
        assert(identity@ =~= no_identity());
        identity
    }
}

/// What the application knows. `B` stands for the bridge to the network and `W` for the
/// console, which others run.
#[derive(Debug)]
#[verifier::reject_recursive_types(B)]
#[verifier::reject_recursive_types(W)]
pub struct StateHub<B, W> {
    config_path: String,
    editor: RouteEditor,
    engine: Option<EngineService>,
    settings: AppSettings,
    identity: NodeIdentityBrief,
    discovery: Option<NetworkDiscovery>,
    bridge: Option<B>,
    web: Option<W>,
    auth: AuthState,
    /// The outputs that can be listened to.
    monitor_taps: Vec<String>,
    revision: u64,
}

/// What a `StateHub` says.
#[verifier::ext_equal]
#[verifier::reject_recursive_types(B)]
#[verifier::reject_recursive_types(W)]
pub struct HubModel<B, W> {
    pub config_path: Seq<char>,
    pub editor: GraphModel,
    pub engine: Option<ServiceModel>,
    pub settings: SettingsModel,
    pub identity: BriefModel,
    pub discovery: Option<NetworkDiscovery>,
    pub bridge: Option<B>,
    pub web: Option<W>,
    pub auth: AuthModel,
    pub monitor_taps: Seq<Seq<char>>,
    pub revision: u64,
}

/// What an engine says, where there is one.
pub open spec fn engine_model(engine: Option<EngineService>) -> Option<ServiceModel> {
    match engine {
        Some(engine) => Some(engine@),
        None => None,
    }
}

impl<B, W> View for StateHub<B, W> {
    type V = HubModel<B, W>;

    closed spec fn view(&self) -> HubModel<B, W> {
        HubModel {
            config_path: self.config_path@,
            editor: self.editor@,
            engine: engine_model(self.engine),
            settings: self.settings@,
            identity: self.identity@,
            discovery: self.discovery,
            bridge: self.bridge,
            web: self.web,
            auth: self.auth@,
            monitor_taps: shown(self.monitor_taps@),
            revision: self.revision,
        }
    }
}

/// The command that lets an engine follow an edit without a new start, where there is
/// one.
pub open spec fn command_of(edit: EditModel) -> Option<CommandModel> {
    match edit {
        EditModel::SetSendGain { send_id, gain_db } => Some(
            CommandModel::SetGain { send_id, gain_db },
        ),
        EditModel::SetSendMuted { send_id, muted } => Some(
            CommandModel::SetMuted { send_id, muted },
        ),
        EditModel::SetSendEnabled { send_id, enabled } => Some(
            CommandModel::SetSendEnabled { send_id, enabled },
        ),
        _ => None,
    }
}

fn engine_command(edit: &RouteEdit) -> (command: Option<EngineCommand>)
    ensures
        match command {
            Some(command) => command_of(edit@) == Some(command@),
            None => command_of(edit@) is None,
        },
{
    match edit {
        RouteEdit::SetSendGain { send_id, gain_db } => Some(
            EngineCommand::SetGain { send_id: send_id.clone(), gain_db: *gain_db },
        ),
        RouteEdit::SetSendMuted { send_id, muted } => Some(
            EngineCommand::SetMuted { send_id: send_id.clone(), muted: *muted },
        ),
        RouteEdit::SetSendEnabled { send_id, enabled } => Some(
            EngineCommand::SetSendEnabled { send_id: send_id.clone(), enabled: *enabled },
        ),
        _ => None,
    }
}

impl<B, W> HubModel<B, W> {
    /// With the next revision.
    pub open spec fn next(self) -> HubModel<B, W> {
        HubModel { revision: bumped(self.revision, 1), ..self }
    }

    /// Whether an engine runs that an edit is handed to at once.
    pub open spec fn forwards(self, edit: EditModel) -> bool {
        command_of(edit) is Some && (self.engine matches Some(engine) && engine.engine.state
            == AudioEngineState::Running)
    }

    /// Why the engine refuses an edit, if it does.
    pub open spec fn forward_fault(self, edit: EditModel) -> Option<ServiceFault> {
        if self.forwards(edit) {
            self.engine->Some_0.command_fault(command_of(edit)->Some_0)
        } else {
            None
        }
    }

    /// After an edit was handed to the engine, which did not refuse it.
    pub open spec fn forwarded(self, edit: EditModel) -> HubModel<B, W> {
        if self.forwards(edit) {
            HubModel {
                engine: Some(self.engine->Some_0.after_command(command_of(edit)->Some_0)),
                ..self
            }.next()
        } else {
            self
        }
    }

    /// Why an edit is refused, if it is: by the graph first, by the engine next.
    pub open spec fn route_fault(self, edit: EditModel) -> Option<ServiceFault> {
        match edit_fault(self.editor, edit) {
            Some(fault) => Some(ServiceFault::Graph(fault)),
            None => self.forward_fault(edit),
        }
    }

    /// After an edit. One that is refused changes nothing.
    pub open spec fn edited(self, edit: EditModel) -> HubModel<B, W> {
        if self.route_fault(edit) is None {
            let told = self.forwarded(edit);
            HubModel { editor: applied(self.editor, edit), ..told }.next()
        } else {
            self
        }
    }
}

impl<B, W> StateHub<B, W> {
    /// What is known at first.
    pub fn new(config_path: String, auth: AuthState) -> (hub: Self)
        ensures
            hub@ == (HubModel::<B, W> {
                config_path: config_path@,
                editor: empty_graph(),
                engine: None,
                settings: first_settings(),
                identity: no_identity(),
                discovery: None,
                bridge: None,
                web: None,
                auth: auth@,
                monitor_taps: Seq::empty(),
                revision: 0,
            }),
    {
        let hub = StateHub {
            config_path,
            editor: RouteEditor::new(RouteGraph::default()),
            engine: None,
            settings: AppSettings::default(),
            identity: NodeIdentityBrief::empty(),
            discovery: None,
            bridge: None,
            web: None,
            auth,
            monitor_taps: Vec::new(),
            revision: 0,
        };
        assert(hub@.monitor_taps =~= Seq::empty());
        hub
    }

    /// The file that the configuration is kept in.
    pub fn config_path(&self) -> (path: &String)
        ensures
            path@ == self@.config_path,
    {
        &self.config_path
    }

    /// The graph that is edited.
    pub fn editor(&self) -> (editor: &RouteEditor)
        ensures
            editor@ == self@.editor,
    {
        &self.editor
    }

    /// The engine.
    pub fn engine(&self) -> (engine: &Option<EngineService>)
        ensures
            engine_model(*engine) == self@.engine,
    {
        &self.engine
    }

    /// The settings.
    pub fn settings(&self) -> (settings: &AppSettings)
        ensures
            settings@ == self@.settings,
    {
        &self.settings
    }

    /// How this machine is known.
    pub fn identity(&self) -> (identity: &NodeIdentityBrief)
        ensures
            identity@ == self@.identity,
    {
        &self.identity
    }

    /// The machines that were found.
    pub fn discovery(&self) -> (discovery: &Option<NetworkDiscovery>)
        ensures
            *discovery == self@.discovery,
    {
        &self.discovery
    }

    /// The bridge to the network.
    pub fn bridge(&self) -> (bridge: &Option<B>)
        ensures
            *bridge == self@.bridge,
    {
        &self.bridge
    }

    /// The console.
    pub fn web(&self) -> (web: &Option<W>)
        ensures
            *web == self@.web,
    {
        &self.web
    }

    /// Who may use the console.
    pub fn auth(&self) -> (auth: &AuthState)
        ensures
            auth@ == self@.auth,
    {
        &self.auth
    }

    /// The outputs that can be listened to.
    pub fn monitor_taps(&self) -> (taps: &Vec<String>)
        ensures
            shown(taps@) == self@.monitor_taps,
    {
        &self.monitor_taps
    }

    /// The revision: it grows with every change.
    pub fn revision(&self) -> (revision: u64)
        ensures
            revision == self@.revision,
    {
        self.revision
    }

    /// The revision as one who waits for changes sees it: the newest, never an older one.
    pub fn subscribe(&self) -> (revision: u64)
        ensures
            revision == self@.revision,
    {
        self.revision
    }

    /// Notes a change.
    pub fn bump(&mut self)
        ensures
            final(self)@ == old(self)@.next(),
    {
        self.revision = bump(self.revision, 1);
    }

    /// The graph as it stands.
    pub fn route_snapshot(&self) -> (graph: RouteGraph)
        ensures
            graph@ == self@.editor,
    {
        self.editor.draft().clone()
    }

    /// Applies an edit to the graph, and hands it to an engine that runs.
    pub fn apply_route_edit(&mut self, edit: RouteEdit) -> (result: Result<(), ServiceError>)
        ensures
            final(self)@ == old(self)@.edited(edit@),
            match result {
                Ok(_) => old(self)@.route_fault(edit@) is None,
                Err(error) => old(self)@.route_fault(edit@) == Some(error@),
            },
    {
        let ghost asked = edit@;
        let command = engine_command(&edit);
        let mut next = self.editor.clone();
        match next.apply(edit) {
            Ok(_) => {},
            Err(error) => {
                return Err(ServiceError::Graph(error));
            },
        }
        match self.forward_command(command, Ghost(asked)) {
            Ok(_) => {},
            Err(error) => {
                return Err(error);
            },
        }
        self.replace_editor(next);
        Ok(())
    }

    fn forward_command(
        &mut self,
        command: Option<EngineCommand>,
        Ghost(edit): Ghost<EditModel>,
    ) -> (result: Result<(), ServiceError>)
        requires
            match command {
                Some(command) => command_of(edit) == Some(command@),
                None => command_of(edit) is None,
            },
        ensures
            match result {
                Ok(_) => old(self)@.forward_fault(edit) is None && final(self)@
                    == old(self)@.forwarded(edit),
                Err(error) => old(self)@.forward_fault(edit) == Some(error@) && final(self)@
                    == old(self)@,
            },
    {
        let command = match command {
            Some(command) => command,
            None => {
                return Ok(());
            },
        };
        let mut engine = match self.engine.take() {
            Some(engine) => engine,
            None => {
                return Ok(());
            },
        };
        if engine.status().state != AudioEngineState::Running {
            self.engine = Some(engine);
            return Ok(());
        }
        match engine.command(command) {
            Ok(_) => {
                self.engine = Some(engine);
                self.bump();
                Ok(())
            },
            Err(error) => {
                self.engine = Some(engine);
                Err(error)
            },
        }
    }

    /// Hands an edit to an engine that runs, where the engine can follow it without a new
    /// start.
    pub fn forward_edit_to_engine(&mut self, edit: &RouteEdit) -> (result: Result<
        (),
        ServiceError,
    >)
        ensures
            match result {
                Ok(_) => old(self)@.forward_fault(edit@) is None && final(self)@
                    == old(self)@.forwarded(edit@),
                Err(error) => old(self)@.forward_fault(edit@) == Some(error@) && final(self)@
                    == old(self)@,
            },
    {
        let command = engine_command(edit);
        self.forward_command(command, Ghost(edit@))
    }

    /// Takes another graph to edit.
    pub fn replace_editor(&mut self, editor: RouteEditor)
        ensures
            final(self)@ == (HubModel { editor: editor@, ..old(self)@ }).next(),
    {
        self.editor = editor;
        self.bump();
    }

    /// Takes an engine in.
    pub fn insert_engine(&mut self, service: EngineService)
        ensures
            final(self)@ == (HubModel { engine: Some(service@), ..old(self)@ }).next(),
    {
        self.engine = Some(service);
        self.bump();
    }

    /// Takes a report of the engine's threads, where there is an engine. A report is no
    /// change of the hub.
    pub fn take_report(&mut self, report: EngineReport)
        ensures
            final(self)@ == (HubModel {
                engine: match old(self)@.engine {
                    Some(service) => Some(
                        ServiceModel { engine: service.engine.reported(report), ..service },
                    ),
                    None => None,
                },
                ..old(self)@
            }),
    {
        if let Some(service) = self.engine.take() {
            let mut service = service;
            service.take_report(report);
            self.engine = Some(service);
        }
    }

    /// Gives the engine out, where there is one.
    pub fn take_engine(&mut self) -> (engine: Option<EngineService>)
        ensures
            engine_model(engine) == old(self)@.engine,
            final(self)@ == if old(self)@.engine is Some {
                (HubModel { engine: None, ..old(self)@ }).next()
            } else {
                old(self)@
            },
    {
        let taken = self.engine.take();
        if taken.is_some() {
            self.bump();
        }
        taken
    }

    /// Takes settings in.
    pub fn store_settings(&mut self, settings: AppSettings)
        ensures
            final(self)@ == (HubModel { settings: settings@, ..old(self)@ }).next(),
    {
        self.settings = settings;
        self.bump();
    }

    /// Takes the identity of this machine in.
    pub fn store_identity(&mut self, identity: NodeIdentityBrief)
        ensures
            final(self)@ == (HubModel { identity: identity@, ..old(self)@ }).next(),
    {
        self.identity = identity;
        self.bump();
    }

    /// Takes the machines that were found in, or forgets them.
    pub fn set_discovery(&mut self, discovery: Option<NetworkDiscovery>)
        ensures
            final(self)@ == (HubModel { discovery, ..old(self)@ }).next(),
    {
        self.discovery = discovery;
        self.bump();
    }

    /// Takes a bridge in, or lets it go.
    pub fn set_bridge(&mut self, bridge: Option<B>)
        ensures
            final(self)@ == (HubModel { bridge, ..old(self)@ }).next(),
    {
        self.bridge = bridge;
        self.bump();
    }

    /// Gives the bridge out, where there is one.
    pub fn take_bridge_recovering(&mut self) -> (bridge: Option<B>)
        ensures
            bridge == old(self)@.bridge,
            final(self)@ == if old(self)@.bridge is Some {
                (HubModel { bridge: None, ..old(self)@ }).next()
            } else {
                old(self)@
            },
    {
        let taken = self.bridge.take();
        if taken.is_some() {
            self.bump();
        }
        taken
    }

    /// Takes a console in, or lets it go.
    pub fn set_web(&mut self, web: Option<W>)
        ensures
            final(self)@ == (HubModel { web, ..old(self)@ }).next(),
    {
        self.web = web;
        self.bump();
    }

    /// Says which outputs can be listened to.
    pub fn set_monitor_taps(&mut self, taps: Vec<String>)
        ensures
            final(self)@ == (HubModel { monitor_taps: shown(taps@), ..old(self)@ }).next(),
    {
        self.monitor_taps = taps;
        self.bump();
    }

    /// Who may use the console, to be changed. The revision stays.
    pub fn auth_mut(&mut self) -> (auth: &mut AuthState)
        ensures
            auth@ == old(self)@.auth,
            final(self)@ == (HubModel { auth: final(auth)@, ..old(self)@ }),
    {
        &mut self.auth
    }
}

/// Every edit that changes something has its own revision, while revisions last: who has
/// seen an older one knows that the graph may have changed. An edit that is refused has
/// none.
pub proof fn law_revision_grows<B, W>(hub: HubModel<B, W>, edit: EditModel)
    requires
        hub.revision < u64::MAX - 1,
    ensures
        hub.route_fault(edit) is None ==> hub.edited(edit).revision > hub.revision,
        hub.route_fault(edit) is Some ==> hub.edited(edit) == hub,
        hub.next().revision > hub.revision,
{
}

} // verus!
