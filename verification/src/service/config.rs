//! What is kept between two runs of the application.

pub mod laws;

use crate::arithmetic::is_unary;
use crate::decibels::{gain_allowed, Decibels};
use crate::routing::{
    graph_fault_text, optional_text, shown_gain, sink_models, source_models, BusId, BusModel,
    BusSpec, EndpointId, GraphFault, GraphModel, RouteGraph, RouteGraphError, SendEnds, SendId,
    SendModel, SendSpec, SinkId, SinkModel, SinkSpec, SourceId, SourceModel, SourceSpec,
};
use crate::service::engine::{endpoint_texts, endpoints_of, graph_endpoints};
use crate::text::{
    decimal_text, in_order, joined, lemma_digits_value, lemma_order_is_transitive, order_texts,
    push_decimal, text_before, TextOrder,
};
use vstd::prelude::*;
use vstd::string::StringExecFns;

verus! {

/// The version of the configuration that is written.
pub const CURRENT_SCHEMA_VERSION: u32 = 2;

/// Choices of the user.
#[derive(Debug, PartialEq, Eq)]
pub struct UiState {
    /// The endpoints of the graph that were not there.
    pub missing_endpoints: Vec<EndpointId>,
    pub theme: String,
    pub start_on_boot: bool,
    pub launch_hidden: bool,
}

/// What a `UiState` says.
#[verifier::ext_equal]
pub struct UiModel {
    pub missing_endpoints: Seq<Seq<char>>,
    pub theme: Seq<char>,
    pub start_on_boot: bool,
    pub launch_hidden: bool,
}

impl View for UiState {
    type V = UiModel;

    open spec fn view(&self) -> UiModel {
        UiModel {
            missing_endpoints: endpoint_texts(self.missing_endpoints@),
            theme: self.theme@,
            start_on_boot: self.start_on_boot,
            launch_hidden: self.launch_hidden,
        }
    }
}

/// No choices.
pub open spec fn no_choices() -> UiModel {
    UiModel {
        missing_endpoints: Seq::empty(),
        theme: Seq::empty(),
        start_on_boot: false,
        launch_hidden: false,
    }
}

impl Default for UiState {
    fn default() -> (state: Self)
        ensures
            state@ == no_choices(),
    {
        let state = UiState {
            missing_endpoints: Vec::new(),
            theme: String::new(),
            start_on_boot: false,
            launch_hidden: false,
        };
        assert(state@ =~= no_choices());
        state
    }
}

/// The theme that a name stands for: light unless it is dark.
pub open spec fn theme_of(name: Seq<char>) -> Seq<char> {
    if name == "dark"@ {
        "dark"@
    } else {
        "light"@
    }
}

impl UiState {
    /// The theme: light unless it is dark.
    pub fn theme(&self) -> (theme: &'static str)
        ensures
            theme@ == theme_of(self@.theme),
    {
        if self.theme == "dark".to_owned() {
            "dark"
        } else {
            "light"
        }
    }
}

/// How the application is seen in the network.
#[derive(Debug, PartialEq, Eq)]
pub struct NetworkConfig {
    pub node_id: Option<String>,
    pub device_name: Option<String>,
    pub network_enabled: bool,
    /// The port of the console; 0 where it is off.
    pub web_port: u16,
}

/// What a `NetworkConfig` says.
#[verifier::ext_equal]
pub struct NetworkModel {
    pub node_id: Option<Seq<char>>,
    pub device_name: Option<Seq<char>>,
    pub network_enabled: bool,
    pub web_port: u16,
}

impl View for NetworkConfig {
    type V = NetworkModel;

    open spec fn view(&self) -> NetworkModel {
        NetworkModel {
            node_id: optional_text(self.node_id),
            device_name: optional_text(self.device_name),
            network_enabled: self.network_enabled,
            web_port: self.web_port,
        }
    }
}

/// Not seen at all.
pub open spec fn no_network() -> NetworkModel {
    NetworkModel { node_id: None, device_name: None, network_enabled: false, web_port: 0 }
}

impl Default for NetworkConfig {
    fn default() -> (config: Self)
        ensures
            config@ == no_network(),
    {
        NetworkConfig { node_id: None, device_name: None, network_enabled: false, web_port: 0 }
    }
}

/// What is kept between two runs.
#[derive(Debug, PartialEq, Eq)]
pub struct AppConfig {
    pub schema_version: u32,
    pub graph: RouteGraph,
    pub ui_state: UiState,
    pub network: NetworkConfig,
}

/// What an `AppConfig` says.
#[verifier::ext_equal]
pub struct ConfigModel {
    pub schema_version: u32,
    pub graph: GraphModel,
    pub ui_state: UiModel,
    pub network: NetworkModel,
}

impl View for AppConfig {
    type V = ConfigModel;

    open spec fn view(&self) -> ConfigModel {
        ConfigModel {
            schema_version: self.schema_version,
            graph: self.graph@,
            ui_state: self.ui_state@,
            network: self.network@,
        }
    }
}

/// Why a configuration cannot be loaded.
#[derive(Debug, PartialEq, Eq)]
pub enum ConfigError {
    /// There is no such file.
    NotFound(String),
    /// The file cannot be read or written.
    Io(String),
    /// The file is no JSON, or not of this form.
    Json(String),
    UnsupportedSchemaVersion(u64),
    Graph(RouteGraphError),
}

/// What a `ConfigError` says.
#[verifier::ext_equal]
pub enum ConfigFault {
    NotFound(Seq<char>),
    Io(Seq<char>),
    Json(Seq<char>),
    UnsupportedSchemaVersion(u64),
    Graph(GraphFault),
}

impl View for ConfigError {
    type V = ConfigFault;

    open spec fn view(&self) -> ConfigFault {
        match *self {
            ConfigError::NotFound(path) => ConfigFault::NotFound(path@),
            ConfigError::Io(reason) => ConfigFault::Io(reason@),
            ConfigError::Json(reason) => ConfigFault::Json(reason@),
            ConfigError::UnsupportedSchemaVersion(version) =>
                ConfigFault::UnsupportedSchemaVersion(version),
            ConfigError::Graph(e) => ConfigFault::Graph(e@),
        }
    }
}

/// The message of a fault. `shown` writes a gain as a number.
pub open spec fn config_fault_text(fault: ConfigFault, shown: spec_fn(Decibels) -> Seq<char>) -> Seq<
    char,
> {
    match fault {
        ConfigFault::NotFound(path) => "配置文件不存在: "@ + path,
        ConfigFault::Io(reason) => "配置文件不可读: "@ + reason,
        ConfigFault::Json(reason) => "配置文件 JSON 解析失败: "@ + reason,
        ConfigFault::UnsupportedSchemaVersion(version) => "配置文件 schema 版本不支持: "@
            + decimal_text(version as nat) + "（当前支持版本 "@ + decimal_text(
            CURRENT_SCHEMA_VERSION as nat,
        ) + "）"@,
        ConfigFault::Graph(fault) => "路由图校验失败: "@ + graph_fault_text(fault, shown),
    }
}

impl ConfigError {
    /// The message of the error. `show_gain` writes a gain as a number.
    pub fn message<F: Fn(Decibels) -> String>(&self, show_gain: &F) -> (text: String)
        requires
            is_unary::<Decibels, String, F>(*show_gain),
        ensures
            text@ == config_fault_text(self@, shown_gain(*show_gain)),
    {
        match self {
            ConfigError::NotFound(path) => joined("配置文件不存在: ", path.as_str()),
            ConfigError::Io(reason) => joined("配置文件不可读: ", reason.as_str()),
            ConfigError::Json(reason) => joined("配置文件 JSON 解析失败: ", reason.as_str()),
            ConfigError::UnsupportedSchemaVersion(version) => {
                let mut text = "配置文件 schema 版本不支持: ".to_owned();
                push_decimal(&mut text, *version);
                text.append("（当前支持版本 ");
                push_decimal(&mut text, CURRENT_SCHEMA_VERSION as u64);
                text.append("）");
                text
            },
            ConfigError::Graph(e) => joined("路由图校验失败: ", e.message(show_gain).as_str()),
        }
    }

    /// The error of a file that cannot be read.
    pub fn unreadable(path: String, not_found: bool, reason: String) -> (error: Self)
        ensures
            error@ == if not_found {
                ConfigFault::NotFound(path@)
            } else {
                ConfigFault::Io(reason@)
            },
    {
        if not_found {
            ConfigError::NotFound(path)
        } else {
            ConfigError::Io(reason)
        }
    }
}

/// The number under a key of a JSON object: absent where the bytes are no JSON; `None`
/// inside where there is no such key or its value is no whole number.
pub uninterp spec fn json_number(bytes: Seq<u8>, key: Seq<char>) -> Option<Option<u64>>;

/// Calls `serde_json::from_slice` for a `serde_json::Value` and takes the number under a
/// key from it. Nothing is said of the text of the error.
#[verifier::external_body]
fn read_json_number(bytes: &[u8], key: &str) -> (number: Result<Option<u64>, String>)
    ensures
        match number {
            Ok(number) => json_number(bytes@, key@) == Some(number),
            Err(_) => json_number(bytes@, key@) is None,
        },
{
    serde_json::from_slice::<serde_json::Value>(bytes)
        .map(|value| value.get(key).and_then(serde_json::Value::as_u64))
        .map_err(|error| error.to_string())
}

/// The form of a configuration that was written.
#[derive(Clone, Copy, Debug, PartialEq, Eq, Structural)]
pub enum ConfigSchema {
    Current,
    V1,
}

/// The form that a version stands for, or why there is none.
pub open spec fn schema_for_version(version: Option<u64>) -> Result<ConfigSchema, ConfigFault> {
    match version {
        None => Err(ConfigFault::Json("配置缺少有效的 schema_version"@)),
        Some(number) => {
            if number == CURRENT_SCHEMA_VERSION {
                Ok(ConfigSchema::Current)
            } else if number == 1 {
                Ok(ConfigSchema::V1)
            } else {
                Err(ConfigFault::UnsupportedSchemaVersion(number))
            }
        },
    }
}

/// The form that a version stands for.
pub fn schema_of_version(version: Option<u64>) -> (result: Result<ConfigSchema, ConfigError>)
    ensures
        match result {
            Ok(schema) => schema_for_version(version) == Ok::<ConfigSchema, ConfigFault>(schema),
            Err(e) => schema_for_version(version) == Err::<ConfigSchema, ConfigFault>(e@),
        },
{
    match version {
        None => Err(ConfigError::Json("配置缺少有效的 schema_version".to_owned())),
        Some(number) => {
            if number == CURRENT_SCHEMA_VERSION as u64 {
                Ok(ConfigSchema::Current)
            } else if number == 1 {
                Ok(ConfigSchema::V1)
            } else {
                Err(ConfigError::UnsupportedSchemaVersion(number))
            }
        },
    }
}

/// The form that the bytes of a configuration have.
pub fn schema_of(bytes: &[u8]) -> (result: Result<ConfigSchema, ConfigError>)
    ensures
        match json_number(bytes@, "schema_version"@) {
            None => result matches Err(ConfigError::Json(_)),
            Some(version) => match result {
                Ok(schema) => schema_for_version(version) == Ok::<ConfigSchema, ConfigFault>(
                    schema,
                ),
                Err(e) => schema_for_version(version) == Err::<ConfigSchema, ConfigFault>(e@),
            },
        },
{
    match read_json_number(bytes, "schema_version") {
        Ok(version) => schema_of_version(version),
        Err(reason) => Err(ConfigError::Json(reason)),
    }
}

fn insert_endpoint(endpoints: &mut Vec<EndpointId>, endpoint: &EndpointId)
    requires
        in_order(endpoint_texts(old(endpoints)@)),
    ensures
        in_order(endpoint_texts(final(endpoints)@)),
        forall|e: Seq<char>|
            endpoint_texts(final(endpoints)@).contains(e) <==> endpoint_texts(
                old(endpoints)@,
            ).contains(e) || e == endpoint@,
{
    let ghost before = endpoint_texts(endpoints@);
    let mut at: usize = 0;
    while at < endpoints.len()
        invariant
            at <= endpoints@.len(),
            endpoint_texts(endpoints@) == before,
            before == endpoint_texts(old(endpoints)@),
            in_order(before),
            forall|i: int| 0 <= i < at ==> text_before(#[trigger] before[i], endpoint@),
        ensures
            at <= endpoints@.len(),
            endpoint_texts(endpoints@) == before,
            forall|i: int| 0 <= i < at ==> text_before(#[trigger] before[i], endpoint@),
            at < endpoints@.len() ==> text_before(endpoint@, before[at as int]),
        decreases endpoints@.len() - at,
    {
        assert(before[at as int] == endpoints@[at as int]@);
        match order_texts(&endpoints[at].0, &endpoint.0) {
            TextOrder::Same => {
                assert(before.contains(endpoint@));
                return;
            },
            TextOrder::Before => {
                at = at + 1;
            },
            TextOrder::Behind => {
                break;
            },
        }
    }
    endpoints.insert(at, endpoint.clone());
    proof {
        let after = endpoint_texts(endpoints@);
        assert(after =~= before.insert(at as int, endpoint@));
        assert forall|i: int, j: int| 0 <= i < j < after.len() implies text_before(
            #[trigger] after[i],
            #[trigger] after[j],
        ) by {
            if i < at && j == at {
            } else if i == at && j > at {
                assert(after[j] == before[j - 1]);
                if j - 1 > at {
                    assert(text_before(before[at as int], before[j - 1]));
                    lemma_order_is_transitive(endpoint@, before[at as int], before[j - 1]);
                }
            } else {
                let a = if i < at {
                    i
                } else {
                    i - 1
                };
                let b = if j < at {
                    j
                } else {
                    j - 1
                };
                assert(after[i] == before[a]);
                assert(after[j] == before[b]);
            }
        }
        assert forall|e: Seq<char>| after.contains(e) <==> before.contains(e) || e == endpoint@ by {
            if after.contains(e) {
                let k = choose|k: int| 0 <= k < after.len() && after[k] == e;
                if k < at {
                    assert(before[k] == e);
                } else if k > at {
                    assert(before[k - 1] == e);
                }
            }
            if before.contains(e) {
                let k = choose|k: int| 0 <= k < before.len() && before[k] == e;
                if k < at {
                    assert(after[k] == e);
                } else {
                    assert(after[k + 1] == e);
                }
            }
            if e == endpoint@ {
                assert(after[at as int] == e);
            }
        }
    }
}

fn has_endpoint(endpoints: &[EndpointId], endpoint: &EndpointId) -> (found: bool)
    ensures
        found == endpoint_texts(endpoints@).contains(endpoint@),
{
    for i in 0..endpoints.len()
        invariant
            forall|j: int| 0 <= j < i ==> (#[trigger] endpoints@[j])@ != endpoint@,
    {
        if endpoints[i].0 == endpoint.0 {
            assert(endpoint_texts(endpoints@)[i as int] == endpoint@);
            return true;
        }
    }
    assert forall|j: int| 0 <= j < endpoint_texts(endpoints@).len() implies endpoint_texts(
        endpoints@,
    )[j] != endpoint@ by {
        assert(endpoints@[j]@ != endpoint@);
    }
    false
}

/// The endpoints of a graph that are not among those that are there: in order, each once.
pub open spec fn are_missing(
    missing: Seq<Seq<char>>,
    graph: GraphModel,
    available: Seq<Seq<char>>,
) -> bool {
    &&& in_order(missing)
    &&& forall|e: Seq<char>| #[trigger]
        missing.contains(e) <==> endpoints_of(graph).contains(e) && !available.contains(e)
}

/// The configuration before buses were there: sends go from sources to sinks.
#[derive(Debug, PartialEq, Eq)]
pub struct V1Config {
    pub graph: V1Graph,
    pub ui_state: UiState,
    pub network: NetworkConfig,
}

/// The graph before buses were there.
#[derive(Debug, PartialEq, Eq)]
pub struct V1Graph {
    pub sources: Vec<SourceSpec>,
    pub sinks: Vec<SinkSpec>,
    pub sends: Vec<V1SendSpec>,
}

/// A send from a source to a sink.
#[derive(Debug, PartialEq, Eq)]
pub struct V1SendSpec {
    pub source_id: SourceId,
    pub sink_id: SinkId,
    pub gain_db: Decibels,
    pub muted: bool,
    pub enabled: bool,
    pub channel_map: Vec<(u16, u16)>,
}

/// What a `V1SendSpec` says.
#[verifier::ext_equal]
pub struct V1SendModel {
    pub source_id: Seq<char>,
    pub sink_id: Seq<char>,
    pub gain_db: Decibels,
    pub muted: bool,
    pub enabled: bool,
    pub channel_map: Seq<(u16, u16)>,
}

impl View for V1SendSpec {
    type V = V1SendModel;

    open spec fn view(&self) -> V1SendModel {
        V1SendModel {
            source_id: self.source_id@,
            sink_id: self.sink_id@,
            gain_db: self.gain_db,
            muted: self.muted,
            enabled: self.enabled,
            channel_map: self.channel_map@,
        }
    }
}

/// What a `V1Graph` says.
#[verifier::ext_equal]
pub struct V1GraphModel {
    pub sources: Seq<SourceModel>,
    pub sinks: Seq<SinkModel>,
    pub sends: Seq<V1SendModel>,
}

impl View for V1Graph {
    type V = V1GraphModel;

    open spec fn view(&self) -> V1GraphModel {
        V1GraphModel {
            sources: source_models(self.sources@),
            sinks: sink_models(self.sinks@),
            sends: self.sends@.map_values(|s: V1SendSpec| s@),
        }
    }
}

/// The bus that stands before a sink after the move.
pub open spec fn migrated_bus_id(sink_id: Seq<char>) -> Seq<char> {
    "migrated-bus:"@ + sink_id
}

/// The bus that stands before a sink after the move.
pub open spec fn migrated_bus(sink: SinkModel) -> BusModel {
    BusModel { id: migrated_bus_id(sink.id), display_name: "Mix - "@ + sink.display_name }
}

/// The gain that changes nothing.
pub open spec fn unity_gain() -> Decibels {
    Decibels { bits: 0 }
}

/// The send from a new bus to its sink, which changes nothing.
pub open spec fn migrated_sink_send(sink: SinkModel) -> SendModel {
    SendModel {
        id: "migrated-bus-to-sink:"@ + sink.id,
        ends: SendEnds::BusToSink { bus_id: migrated_bus_id(sink.id), sink_id: sink.id },
        gain_db: unity_gain(),
        muted: false,
        enabled: true,
        channel_map: Seq::empty(),
    }
}

/// The send from a source to the bus of the sink, with the settings of the send to the
/// sink.
pub open spec fn migrated_source_send(send: V1SendModel, index: nat) -> SendModel {
    SendModel {
        id: "migrated-source-to-bus:"@ + send.source_id + ":"@ + send.sink_id + ":"@
            + decimal_text(index),
        ends: SendEnds::SourceToBus {
            source_id: send.source_id,
            bus_id: migrated_bus_id(send.sink_id),
        },
        gain_db: send.gain_db,
        muted: send.muted,
        enabled: send.enabled,
        channel_map: send.channel_map,
    }
}

/// A graph with a bus before every sink.
pub open spec fn migrated_graph(graph: V1GraphModel) -> GraphModel {
    GraphModel {
        sources: graph.sources,
        buses: graph.sinks.map_values(|s: SinkModel| migrated_bus(s)),
        sinks: graph.sinks,
        sends: graph.sinks.map_values(|s: SinkModel| migrated_sink_send(s)) + Seq::new(
            graph.sends.len(),
            |i: int| migrated_source_send(graph.sends[i], i as nat),
        ),
    }
}

fn bus_id_for(sink_id: &SinkId) -> (id: BusId)
    ensures
        id@ == migrated_bus_id(sink_id@),
{
    BusId(joined("migrated-bus:", sink_id.0.as_str()))
}

fn source_send_id(send: &V1SendSpec, index: usize) -> (id: SendId)
    ensures
        id@ == migrated_source_send(send@, index as nat).id,
{
    let mut text = "migrated-source-to-bus:".to_owned();
    text.append(send.source_id.0.as_str());
    text.append(":");
    text.append(send.sink_id.0.as_str());
    text.append(":");
    push_decimal(&mut text, index as u64);
    SendId(text)
}

/// Puts a bus before every sink. Nothing of the sends is lost.
pub fn migrate_v1(config: V1Config) -> (migrated: AppConfig)
    ensures
        migrated@ == (ConfigModel {
            schema_version: CURRENT_SCHEMA_VERSION,
            graph: migrated_graph(config.graph@),
            ui_state: config.ui_state@,
            network: config.network@,
        }),
{
    let V1Config { graph, ui_state, network } = config;
    let ghost model = graph@;
    let mut buses: Vec<BusSpec> = Vec::new();
    let mut sends: Vec<SendSpec> = Vec::new();
    for i in 0..graph.sinks.len()
        invariant
            graph@ == model,
            buses@.len() == i,
            sends@.len() == i,
            forall|j: int| 0 <= j < i ==> (#[trigger] buses@[j])@ == migrated_bus(model.sinks[j]),
            forall|j: int|
                0 <= j < i ==> (#[trigger] sends@[j])@ == migrated_sink_send(model.sinks[j]),
    {
        let sink = &graph.sinks[i];
        assert(model.sinks[i as int] == sink@);
        let bus = BusSpec {
            id: bus_id_for(&sink.id),
            display_name: joined("Mix - ", sink.display_name.as_str()),
        };
        assert(bus@ =~= migrated_bus(sink@));
        buses.push(bus);
        let send = SendSpec::BusToSink {
            id: SendId(joined("migrated-bus-to-sink:", sink.id.0.as_str())),
            bus_id: bus_id_for(&sink.id),
            sink_id: sink.id.clone(),
            gain_db: Decibels { bits: 0 },
            muted: false,
            enabled: true,
            channel_map: Vec::new(),
        };
        assert(send@ =~= migrated_sink_send(sink@));
        sends.push(send);
    }
    let count = graph.sinks.len();
    for i in 0..graph.sends.len()
        invariant
            graph@ == model,
            count == model.sinks.len(),
            sends@.len() == count + i,
            forall|j: int|
                0 <= j < count ==> (#[trigger] sends@[j])@ == migrated_sink_send(model.sinks[j]),
            forall|j: int|
                count <= j < count + i ==> (#[trigger] sends@[j])@ == migrated_source_send(
                    model.sends[j - count],
                    (j - count) as nat,
                ),
    {
        let old_send = &graph.sends[i];
        assert(model.sends[i as int] == old_send@);
        let send = SendSpec::SourceToBus {
            id: source_send_id(old_send, i),
            source_id: old_send.source_id.clone(),
            bus_id: bus_id_for(&old_send.sink_id),
            gain_db: old_send.gain_db,
            muted: old_send.muted,
            enabled: old_send.enabled,
            channel_map: crate::routing::copy_channel_map(old_send.channel_map.as_slice()),
        };
        assert(send@ =~= migrated_source_send(old_send@, i as nat));
        sends.push(send);
    }
    let routes = RouteGraph { sources: graph.sources, buses, sinks: graph.sinks, sends };
    assert(routes@ =~= migrated_graph(model));
    AppConfig { schema_version: CURRENT_SCHEMA_VERSION, graph: routes, ui_state, network }
}

impl AppConfig {
    /// The configuration of a graph.
    pub fn new(graph: RouteGraph) -> (config: Self)
        ensures
            config@ == (ConfigModel {
                schema_version: CURRENT_SCHEMA_VERSION,
                graph: graph@,
                ui_state: no_choices(),
                network: no_network(),
            }),
    {
        AppConfig {
            schema_version: CURRENT_SCHEMA_VERSION,
            graph,
            ui_state: UiState::default(),
            network: NetworkConfig::default(),
        }
    }

    /// Takes a configuration that was read, if its graph is valid.
    pub fn accept(self) -> (result: Result<Self, ConfigError>)
        ensures
            match result {
                Ok(config) => config == self && self@.graph.fault() is None,
                Err(e) => self@.graph.fault() matches Some(fault) && e@ == ConfigFault::Graph(
                    fault,
                ),
            },
    {
        match self.graph.validate() {
            Ok(_) => Ok(self),
            Err(e) => Err(ConfigError::Graph(e)),
        }
    }

    /// Notes the endpoints of the graph that are not there. The graph stays as it is.
    pub fn mark_missing_endpoints(&mut self, available: &[EndpointId])
        ensures
            are_missing(
                final(self)@.ui_state.missing_endpoints,
                old(self)@.graph,
                endpoint_texts(available@),
            ),
            final(self)@ == (ConfigModel {
                ui_state: UiModel {
                    missing_endpoints: final(self)@.ui_state.missing_endpoints,
                    ..old(self)@.ui_state
                },
                ..old(self)@
            }),
    {
        let endpoints = graph_endpoints(&self.graph);
        let ghost all = endpoint_texts(endpoints@);
        let ghost there = endpoint_texts(available@);
        let mut missing: Vec<EndpointId> = Vec::new();
        assert(endpoint_texts(missing@) =~= Seq::<Seq<char>>::empty());
        for i in 0..endpoints.len()
            invariant
                all == endpoint_texts(endpoints@),
                there == endpoint_texts(available@),
                in_order(endpoint_texts(missing@)),
                forall|e: Seq<char>| #[trigger]
                    endpoint_texts(missing@).contains(e) <==> all.take(i as int).contains(e)
                        && !there.contains(e),
        {
            let endpoint = &endpoints[i];
            assert(all[i as int] == endpoint@);
            let ghost before = endpoint_texts(missing@);
            if !has_endpoint(available, endpoint) {
                insert_endpoint(&mut missing, endpoint);
            }
            assert forall|e: Seq<char>| #[trigger]
                endpoint_texts(missing@).contains(e) <==> all.take(i + 1).contains(e)
                    && !there.contains(e) by {
                assert(all.take(i + 1) =~= all.take(i as int).push(all[i as int]));
                assert(all.take(i + 1).contains(e) <==> all.take(i as int).contains(e) || e
                    == all[i as int]) by {
                    let longer = all.take(i + 1);
                    let shorter = all.take(i as int);
                    if longer.contains(e) {
                        let k = choose|k: int| 0 <= k < longer.len() && longer[k] == e;
                        if k < i {
                            assert(shorter[k] == e);
                        }
                    }
                    if shorter.contains(e) {
                        let k = choose|k: int| 0 <= k < shorter.len() && shorter[k] == e;
                        assert(longer[k] == e);
                    }
                    assert(longer[i as int] == all[i as int]);
                }
                assert(before.contains(e) <==> all.take(i as int).contains(e) && !there.contains(
                    e,
                ));
            }
        }
        assert(all.take(all.len() as int) =~= all);
        self.ui_state.missing_endpoints = missing;
    }
}

/// The settings that the user sees.
#[derive(Debug, PartialEq, Eq)]
pub struct AppSettings {
    pub theme: String,
    pub start_on_boot: bool,
    pub launch_hidden: bool,
}

/// What an `AppSettings` says.
#[verifier::ext_equal]
pub struct SettingsModel {
    pub theme: Seq<char>,
    pub start_on_boot: bool,
    pub launch_hidden: bool,
}

impl View for AppSettings {
    type V = SettingsModel;

    open spec fn view(&self) -> SettingsModel {
        SettingsModel {
            theme: self.theme@,
            start_on_boot: self.start_on_boot,
            launch_hidden: self.launch_hidden,
        }
    }
}

/// The settings of a new user.
pub open spec fn first_settings() -> SettingsModel {
    SettingsModel { theme: "light"@, start_on_boot: false, launch_hidden: false }
}

/// The settings that choices come to.
pub open spec fn settings_of(ui: UiModel) -> SettingsModel {
    SettingsModel {
        theme: theme_of(ui.theme),
        start_on_boot: ui.start_on_boot,
        launch_hidden: ui.launch_hidden,
    }
}

impl Default for AppSettings {
    fn default() -> (settings: Self)
        ensures
            settings@ == first_settings(),
    {
        AppSettings { theme: "light".to_owned(), start_on_boot: false, launch_hidden: false }
    }
}

impl Clone for AppSettings {
    fn clone(&self) -> (copy: Self)
        ensures
            copy@ == self@,
    {
        AppSettings {
            theme: self.theme.clone(),
            start_on_boot: self.start_on_boot,
            launch_hidden: self.launch_hidden,
        }
    }
}

impl AppSettings {
    /// The settings of a configuration; those of a new user where it could not be loaded.
    pub fn load_from_config(config: &Result<AppConfig, ConfigError>) -> (settings: Self)
        ensures
            settings@ == match *config {
                Ok(config) => settings_of(config@.ui_state),
                Err(_) => first_settings(),
            },
    {
        match config {
            Ok(config) => AppSettings {
                theme: config.ui_state.theme().to_owned(),
                start_on_boot: config.ui_state.start_on_boot,
                launch_hidden: config.ui_state.launch_hidden,
            },
            Err(_) => AppSettings::default(),
        }
    }

    /// The configuration that is to be written for the settings: the one that is there,
    /// with the settings changed, or one with an empty graph where there is none.
    pub fn save_to_config(&self, loaded: Result<AppConfig, ConfigError>) -> (result: Result<
        AppConfig,
        ConfigError,
    >)
        ensures
            ({
                let base = match loaded {
                    Ok(config) => Some(config@),
                    Err(ConfigError::NotFound(_)) => Some(
                        ConfigModel {
                            schema_version: CURRENT_SCHEMA_VERSION,
                            graph: empty_graph(),
                            ui_state: no_choices(),
                            network: no_network(),
                        },
                    ),
                    Err(_) => None,
                };
                match result {
                    Ok(config) => base matches Some(base) && config@ == (ConfigModel {
                        ui_state: UiModel {
                            theme: self@.theme,
                            start_on_boot: self@.start_on_boot,
                            launch_hidden: self@.launch_hidden,
                            ..base.ui_state
                        },
                        ..base
                    }),
                    Err(e) => base is None && loaded == Err::<AppConfig, ConfigError>(e),
                }
            }),
    {
        let mut config = match loaded {
            Ok(config) => config,
            Err(e) => match e {
                ConfigError::NotFound(_) => {
                    let graph = RouteGraph {
                        sources: Vec::new(),
                        buses: Vec::new(),
                        sinks: Vec::new(),
                        sends: Vec::new(),
                    };
                    assert(graph@ =~= empty_graph());
                    AppConfig::new(graph)
                },
                other => {
                    return Err(other);
                },
            },
        };
        config.ui_state.theme = self.theme.clone();
        config.ui_state.start_on_boot = self.start_on_boot;
        config.ui_state.launch_hidden = self.launch_hidden;
        Ok(config)
    }
}

/// A graph without nodes.
pub open spec fn empty_graph() -> GraphModel {
    GraphModel {
        sources: Seq::empty(),
        buses: Seq::empty(),
        sinks: Seq::empty(),
        sends: Seq::empty(),
    }
}

/// Settings that were written are read again, where they name a theme that is there.
pub proof fn law_settings_round_trip(settings: SettingsModel, ui: UiModel)
    requires
        settings.theme == "dark"@ || settings.theme == "light"@,
    ensures
        settings_of(
            UiModel {
                theme: settings.theme,
                start_on_boot: settings.start_on_boot,
                launch_hidden: settings.launch_hidden,
                ..ui
            },
        ) == settings,
{
}

/// Whether a graph without buses is valid.
pub open spec fn v1_well_formed(graph: V1GraphModel) -> bool {
    &&& forall|i: int, j: int|
        0 <= i < j < graph.sources.len() ==> (#[trigger] graph.sources[i]).id != (
        #[trigger] graph.sources[j]).id
    &&& forall|i: int, j: int|
        0 <= i < j < graph.sources.len() && graph.sources[j].endpoint_id is Some ==> (
        #[trigger] graph.sources[i]).endpoint_id != (#[trigger] graph.sources[j]).endpoint_id
    &&& forall|i: int, j: int|
        0 <= i < j < graph.sinks.len() ==> (#[trigger] graph.sinks[i]).id != (
        #[trigger] graph.sinks[j]).id
    &&& forall|i: int, j: int|
        0 <= i < j < graph.sinks.len() ==> (#[trigger] graph.sinks[i]).endpoint_id != (
        #[trigger] graph.sinks[j]).endpoint_id
    &&& forall|i: int|
        0 <= i < graph.sends.len() ==> v1_joins_nodes(graph, #[trigger] graph.sends[i])
    &&& forall|i: int|
        0 <= i < graph.sends.len() ==> gain_allowed((#[trigger] graph.sends[i]).gain_db)
}

/// Whether both nodes that a send joins are in the graph.
pub open spec fn v1_joins_nodes(graph: V1GraphModel, send: V1SendModel) -> bool {
    &&& exists|i: int| 0 <= i < graph.sources.len() && (#[trigger] graph.sources[i]).id == send.source_id
    &&& exists|i: int| 0 <= i < graph.sinks.len() && (#[trigger] graph.sinks[i]).id == send.sink_id
}

/// Texts that end in a colon and different numbers are different.
proof fn lemma_numbered_texts_differ(first: Seq<char>, second: Seq<char>, i: nat, j: nat)
    requires
        first + ":"@ + decimal_text(i) == second + ":"@ + decimal_text(j),
    ensures
        i == j,
{
    reveal_strlit(":");
    let (a, b) = (decimal_text(i), decimal_text(j));
    let whole = first + ":"@ + a;
    let other = second + ":"@ + b;
    lemma_digits_value(i);
    lemma_digits_value(j);
    assert(whole.len() == first.len() + 1 + a.len());
    assert(other.len() == second.len() + 1 + b.len());
    if a.len() < b.len() {
        let at = whole.len() - a.len() - 1;
        assert(whole[at] == ':');
        assert(other[at] == b[at - second.len() - 1]);
        assert(false);
    }
    if b.len() < a.len() {
        let at = other.len() - b.len() - 1;
        assert(other[at] == ':');
        assert(whole[at] == a[at - first.len() - 1]);
        assert(false);
    }
    assert(a =~= whole.skip(whole.len() - a.len()));
    assert(b =~= other.skip(other.len() - b.len()));
}

pub(crate) proof fn lemma_prefix_is_injective(prefix: Seq<char>, a: Seq<char>, b: Seq<char>)
    requires
        prefix + a == prefix + b,
    ensures
        a == b,
{
    assert(a =~= (prefix + a).skip(prefix.len() as int));
    assert(b =~= (prefix + b).skip(prefix.len() as int));
}

/// A valid graph stays valid when buses are put before its sinks, and no send loses where
/// it comes from, where it goes or how it is set.
pub proof fn law_migration_keeps_routes(graph: V1GraphModel)
    requires
        v1_well_formed(graph),
    ensures
        migrated_graph(graph).well_formed(),
        forall|i: int|
            0 <= i < graph.sends.len() ==> keeps_route(
                graph,
                migrated_graph(graph),
                #[trigger] graph.sends[i],
            ),
{
    let next = migrated_graph(graph);
    let sinks = graph.sinks.len();
    assert forall|i: int, j: int| 0 <= i < j < next.buses.len() implies (#[trigger] next.buses[i]).id
        != (#[trigger] next.buses[j]).id by {
        if next.buses[i].id == next.buses[j].id {
            lemma_prefix_is_injective("migrated-bus:"@, graph.sinks[i].id, graph.sinks[j].id);
        }
    }
    assert forall|i: int, j: int| 0 <= i < j < next.sends.len() implies (#[trigger] next.sends[i]).id
        != (#[trigger] next.sends[j]).id by {
        if next.sends[i].id == next.sends[j].id {
            if j < sinks {
                lemma_prefix_is_injective(
                    "migrated-bus-to-sink:"@,
                    graph.sinks[i].id,
                    graph.sinks[j].id,
                );
            } else if i >= sinks {
                let (a, b) = (graph.sends[i - sinks], graph.sends[j - sinks]);
                lemma_numbered_texts_differ(
                    "migrated-source-to-bus:"@ + a.source_id + ":"@ + a.sink_id,
                    "migrated-source-to-bus:"@ + b.source_id + ":"@ + b.sink_id,
                    (i - sinks) as nat,
                    (j - sinks) as nat,
                );
            } else {
                reveal_strlit("migrated-bus-to-sink:");
                reveal_strlit("migrated-source-to-bus:");
                assert(next.sends[i].id[9] == 'b');
                let b = graph.sends[j - sinks];
                assert(next.sends[j].id == "migrated-source-to-bus:"@ + (b.source_id + ":"@
                    + b.sink_id + ":"@ + decimal_text((j - sinks) as nat))) by {
                    assert(next.sends[j].id =~= "migrated-source-to-bus:"@ + (b.source_id + ":"@
                        + b.sink_id + ":"@ + decimal_text((j - sinks) as nat)));
                }
                assert(next.sends[j].id[9] == 's');
            }
        }
    }
    assert forall|i: int| 0 <= i < next.sends.len() implies next.joins_nodes(
        #[trigger] next.sends[i],
    ) && gain_allowed(next.sends[i].gain_db) by {
        if i < sinks {
            assert(next.buses[i].id == migrated_bus_id(graph.sinks[i].id));
            assert(next.sinks[i].id == graph.sinks[i].id);
        } else {
            let send = graph.sends[i - sinks];
            assert(v1_joins_nodes(graph, send));
            let k = choose|k: int|
                0 <= k < graph.sinks.len() && (#[trigger] graph.sinks[k]).id == send.sink_id;
            assert(next.buses[k].id == migrated_bus_id(send.sink_id));
        }
    }
    assert forall|i: int| 0 <= i < graph.sends.len() implies keeps_route(
        graph,
        next,
        #[trigger] graph.sends[i],
    ) by {
        let send = graph.sends[i];
        assert(v1_joins_nodes(graph, send));
        let k = choose|k: int|
            0 <= k < graph.sinks.len() && (#[trigger] graph.sinks[k]).id == send.sink_id;
        assert(next.sends[sinks + i] == migrated_source_send(send, i as nat));
        assert(next.sends[k] == migrated_sink_send(graph.sinks[k]));
    }
}

/// Whether a graph leads from the source of a send to its sink, over a bus, with the
/// settings of the send and no others.
pub open spec fn keeps_route(graph: V1GraphModel, next: GraphModel, send: V1SendModel) -> bool {
    &&& exists|i: int|
        0 <= i < next.sends.len() && (#[trigger] next.sends[i]).ends == (SendEnds::SourceToBus {
            source_id: send.source_id,
            bus_id: migrated_bus_id(send.sink_id),
        }) && next.sends[i].gain_db == send.gain_db && next.sends[i].muted == send.muted
            && next.sends[i].enabled == send.enabled && next.sends[i].channel_map
            == send.channel_map
    &&& exists|i: int|
        0 <= i < next.sends.len() && (#[trigger] next.sends[i]).ends == (SendEnds::BusToSink {
            bus_id: migrated_bus_id(send.sink_id),
            sink_id: send.sink_id,
        }) && next.sends[i].gain_db == unity_gain() && !next.sends[i].muted
            && next.sends[i].enabled && next.sends[i].channel_map.len() == 0
}

} // verus!
