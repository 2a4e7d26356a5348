use loopmaster::decibels::Decibels;
use loopmaster::editor::{RouteEdit, RouteEditor};
use loopmaster::paths::{path_beside, path_inside, temp_path_for};
use loopmaster::routing::{
    AudioFormat, BusId, BusSpec, EndpointId, RouteGraph, RouteGraphError, SendId, SendSpec, SinkId,
    SinkKind, SinkSpec, SourceId, SourceKind, SourceSpec,
};
use loopmaster::runtime::engine::EngineReport;
use loopmaster::runtime::status::{AudioEngineState, AudioEngineStats};
use loopmaster::service::config::{
    migrate_v1, schema_of, schema_of_version, AppConfig, AppSettings, ConfigError, ConfigSchema,
    NetworkConfig, UiState, V1Config, V1Graph, V1SendSpec, CURRENT_SCHEMA_VERSION,
};
use loopmaster::service::device::{
    endpoint_format_description, find_process_in, process_models, project_format_support,
    DeviceCategory, DeviceFlow, DeviceFormatSupport, DeviceRepository, DeviceStatus,
    ProcessRepository,
};
use loopmaster::service::engine::{
    failed_graph_endpoints, EngineCommand, EngineService, ServiceEvent,
};
use loopmaster::service::error::{recovery_hint, ServiceError};
use loopmaster::service::state::{NodeIdentityBrief, StateHub};
use loopmaster::web::auth::AuthState;
use loopmaster::windows::backend::WindowsAudioBackend;
use loopmaster::windows::endpoint::{
    EndpointFlow, EndpointFormat, EndpointInfo, ProcessInfo, WindowsAudioError,
};

fn db(gain: f32) -> Decibels {
    Decibels { bits: gain.to_bits() }
}

fn show_gain(gain: Decibels) -> String {
    format!("{}", f32::from_bits(gain.bits))
}

fn process(id: &str) -> SourceSpec {
    SourceSpec {
        id: SourceId(id.into()),
        kind: SourceKind::ProcessLoopback,
        endpoint_id: None,
        process_id: Some(1),
        executable_path: None,
        stream_name: None,
        display_name: id.into(),
    }
}

fn sink(id: &str, endpoint: &str) -> SinkSpec {
    SinkSpec {
        id: SinkId(id.into()),
        endpoint_id: EndpointId(endpoint.into()),
        display_name: id.into(),
        kind: SinkKind::Device,
        stream_name: None,
        remote_addr: None,
    }
}

fn source_send(id: &str, source_id: &str, gain: f32) -> SendSpec {
    SendSpec::SourceToBus {
        id: SendId(id.into()),
        source_id: SourceId(source_id.into()),
        bus_id: BusId("mix".into()),
        gain_db: db(gain),
        muted: false,
        enabled: true,
        channel_map: Vec::new(),
    }
}

fn bus_send(id: &str, sink_id: &str) -> SendSpec {
    SendSpec::BusToSink {
        id: SendId(id.into()),
        bus_id: BusId("mix".into()),
        sink_id: SinkId(sink_id.into()),
        gain_db: db(0.0),
        muted: false,
        enabled: true,
        channel_map: Vec::new(),
    }
}

fn engine_graph() -> RouteGraph {
    RouteGraph {
        sources: vec![process("a"), process("b")],
        buses: vec![BusSpec { id: BusId("mix".into()), display_name: "mix".into() }],
        sinks: vec![sink("out", "endpoint-out")],
        sends: vec![
            source_send("a-mix", "a", 0.0),
            source_send("b-mix", "b", 0.0),
            bus_send("mix-out", "out"),
        ],
    }
}

#[test]
fn send_commands_reject_when_engine_is_not_running() {
    let mut service = EngineService::new(engine_graph()).unwrap();
    let error = service
        .command(EngineCommand::SetGain { send_id: SendId("a-mix".into()), gain_db: db(-6.0) })
        .unwrap_err();
    assert!(matches!(error, ServiceError::Rejected { .. }));
}

fn running() -> EngineReport {
    EngineReport {
        state: AudioEngineState::Running,
        last_error: None,
        stats: AudioEngineStats::default(),
        session_open: true,
    }
}

#[test]
fn send_commands_reach_a_running_engine() {
    let mut service = EngineService::new(engine_graph()).unwrap();
    service.command(EngineCommand::Start).unwrap();
    service.take_report(running());
    service
        .command(EngineCommand::SetGain { send_id: SendId("a-mix".into()), gain_db: db(-6.0) })
        .unwrap();
    service
        .command(EngineCommand::SetMuted { send_id: SendId("a-mix".into()), muted: true })
        .unwrap();
    service
        .command(EngineCommand::SetSendEnabled { send_id: SendId("b-mix".into()), enabled: false })
        .unwrap();
    let graph = service.engine.graph().graph().clone();
    assert_eq!(graph.sends[0].gain_db(), db(-6.0));
    assert!(graph.sends[0].muted());
    assert!(!graph.sends[1].enabled());
    assert!(service
        .command(EngineCommand::SetMuted { send_id: SendId("gone".into()), muted: true })
        .is_err());
    service.command(EngineCommand::Stop).unwrap();
    assert!(!service.status().running);
}

#[test]
fn events_are_told_once() {
    let mut service = EngineService::new(engine_graph()).unwrap();
    assert_eq!(service.subscribe()[0], ServiceEvent::StateChanged(AudioEngineState::Stopped));
    service.start().unwrap();
    let events = service.poll();
    assert!(events.contains(&ServiceEvent::StateChanged(AudioEngineState::Running)));
    assert!(service.poll().is_empty());
    assert!(service.check_reconnect().is_err());
}

#[test]
fn device_failure_events_only_target_the_reported_endpoint() {
    let failed = failed_graph_endpoints(
        &engine_graph(),
        Some("WASAPI 设备失效, endpoint=Some(\"endpoint-out\")"),
    );
    assert_eq!(failed, vec![EndpointId("endpoint-out".into())]);
}

#[test]
fn unlocated_device_failure_does_not_report_every_endpoint() {
    assert!(failed_graph_endpoints(&engine_graph(), Some("设备失效但无 endpoint")).is_empty());
}

fn hub() -> StateHub<u8, u8> {
    StateHub::new("config.json".into(), AuthState::new(Vec::new()))
}

#[test]
fn revision_is_monotonic_and_notifies_subscribers() {
    let mut hub = hub();
    assert_eq!(hub.subscribe(), 0);
    assert_eq!(hub.revision(), 0);
    hub.bump();
    hub.bump();
    assert_eq!(hub.revision(), 2);
    assert_eq!(hub.subscribe(), 2);
}

#[test]
fn settings_round_trip_through_config_file() {
    let settings =
        AppSettings { theme: "dark".into(), start_on_boot: true, launch_hidden: false };
    let saved = settings.save_to_config(Ok(AppConfig::new(config_graph()))).unwrap();
    assert_eq!(saved.graph, config_graph());
    assert_eq!(AppSettings::load_from_config(&Ok(saved)), settings);
}

#[test]
fn settings_save_creates_missing_config_file() {
    let missing = || Err(ConfigError::NotFound("config.json".into()));
    let saved = AppSettings::default().save_to_config(missing()).unwrap();
    assert_eq!(saved.graph, RouteGraph::default());
    assert_eq!(saved.schema_version, CURRENT_SCHEMA_VERSION);
    assert_eq!(AppSettings::load_from_config(&missing()), AppSettings::default());
    assert!(AppSettings::default()
        .save_to_config(Err(ConfigError::Json("broken".into())))
        .is_err());
}

#[test]
fn high_level_mutations_bump_revision() {
    let mut hub = hub();
    hub.store_settings(AppSettings::default());
    hub.store_identity(NodeIdentityBrief::empty());
    hub.set_discovery(None);
    hub.set_bridge(None);
    assert!(hub.take_bridge_recovering().is_none());
    assert!(hub.take_engine().is_none());
    assert!(hub.revision() >= 4);
    assert_eq!(hub.subscribe(), hub.revision());
}

#[test]
fn route_edits_reach_the_hub_and_its_engine() {
    let mut hub = hub();
    hub.replace_editor(RouteEditor::new(engine_graph()));
    let mut engine = EngineService::new(engine_graph()).unwrap();
    engine.start().unwrap();
    hub.insert_engine(engine);
    hub.take_report(running());
    let before = hub.revision();
    let edit = RouteEdit::SetSendGain { send_id: SendId("a-mix".into()), gain_db: db(-6.0) };
    hub.forward_edit_to_engine(&edit).unwrap();
    hub.apply_route_edit(edit).unwrap();
    assert_eq!(hub.route_snapshot().sends[0].gain_db(), db(-6.0));
    assert!(hub.revision() > before);
    let engine = hub.take_engine().unwrap();
    assert_eq!(engine.engine.graph().graph().sends[0].gain_db(), db(-6.0));
    let error = hub
        .apply_route_edit(RouteEdit::SetSendMuted { send_id: SendId("gone".into()), muted: true })
        .unwrap_err();
    assert!(!error.message(&show_gain).is_empty());
    assert_eq!(hub.config_path(), "config.json");
}

fn config_graph() -> RouteGraph {
    RouteGraph {
        sources: vec![SourceSpec {
            id: SourceId("source".into()),
            kind: SourceKind::DeviceCapture,
            endpoint_id: Some(EndpointId("endpoint-source".into())),
            process_id: None,
            executable_path: None,
            stream_name: None,
            display_name: "Source".into(),
        }],
        buses: vec![BusSpec { id: BusId("mix".into()), display_name: "Mix 1".into() }],
        sinks: vec![sink("sink", "endpoint-sink")],
        sends: vec![source_send("source-mix", "source", -3.0), bus_send("mix-sink", "sink")],
    }
}

#[test]
fn v1_is_migrated_without_losing_route_parameters() {
    let json = br#"{
        "schema_version": 1,
        "graph": {
            "sources": [{
                "id": "source", "kind": "DeviceCapture",
                "endpoint_id": "endpoint-source", "process_id": null,
                "display_name": "Source"
            }],
            "sinks": [{
                "id": "sink", "endpoint_id": "endpoint-sink", "display_name": "Sink"
            }],
            "sends": [{
                "source_id": "source", "sink_id": "sink", "gain_db": -9.0,
                "muted": true, "enabled": false, "channel_map": [[0, 1]]
            }]
        },
        "ui_state": { "missing_endpoints": ["offline"] }
    }"#;
    assert_eq!(schema_of(json), Ok(ConfigSchema::V1));

    let graph = config_graph();
    let config = migrate_v1(V1Config {
        graph: V1Graph {
            sources: graph.sources,
            sinks: graph.sinks,
            sends: vec![V1SendSpec {
                source_id: SourceId("source".into()),
                sink_id: SinkId("sink".into()),
                gain_db: db(-9.0),
                muted: true,
                enabled: false,
                channel_map: vec![(0, 1)],
            }],
        },
        ui_state: UiState {
            missing_endpoints: vec![EndpointId("offline".into())],
            ..UiState::default()
        },
        network: NetworkConfig::default(),
    });
    assert_eq!(config.schema_version, CURRENT_SCHEMA_VERSION);
    assert_eq!(config.graph.buses.len(), 1);
    assert_eq!(config.graph.buses[0].id, BusId("migrated-bus:sink".into()));
    assert_eq!(config.graph.sends.len(), 2);
    let source_send = config
        .graph
        .sends
        .iter()
        .find(|send| matches!(send, SendSpec::SourceToBus { .. }))
        .unwrap();
    assert_eq!(source_send.gain_db(), db(-9.0));
    assert!(source_send.muted());
    assert!(!source_send.enabled());
    assert_eq!(source_send.channel_map(), &[(0, 1)]);
    assert_eq!(config.ui_state.missing_endpoints, vec![EndpointId("offline".into())]);
    config.graph.validate().unwrap();
}

#[test]
fn unknown_schema_version_is_rejected() {
    let error = schema_of(br#"{"schema_version": 999, "graph": {}}"#).unwrap_err();
    assert!(matches!(error, ConfigError::UnsupportedSchemaVersion(999)));
    assert_eq!(schema_of(br#"{"schema_version": 2}"#), Ok(ConfigSchema::Current));
    assert_eq!(schema_of_version(Some(1)), Ok(ConfigSchema::V1));
    assert_eq!(
        schema_of_version(Some(0x1_0000_0002)),
        Err(ConfigError::UnsupportedSchemaVersion(0x1_0000_0002))
    );
    assert_eq!(
        schema_of(br#"{"schema_version": 4294967297}"#),
        Err(ConfigError::UnsupportedSchemaVersion(4_294_967_297))
    );
}

#[test]
fn malformed_json_and_missing_file_are_distinct_errors() {
    assert!(matches!(schema_of(b"{broken").unwrap_err(), ConfigError::Json(_)));
    assert!(matches!(
        ConfigError::unreadable("config.json".into(), true, "gone".into()),
        ConfigError::NotFound(_)
    ));
    assert!(matches!(
        ConfigError::unreadable("config.json".into(), false, "denied".into()),
        ConfigError::Io(_)
    ));
}

#[test]
fn an_invalid_graph_is_not_accepted() {
    let mut config = AppConfig::new(config_graph());
    config.graph.buses.clear();
    assert_eq!(
        config.accept(),
        Err(ConfigError::Graph(RouteGraphError::MissingBus("mix".into())))
    );
    assert!(AppConfig::new(config_graph()).accept().is_ok());
}

#[test]
fn the_temporary_file_lies_beside_the_file() {
    assert_eq!(temp_path_for("C:/LoopMaster/config.json"), "C:/LoopMaster/config.json.tmp");
}

#[test]
fn missing_endpoints_are_deduplicated_without_changing_graph() {
    let mut config = AppConfig::new(config_graph());
    let original = config.graph.clone();
    config.mark_missing_endpoints(&[]);
    assert_eq!(
        config.ui_state.missing_endpoints,
        vec![EndpointId("endpoint-sink".into()), EndpointId("endpoint-source".into())]
    );
    assert_eq!(config.graph, original);
    config.mark_missing_endpoints(&[EndpointId("endpoint-sink".into())]);
    assert_eq!(
        config.ui_state.missing_endpoints,
        vec![EndpointId("endpoint-source".into())]
    );
}

#[test]
fn devices_are_sorted_into_categories() {
    assert_eq!(
        DeviceCategory::classify("Realtek Microphone", DeviceFlow::Capture),
        DeviceCategory::InputMic
    );
    assert_eq!(
        DeviceCategory::classify("CABLE Output (VB-Audio)", DeviceFlow::Capture),
        DeviceCategory::InputVirtual
    );
    assert_eq!(
        DeviceCategory::classify("Speakers", DeviceFlow::Render),
        DeviceCategory::Output
    );
}

#[test]
fn format_support_tells_what_must_be_converted() {
    let native = EndpointFormat {
        sample_rate: 48_000,
        bits_per_sample: 32,
        channels: 2,
        channel_mask: 3,
        is_float: true,
        is_pcm: false,
    };
    assert_eq!(
        project_format_support(DeviceFlow::Capture, native).support,
        DeviceFormatSupport::Native
    );
    let converted = project_format_support(
        DeviceFlow::Render,
        EndpointFormat { sample_rate: 44_100, ..native },
    );
    assert_eq!(converted.support, DeviceFormatSupport::ConversionRequired);
    assert_eq!(converted.status, DeviceStatus::Active);
    let unsupported = project_format_support(
        DeviceFlow::Render,
        EndpointFormat { bits_per_sample: 24, is_float: false, ..native },
    );
    assert_eq!(unsupported.support, DeviceFormatSupport::Unsupported);
    assert!(!endpoint_format_description(native).is_empty());
    let backend = WindowsAudioBackend::new(None);
    assert!(DeviceRepository::new(backend).is_err());
}

fn endpoint(id: &str, name: &str, flow: EndpointFlow) -> EndpointInfo {
    EndpointInfo {
        id: EndpointId(id.into()),
        name: name.into(),
        flow,
        format: Some(AudioFormat { sample_rate: 48_000, channels: 2 }),
        bits_per_sample: Some(32),
        channel_mask: Some(3),
        is_float: Some(true),
        is_pcm: Some(false),
    }
}

#[test]
fn devices_are_listed_and_found_as_the_service_answers() {
    let repository = DeviceRepository::new(WindowsAudioBackend::new(Some(0))).unwrap();
    let answer = || {
        Ok(vec![
            endpoint("r0", "Speaker", EndpointFlow::Render),
            endpoint("c0", "Microphone", EndpointFlow::Capture),
            endpoint("c0", "Second", EndpointFlow::Capture),
        ])
    };
    let devices = repository.list_devices(answer()).unwrap();
    assert_eq!(devices.len(), 3);
    assert_eq!((devices[0].id.0.as_str(), devices[0].flow), ("r0", DeviceFlow::Render));
    assert_eq!(devices[1].format_support, DeviceFormatSupport::Native);
    assert_eq!(repository.list_devices(answer()).unwrap(), devices);
    let found = repository.find_device(&EndpointId("c0".into()), answer()).unwrap().unwrap();
    assert_eq!(found, devices[1]);
    assert!(repository.find_device(&EndpointId("x".into()), answer()).unwrap().is_none());
    assert!(repository.list_devices(Ok(Vec::new())).unwrap().is_empty());
}

#[test]
fn audio_processes_are_listed_and_found_as_the_service_answers() {
    let repository = ProcessRepository::new(WindowsAudioBackend::new(Some(0))).unwrap();
    let answer = || {
        Ok(vec![
            ProcessInfo { pid: 7, name: "a.exe".into(), executable_path: None },
            ProcessInfo { pid: 8, name: "b.exe".into(), executable_path: Some("C:/b.exe".into()) },
        ])
    };
    let processes = repository.list_audio_processes(answer()).unwrap();
    assert_eq!(processes.len(), 2);
    assert_eq!(processes[1].executable_path.as_deref(), Some("C:/b.exe"));
    let found = repository.find_process(8, answer()).unwrap().unwrap();
    assert_eq!(found, processes[1]);
    assert!(repository.find_process(9, answer()).unwrap().is_none());
}

#[test]
fn a_refused_answer_comes_with_advice() {
    let refused = || WindowsAudioError::HResult {
        operation: "IMMDeviceEnumerator::EnumAudioEndpoints",
        hresult: -2_147_024_891,
        endpoint_id: None,
    };
    let expected = ServiceError::from_windows(refused()).message(&show_gain);
    let devices = DeviceRepository::new(WindowsAudioBackend::new(Some(0))).unwrap();
    let processes = ProcessRepository::new(WindowsAudioBackend::new(Some(0))).unwrap();
    let told = vec![
        devices.list_devices(Err(refused())).unwrap_err(),
        devices.find_device(&EndpointId("r0".into()), Err(refused())).unwrap_err(),
        processes.list_audio_processes(Err(refused())).unwrap_err(),
        processes.find_process(7, Err(refused())).unwrap_err(),
        ProcessRepository::new(Err(refused())).unwrap_err(),
    ];
    for error in told {
        assert_eq!(error.message(&show_gain), expected);
        assert!(error.hint().is_some());
    }
    assert!(ProcessRepository::new(WindowsAudioBackend::new(None))
        .unwrap_err()
        .message(&show_gain)
        .contains("；建议："));
}

#[test]
fn processes_are_found_by_their_id() {
    let models = process_models(&vec![
        ProcessInfo { pid: 7, name: "a.exe".into(), executable_path: None },
        ProcessInfo { pid: 8, name: "b.exe".into(), executable_path: None },
    ]);
    assert_eq!(find_process_in(models, 8).unwrap().name, "b.exe");
}

#[test]
fn service_errors_keep_what_windows_said() {
    let error = ServiceError::from_windows(WindowsAudioError::HResult {
        operation: "test",
        hresult: -2,
        endpoint_id: Some("speaker".into()),
    });
    assert_eq!(error.hresult(), Some(-2));
    assert_eq!(error.endpoint_id(), Some("speaker"));
    assert!(error.hint().is_some());
    assert!(!error.message(&show_gain).is_empty());
    assert!(!recovery_hint(&WindowsAudioError::UnsupportedPlatform).is_empty());
    let rejected = ServiceError::Rejected { reason: "no".into() };
    assert_eq!(rejected.hresult(), None);
    assert!(rejected.message(&show_gain).contains("no"));
}

#[test]
fn a_failed_engine_is_tried_again() {
    let mut service = EngineService::new(engine_graph()).unwrap();
    assert!(matches!(service.request_reconnect(), Err(ServiceError::NotReady(_))));
    service.start().unwrap();
    assert!(matches!(service.request_reconnect(), Err(ServiceError::Rejected { .. })));
    service.take_report(EngineReport {
        state: AudioEngineState::Failed,
        last_error: Some("gone".into()),
        ..running()
    });
    service.request_reconnect().unwrap();
    assert_eq!(service.status().state, AudioEngineState::Running);
    assert_eq!(service.status().last_error, None);
}

#[test]
fn the_hub_keeps_its_server_and_its_taps() {
    let mut hub = hub();
    hub.set_web(Some(5));
    hub.set_monitor_taps(vec!["mix".into()]);
    assert_eq!(hub.web(), &Some(5));
    assert_eq!(hub.monitor_taps(), &vec!["mix".to_owned()]);
}

#[test]
fn paths_are_read_as_parts() {
    for path in ["..", "a/.", "a/b/", "./x", "a/..", ".", "/", "/.", "a", "a/./b", "../x//", "/x"] {
        let read = std::path::Path::new(path);
        let mut name = read.file_name().unwrap_or_default().to_os_string();
        name.push(".tmp");
        assert_eq!(std::path::Path::new(&temp_path_for(path)), read.with_file_name(name), "{path}");
        let beside = path_beside(path, "tls").map(std::path::PathBuf::from);
        assert_eq!(beside, read.parent().map(|directory| directory.join("tls")), "{path}");
    }
    assert_eq!(path_inside("C:\\LoopMaster\\tls", "ca.crt"), "C:\\LoopMaster\\tls\\ca.crt");
    assert_eq!(path_inside("C:\\LoopMaster/tls", "ca.crt"), "C:\\LoopMaster/tls/ca.crt");
    assert_eq!(path_inside("/etc/tls", "ca.crt"), "/etc/tls/ca.crt");
    assert_eq!(path_inside("C:\\tls\\", "ca.crt"), "C:\\tls\\ca.crt");
    assert_eq!(path_inside("tls", "ca.crt"), "tls/ca.crt");
    assert_eq!(path_inside("C:", "ca.crt"), "C:ca.crt");
    assert_eq!(path_inside("", "ca.crt"), "ca.crt");
    assert_eq!(temp_path_for(""), ".tmp");
    assert_eq!(temp_path_for("C:/"), "C:/.tmp");
    assert_eq!(temp_path_for("C:\\LoopMaster\\.."), "C:\\LoopMaster\\..\\.tmp");
    assert_eq!(path_beside("C:/", "tls"), None);
    assert_eq!(path_beside("C:", "tls"), None);
    assert_eq!(path_beside("", "tls"), None);
    assert_eq!(path_beside("C:config.json", "tls").as_deref(), Some("C:tls"));
    assert_eq!(path_beside("C:\\a\\config.json", "tls").as_deref(), Some("C:\\a\\tls"));
}
