use loopmaster::decibels::Decibels;
use loopmaster::editor::{RouteEdit, RouteEditor};
use loopmaster::routing::{
    BusId, BusSpec, EndpointId, RouteGraph, RouteGraphError, SendId, SendSpec, SinkId, SinkKind,
    SinkSpec, SourceId, SourceKind, SourceSpec,
};
use loopmaster::snapshot::RouteGraphSnapshot;

fn db(gain: f32) -> Decibels {
    Decibels { bits: gain.to_bits() }
}

fn show_gain(gain: Decibels) -> String {
    format!("{}", f32::from_bits(gain.bits))
}

fn device(id: &str, endpoint: Option<&str>) -> SourceSpec {
    SourceSpec {
        id: SourceId(id.into()),
        kind: SourceKind::DeviceCapture,
        endpoint_id: endpoint.map(|value| EndpointId(value.into())),
        process_id: None,
        executable_path: None,
        stream_name: None,
        display_name: id.into(),
    }
}

fn process(id: &str) -> SourceSpec {
    SourceSpec {
        id: SourceId(id.into()),
        kind: SourceKind::ProcessLoopback,
        endpoint_id: None,
        process_id: Some(1),
        executable_path: None,
        stream_name: None,
        display_name: id.into(),
    }
}

fn sink(id: &str, endpoint: &str) -> SinkSpec {
    SinkSpec {
        id: SinkId(id.into()),
        endpoint_id: EndpointId(endpoint.into()),
        display_name: id.into(),
        kind: SinkKind::Device,
        stream_name: None,
        remote_addr: None,
    }
}

fn bus(id: &str) -> BusSpec {
    BusSpec { id: BusId(id.into()), display_name: id.into() }
}

fn source_send(id: &str, source_id: &str, bus_id: &str, gain: f32) -> SendSpec {
    SendSpec::SourceToBus {
        id: SendId(id.into()),
        source_id: SourceId(source_id.into()),
        bus_id: BusId(bus_id.into()),
        gain_db: db(gain),
        muted: false,
        enabled: true,
        channel_map: Vec::new(),
    }
}

fn bus_send(id: &str, bus_id: &str, sink_id: &str) -> SendSpec {
    SendSpec::BusToSink {
        id: SendId(id.into()),
        bus_id: BusId(bus_id.into()),
        sink_id: SinkId(sink_id.into()),
        gain_db: db(0.0),
        muted: false,
        enabled: true,
        channel_map: Vec::new(),
    }
}

fn graph() -> RouteGraph {
    RouteGraph {
        sources: vec![process("a"), process("b")],
        buses: vec![bus("mix")],
        sinks: vec![sink("out", "endpoint-out")],
        sends: vec![
            source_send("a-mix", "a", "mix", 0.0),
            source_send("b-mix", "b", "mix", 0.0),
            bus_send("mix-out", "mix", "out"),
        ],
    }
}

#[test]
fn rejects_duplicate_graph_ids_and_endpoints() {
    let duplicate_source = RouteGraph {
        sources: vec![device("a", None), device("a", None)],
        ..RouteGraph::default()
    };
    assert_eq!(
        duplicate_source.validate().unwrap_err(),
        RouteGraphError::DuplicateSource("a".into())
    );

    let duplicate_sink_endpoint = RouteGraph {
        sinks: vec![sink("a", "endpoint"), sink("b", "endpoint")],
        ..RouteGraph::default()
    };
    assert_eq!(
        duplicate_sink_endpoint.validate().unwrap_err(),
        RouteGraphError::DuplicateSinkEndpoint("endpoint".into())
    );

    let duplicate_bus = RouteGraph {
        buses: vec![bus("mix"), bus("mix")],
        ..RouteGraph::default()
    };
    assert_eq!(
        duplicate_bus.validate().unwrap_err(),
        RouteGraphError::DuplicateBus("mix".into())
    );
}

#[test]
fn validates_bus_connections_and_stable_send_ids() {
    let missing_bus = RouteGraph {
        sources: vec![device("source", None)],
        sends: vec![source_send("source-mix", "source", "mix", 0.0)],
        ..RouteGraph::default()
    };
    assert_eq!(
        missing_bus.validate().unwrap_err(),
        RouteGraphError::MissingBus("mix".into())
    );

    let duplicate_send = RouteGraph {
        sources: vec![device("source", None)],
        buses: vec![bus("mix")],
        sends: vec![
            source_send("send", "source", "mix", 0.0),
            source_send("send", "source", "mix", 0.0),
        ],
        ..RouteGraph::default()
    };
    assert_eq!(
        duplicate_send.validate().unwrap_err(),
        RouteGraphError::DuplicateSend("send".into())
    );
}

#[test]
fn every_graph_fault_is_told() {
    let faults = [
        (
            RouteGraph { sinks: vec![sink("a", "x"), sink("a", "y")], ..RouteGraph::default() },
            RouteGraphError::DuplicateSink("a".into()),
        ),
        (
            RouteGraph {
                sources: vec![device("a", Some("x")), device("b", Some("x"))],
                ..RouteGraph::default()
            },
            RouteGraphError::DuplicateSourceEndpoint("x".into()),
        ),
        (
            RouteGraph {
                buses: vec![bus("mix")],
                sends: vec![source_send("s", "gone", "mix", 0.0)],
                ..RouteGraph::default()
            },
            RouteGraphError::MissingSource("gone".into()),
        ),
        (
            RouteGraph {
                buses: vec![bus("mix")],
                sends: vec![bus_send("s", "mix", "gone")],
                ..RouteGraph::default()
            },
            RouteGraphError::MissingSink("gone".into()),
        ),
        (
            RouteGraph {
                sources: vec![device("a", None)],
                buses: vec![bus("mix")],
                sends: vec![source_send("s", "a", "mix", 12.5)],
                ..RouteGraph::default()
            },
            RouteGraphError::InvalidGain(db(12.5)),
        ),
    ];
    for (graph, fault) in faults {
        assert_eq!(graph.validate().unwrap_err(), fault);
        assert!(!fault.message(&show_gain).is_empty());
    }
}

#[test]
fn gains_are_allowed_from_minus_sixty_to_twelve() {
    for (gain, allowed) in [
        (-60.0f32, true),
        (-60.001, false),
        (12.0, true),
        (12.001, false),
        (0.0, true),
        (-0.0, true),
        (f32::NAN, false),
        (f32::INFINITY, false),
        (f32::NEG_INFINITY, false),
    ] {
        assert_eq!(db(gain).is_allowed(), allowed, "{gain}");
    }
}

#[test]
fn validates_snapshot_before_sharing() {
    let graph = RouteGraph {
        sources: vec![device("a", None)],
        buses: Vec::new(),
        sinks: vec![SinkSpec {
            id: SinkId("s".into()),
            endpoint_id: EndpointId("endpoint".into()),
            display_name: "sink".into(),
            kind: SinkKind::Device,
            stream_name: None,
            remote_addr: None,
        }],
        sends: Vec::new(),
    };
    let snapshot = RouteGraphSnapshot::new(graph).unwrap();
    let clone = snapshot.clone();
    assert_eq!(snapshot.graph(), clone.graph());
}

#[test]
fn a_snapshot_gives_its_graph_back() {
    let snapshot = RouteGraphSnapshot::new(graph()).unwrap();
    assert_eq!(snapshot.into_graph(), graph());
}

#[test]
fn send_parameters_are_updated_by_stable_send_id() {
    let mut editor = RouteEditor::new(graph());
    editor
        .apply(RouteEdit::SetSendGain { send_id: SendId("a-mix".into()), gain_db: db(-6.0) })
        .unwrap();
    editor
        .apply(RouteEdit::SetSendMuted { send_id: SendId("mix-out".into()), muted: true })
        .unwrap();
    editor
        .apply(RouteEdit::SetSendEnabled { send_id: SendId("b-mix".into()), enabled: false })
        .unwrap();

    assert_eq!(editor.draft().sends[0].gain_db(), db(-6.0));
    assert!(editor.draft().sends[2].muted());
    assert!(!editor.draft().sends[1].enabled());
    editor.commit().unwrap();
}

#[test]
fn replacing_a_send_uses_its_id_not_its_endpoints() {
    let mut editor = RouteEditor::new(graph());
    let replacement = source_send("a-mix", "a", "mix", -3.0);
    editor.apply(RouteEdit::SetSend(replacement)).unwrap();
    assert_eq!(editor.draft().sends.len(), 3);
    assert_eq!(editor.draft().sends[0].gain_db(), db(-3.0));
}

#[test]
fn missing_send_id_does_not_mutate_draft() {
    let mut editor = RouteEditor::new(graph());
    let before = editor.draft().clone();
    let error = editor
        .apply(RouteEdit::SetSendChannelMap {
            send_id: SendId("missing".into()),
            channel_map: vec![(0, 0)],
        })
        .unwrap_err();
    assert_eq!(error, RouteGraphError::MissingSend("missing".into()));
    assert_eq!(editor.draft(), &before);
}

#[test]
fn removing_nodes_cascades_their_incident_sends() {
    let mut editor = RouteEditor::new(graph());
    editor.apply(RouteEdit::RemoveSource(SourceId("a".into()))).unwrap();
    assert_eq!(editor.draft().sends.len(), 2);

    editor.apply(RouteEdit::RemoveBus(BusId("mix".into()))).unwrap();
    assert!(editor.draft().sends.is_empty());
    assert!(editor.draft().buses.is_empty());

    editor.apply(RouteEdit::RemoveSink(SinkId("out".into()))).unwrap();
    assert!(editor.draft().sinks.is_empty());
}

#[test]
fn add_bus_is_validated_atomically() {
    let mut editor = RouteEditor::new(graph());
    let before = editor.draft().clone();
    let error = editor.apply(RouteEdit::AddBus(bus("mix"))).unwrap_err();
    assert_eq!(error, RouteGraphError::DuplicateBus("mix".into()));
    assert_eq!(editor.draft(), &before);
}

#[test]
fn removing_a_send_that_is_not_there_changes_nothing() {
    let mut editor = RouteEditor::new(graph());
    let before = editor.draft().clone();
    editor.apply(RouteEdit::RemoveSend(SendId("gone".into()))).unwrap();
    assert_eq!(editor.draft(), &before);
    editor.apply(RouteEdit::RemoveSend(SendId("b-mix".into()))).unwrap();
    assert_eq!(editor.draft().sends.len(), 2);
    assert_eq!(editor.draft().sends[1].id(), &SendId("mix-out".into()));
}

#[test]
fn other_edits_change_what_they_name() {
    let mut editor = RouteEditor::new(graph());
    editor.apply(RouteEdit::AddSource(device("c", Some("mic")))).unwrap();
    editor.apply(RouteEdit::AddSink(sink("two", "endpoint-two"))).unwrap();
    editor
        .apply(RouteEdit::SetSendChannelMap {
            send_id: SendId("a-mix".into()),
            channel_map: vec![(0, 1)],
        })
        .unwrap();
    assert_eq!(editor.draft().sources.len(), 3);
    assert_eq!(editor.draft().sinks.len(), 2);
    assert_eq!(editor.draft().sends[0].channel_map(), &[(0, 1)]);
    assert_eq!(
        editor.apply(RouteEdit::RemoveSource(SourceId("gone".into()))).unwrap_err(),
        RouteGraphError::MissingSource("gone".into())
    );
    assert_eq!(
        editor
            .apply(RouteEdit::SetSendGain { send_id: SendId("a-mix".into()), gain_db: db(13.0) })
            .unwrap_err(),
        RouteGraphError::InvalidGain(db(13.0))
    );
}
