use loopmaster::decibels::Decibels;
use loopmaster::mixer::{MixerError, MixerPlan, SampleOps};
use loopmaster::routing::{
    BusId, BusSpec, EndpointId, RouteGraph, RouteGraphError, SendId, SendSpec, SinkId, SinkKind,
    SinkSpec, SourceId, SourceKind, SourceSpec,
};

fn db(gain: f32) -> Decibels {
    Decibels { bits: gain.to_bits() }
}

fn linear(gain: Decibels) -> f32 {
    10f32.powf(f32::from_bits(gain.bits) / 20.0)
}

fn source(id: &str) -> SourceSpec {
    SourceSpec {
        id: SourceId(id.into()),
        kind: SourceKind::DeviceCapture,
        endpoint_id: None,
        process_id: None,
        executable_path: None,
        stream_name: None,
        display_name: id.into(),
    }
}

fn bus(id: &str) -> BusSpec {
    BusSpec { id: BusId(id.into()), display_name: id.into() }
}

fn sink(id: &str) -> SinkSpec {
    SinkSpec {
        id: SinkId(id.into()),
        endpoint_id: EndpointId(id.into()),
        display_name: id.into(),
        kind: SinkKind::Device,
        stream_name: None,
        remote_addr: None,
    }
}

fn source_send(id: &str, source_id: &str, bus_id: &str) -> SendSpec {
    SendSpec::SourceToBus {
        id: SendId(id.into()),
        source_id: SourceId(source_id.into()),
        bus_id: BusId(bus_id.into()),
        gain_db: db(0.0),
        muted: false,
        enabled: true,
        channel_map: Vec::new(),
    }
}

fn bus_send(id: &str, bus_id: &str, sink_id: &str) -> SendSpec {
    SendSpec::BusToSink {
        id: SendId(id.into()),
        bus_id: BusId(bus_id.into()),
        sink_id: SinkId(sink_id.into()),
        gain_db: db(0.0),
        muted: false,
        enabled: true,
        channel_map: Vec::new(),
    }
}

fn graph(sources: &[&str], buses: &[&str], sinks: &[&str], sends: Vec<SendSpec>) -> RouteGraph {
    RouteGraph {
        sources: sources.iter().map(|id| source(id)).collect(),
        buses: buses.iter().map(|id| bus(id)).collect(),
        sinks: sinks.iter().map(|id| sink(id)).collect(),
        sends,
    }
}

fn plan(
    graph: &RouteGraph,
    frames: usize,
    sources: usize,
    sinks: usize,
) -> Result<MixerPlan<f32>, MixerError> {
    MixerPlan::new(graph, frames, sources, sinks, 0.0f32, &linear)
}

fn run(
    plan: &mut MixerPlan<f32>,
    sources: &[&[f32]],
    sinks: &mut Vec<Vec<f32>>,
) -> Result<(), MixerError> {
    plan.process(
        &SampleOps {
            scale: |a: f32, b: f32| a * b,
            add: |a: f32, b: f32| a + b,
            magnitude: |a: f32| a.abs(),
            louder: |a: f32, b: f32| a > b,
        },
        sources,
        sinks,
    )
}

fn process(plan: &mut MixerPlan<f32>, sources: &[Vec<f32>]) -> Vec<Vec<f32>> {
    let source_refs: Vec<&[f32]> = sources.iter().map(Vec::as_slice).collect();
    let mut outputs = (0..plan.sink_count())
        .map(|_| vec![99.0; plan.block_frames() * plan.sink_channels()])
        .collect::<Vec<_>>();
    run(plan, &source_refs, &mut outputs).unwrap();
    outputs
}

#[test]
fn source_to_bus_then_bus_to_sink() {
    let mapped_graph = graph(
        &["source"],
        &["mix"],
        &["sink"],
        vec![
            source_send("source-mix", "source", "mix"),
            bus_send("mix-sink", "mix", "sink"),
        ],
    );
    let mut plan = plan(&mapped_graph, 2, 2, 2).ok().unwrap();
    assert_eq!(
        process(&mut plan, &[vec![1.0, -2.0, 3.0, -4.0]]),
        vec![vec![1.0, -2.0, 3.0, -4.0]]
    );
}

#[test]
fn accumulates_multiple_sources_in_one_bus() {
    let graph = graph(
        &["a", "b"],
        &["mix"],
        &["sink"],
        vec![
            source_send("a-mix", "a", "mix"),
            source_send("b-mix", "b", "mix"),
            bus_send("mix-sink", "mix", "sink"),
        ],
    );
    let mut plan = plan(&graph, 1, 1, 1).ok().unwrap();
    assert_eq!(process(&mut plan, &[vec![0.5], vec![0.5]]), vec![vec![1.0]]);
}

#[test]
fn fans_one_bus_out_to_multiple_sinks() {
    let graph = graph(
        &["source"],
        &["mix"],
        &["a", "b"],
        vec![
            source_send("source-mix", "source", "mix"),
            bus_send("mix-a", "mix", "a"),
            bus_send("mix-b", "mix", "b"),
        ],
    );
    let mut plan = plan(&graph, 1, 1, 1).ok().unwrap();
    assert_eq!(
        process(&mut plan, &[vec![0.75]]),
        vec![vec![0.75], vec![0.75]]
    );
}

#[test]
fn keeps_buses_isolated() {
    let graph = graph(
        &["a", "b"],
        &["mix-a", "mix-b"],
        &["sink-a", "sink-b"],
        vec![
            source_send("a-mix-a", "a", "mix-a"),
            source_send("b-mix-b", "b", "mix-b"),
            bus_send("mix-a-sink-a", "mix-a", "sink-a"),
            bus_send("mix-b-sink-b", "mix-b", "sink-b"),
        ],
    );
    let mut plan = plan(&graph, 1, 1, 1).ok().unwrap();
    assert_eq!(
        process(&mut plan, &[vec![0.25], vec![0.75]]),
        vec![vec![0.25], vec![0.75]]
    );
}

#[test]
fn gain_mute_enable_and_channel_map_apply_to_each_stage() {
    let mut first = source_send("source-mix", "source", "mix");
    if let SendSpec::SourceToBus { gain_db, channel_map, .. } = &mut first {
        *gain_db = db(6.0206);
        *channel_map = vec![(0, 1), (1, 0)];
    }
    let mapped_graph = graph(
        &["source"],
        &["mix"],
        &["sink"],
        vec![first, bus_send("mix-sink", "mix", "sink")],
    );
    let mut mapped_plan = plan(&mapped_graph, 1, 2, 2).ok().unwrap();
    let output = process(&mut mapped_plan, &[vec![1.0, 2.0]]);
    assert!((output[0][0] - 4.0).abs() < 0.0002);
    assert!((output[0][1] - 2.0).abs() < 0.0002);

    let mut muted = source_send("source-mix", "source", "mix");
    if let SendSpec::SourceToBus { muted, .. } = &mut muted {
        *muted = true;
    }
    let muted_graph = graph(
        &["source"],
        &["mix"],
        &["sink"],
        vec![muted, bus_send("mix-sink", "mix", "sink")],
    );
    let mut muted_plan = plan(&muted_graph, 1, 1, 1).ok().unwrap();
    assert_eq!(process(&mut muted_plan, &[vec![1.0]]), vec![vec![0.0]]);

    let mut disabled = bus_send("mix-sink", "mix", "sink");
    if let SendSpec::BusToSink { enabled, .. } = &mut disabled {
        *enabled = false;
    }
    let disabled_graph = graph(
        &["source"],
        &["mix"],
        &["sink"],
        vec![source_send("source-mix", "source", "mix"), disabled],
    );
    let mut disabled_plan = plan(&disabled_graph, 1, 1, 1).ok().unwrap();
    assert_eq!(process(&mut disabled_plan, &[vec![1.0]]), vec![vec![0.0]]);
}

#[test]
fn rejects_invalid_mapping_and_block_boundaries() {
    let mut invalid = source_send("source-mix", "source", "mix");
    if let SendSpec::SourceToBus { channel_map, .. } = &mut invalid {
        *channel_map = vec![(2, 0)];
    }
    let invalid_graph = graph(&["source"], &["mix"], &["sink"], vec![invalid]);
    assert_eq!(
        plan(&invalid_graph, 1, 2, 2).err().unwrap(),
        MixerError::SourceChannelOutOfRange { send_index: 0, channel: 2, channels: 2 }
    );

    let mut invalid_sink = bus_send("mix-sink", "mix", "sink");
    if let SendSpec::BusToSink { channel_map, .. } = &mut invalid_sink {
        *channel_map = vec![(0, 2)];
    }
    let invalid_sink_graph = graph(&["source"], &["mix"], &["sink"], vec![invalid_sink]);
    assert_eq!(
        plan(&invalid_sink_graph, 1, 2, 2).err().unwrap(),
        MixerError::SinkChannelOutOfRange { send_index: 0, channel: 2, channels: 2 }
    );

    let graph = graph(
        &["source"],
        &["mix"],
        &["sink"],
        vec![
            source_send("source-mix", "source", "mix"),
            bus_send("mix-sink", "mix", "sink"),
        ],
    );
    let mut plan = plan(&graph, 2, 2, 2).ok().unwrap();
    let source = vec![1.0, 2.0, 3.0];
    let source_refs = vec![source.as_slice()];
    let mut outputs = vec![vec![0.0; 4]];
    assert_eq!(
        run(&mut plan, &source_refs, &mut outputs).unwrap_err(),
        MixerError::SourceBlockUnaligned { index: 0, samples: 3, channels: 2 }
    );
}

#[test]
fn rejects_sample_count_overflow() {
    let graph = graph(&[], &[], &[], vec![]);
    assert_eq!(
        plan(&graph, usize::MAX, 2, 2).err().unwrap(),
        MixerError::BlockSampleCountOverflow
    );
}

#[test]
fn treats_short_source_as_silence_and_does_not_clip() {
    let graph = graph(
        &["a", "b"],
        &["mix"],
        &["sink"],
        vec![
            source_send("a-mix", "a", "mix"),
            source_send("b-mix", "b", "mix"),
            bus_send("mix-sink", "mix", "sink"),
        ],
    );
    let mut plan = plan(&graph, 2, 1, 1).ok().unwrap();
    assert_eq!(
        process(&mut plan, &[vec![4.0], vec![1.0, 1.0]]),
        vec![vec![5.0, 1.0]]
    );
}

#[test]
fn the_shape_of_a_block_is_checked_first() {
    let empty = graph(&[], &[], &[], vec![]);
    assert_eq!(plan(&empty, 0, 0, 0).err().unwrap(), MixerError::ZeroBlockFrames);
    assert_eq!(plan(&empty, 1, 0, 0).err().unwrap(), MixerError::ZeroSourceChannels);
    assert_eq!(plan(&empty, 1, 1, 0).err().unwrap(), MixerError::ZeroSinkChannels);
    let broken = graph(&["a", "a"], &[], &[], vec![]);
    assert_eq!(
        plan(&broken, 1, 1, 1).err().unwrap(),
        MixerError::Graph(RouteGraphError::DuplicateSource("a".into()))
    );
}

#[test]
fn the_number_and_the_length_of_blocks_are_checked() {
    let graph = graph(
        &["source"],
        &["mix"],
        &["sink"],
        vec![source_send("in", "source", "mix"), bus_send("out", "mix", "sink")],
    );
    let mut plan = plan(&graph, 2, 1, 1).ok().unwrap();
    let short = [1.0f32, 1.0];
    let long = [1.0f32, 1.0, 1.0];
    assert!(run(&mut plan, &[], &mut vec![vec![0.0; 2]]).is_err());
    assert!(run(&mut plan, &[&short], &mut vec![]).is_err());
    assert!(run(&mut plan, &[&long], &mut vec![vec![0.0; 2]]).is_err());
    assert!(run(&mut plan, &[&short], &mut vec![vec![0.0; 3]]).is_err());
    assert!(run(&mut plan, &[&short], &mut vec![vec![0.0; 2]]).is_ok());
    assert_eq!(plan.send_peaks()[0].0, SendId("in".into()));
    assert_eq!(plan.send_peaks()[0].1[0], 1.0);
    assert_eq!((plan.source_count(), plan.bus_count(), plan.sink_count()), (1, 1, 1));
    assert_eq!((plan.source_channels(), plan.bus_channels()), (1, 1));
}

#[test]
fn a_sink_without_an_active_send_is_silent() {
    let graph = graph(
        &["a"],
        &["mix"],
        &["one", "two"],
        vec![source_send("a-mix", "a", "mix"), bus_send("mix-one", "mix", "one")],
    );
    let mut plan = plan(&graph, 1, 1, 1).ok().unwrap();
    assert_eq!(process(&mut plan, &[vec![0.5]]), vec![vec![0.5], vec![0.0]]);
}

#[test]
fn mixer_errors_have_messages() {
    let show = |gain: Decibels| format!("{}", f32::from_bits(gain.bits));
    assert!(!MixerError::ZeroBlockFrames.message(&show).is_empty());
    assert!(!MixerError::BlockSampleCountOverflow.message(&show).is_empty());
}
