use loopmaster::decibels::Decibels;
use loopmaster::fifo::AudioFifo;
use loopmaster::mixer::{MixerPlan, SampleOps};
use loopmaster::routing::{
    BusId, BusSpec, EndpointId, RouteGraph, SendId, SendSpec, SinkId, SinkKind, SinkSpec,
    SourceId, SourceKind, SourceSpec, INTERNAL_CHANNELS,
};
use loopmaster::runtime::capture::{
    capture_target, pass_packet, CaptureResampler, CaptureTarget,
};
use loopmaster::runtime::config::{
    all_endpoints_active, endpoint_checks, graph_sink_endpoints, topology_changed,
    AudioEngineConfig, AudioEngineError, DEFAULT_FIFO_CAPACITY_BLOCKS,
    DEFAULT_RECONNECT_ATTEMPTS, RECONNECT_DELAY_MILLIS, STARTUP_PREFILL_BLOCKS,
};
use loopmaster::runtime::engine::{AudioEngine, EngineReport};
use loopmaster::runtime::mixing::{mix_block, pace, take_graph, MixerSchedule, MixerTick};
use loopmaster::runtime::rendering::{prepare_block, RenderSchedule};
use loopmaster::runtime::status::{
    fail, fail_windows, is_non_silent, packet_peak, should_report_source_underflow,
    underflow_grace_period, AudioEngineState, AudioEngineStats,
};
use loopmaster::runtime::supervisor::{Supervisor, SupervisorEvent, SupervisorStep};
use loopmaster::snapshot::RouteGraphSnapshot;
use loopmaster::windows::endpoint::{
    EndpointFlow, EndpointFormat, WindowsAudioError, AUDCLNT_E_DEVICE_INVALIDATED,
};
use loopmaster::windows::stream::{fill_buffer, CapturePacket, RenderWriteResult};

const MILLI: u64 = 1_000_000;

fn source(id: &str, kind: SourceKind, endpoint: Option<&str>, pid: Option<u32>) -> SourceSpec {
    SourceSpec {
        id: SourceId(id.into()),
        kind,
        endpoint_id: endpoint.map(|endpoint| EndpointId(endpoint.into())),
        process_id: pid,
        executable_path: None,
        stream_name: None,
        display_name: id.into(),
    }
}

fn graph_of(sources: Vec<SourceSpec>) -> RouteGraph {
    RouteGraph {
        sources,
        buses: vec![BusSpec { id: BusId("mix".into()), display_name: "mix".into() }],
        sinks: vec![SinkSpec {
            id: SinkId("sink".into()),
            endpoint_id: EndpointId("render".into()),
            display_name: "Render".into(),
            kind: SinkKind::Device,
            stream_name: None,
            remote_addr: None,
        }],
        sends: vec![
            SendSpec::SourceToBus {
                id: SendId("in".into()),
                source_id: SourceId("source-0".into()),
                bus_id: BusId("mix".into()),
                gain_db: Decibels { bits: 0 },
                muted: false,
                enabled: true,
                channel_map: Vec::new(),
            },
            SendSpec::BusToSink {
                id: SendId("out".into()),
                bus_id: BusId("mix".into()),
                sink_id: SinkId("sink".into()),
                gain_db: Decibels { bits: 0 },
                muted: false,
                enabled: true,
                channel_map: Vec::new(),
            },
        ],
    }
}

fn config(kind: SourceKind, count: usize) -> AudioEngineConfig {
    let sources = (0..count)
        .map(|index| {
            source(
                &format!("source-{index}"),
                match kind {
                    SourceKind::DeviceCapture => SourceKind::DeviceCapture,
                    SourceKind::DeviceLoopback => SourceKind::DeviceLoopback,
                    SourceKind::ProcessLoopback => SourceKind::ProcessLoopback,
                    SourceKind::Vban => SourceKind::Vban,
                },
                Some(&format!("capture-{index}")),
                None,
            )
        })
        .collect();
    AudioEngineConfig::new(RouteGraphSnapshot::new(graph_of(sources)).unwrap())
}

fn process_config(pid: Option<u32>) -> AudioEngineConfig {
    AudioEngineConfig::new(
        RouteGraphSnapshot::new(graph_of(vec![source(
            "source-0",
            SourceKind::ProcessLoopback,
            None,
            pid,
        )]))
        .unwrap(),
    )
}

#[test]
fn validates_minimum_runtime_topology() {
    let engine = AudioEngine::new(config(SourceKind::DeviceCapture, 1)).unwrap();
    assert!(!engine.status().running);
    assert_eq!(engine.status().state, AudioEngineState::Stopped);

    assert!(AudioEngine::new(config(SourceKind::DeviceLoopback, 1)).is_ok());
    assert!(AudioEngine::new(config(SourceKind::DeviceCapture, 2)).is_ok());
    assert!(matches!(
        AudioEngine::new(AudioEngineConfig::new(
            RouteGraphSnapshot::new(RouteGraph::default()).unwrap()
        )),
        Err(AudioEngineError::UnsupportedTopology)
    ));

    assert!(AudioEngine::new(process_config(Some(1234))).is_ok());
    assert!(matches!(
        AudioEngine::new(process_config(None)),
        Err(AudioEngineError::MissingProcessId)
    ));
}

#[test]
fn treats_process_pid_change_as_topology_change() {
    let previous = graph_of(vec![source(
        "source-0",
        SourceKind::ProcessLoopback,
        None,
        Some(1234),
    )]);
    let mut next = previous.clone();
    assert!(!topology_changed(&previous, &next));
    next.sources[0].process_id = Some(5678);
    assert!(topology_changed(&previous, &next));
}

#[test]
fn publishes_degraded_for_device_failure_and_failed_for_other_errors() {
    let mut state = AudioEngineState::Running;
    let mut stop = false;
    let mut error = None;
    let device_error = WindowsAudioError::HResult {
        operation: "IAudioClient::Start",
        hresult: AUDCLNT_E_DEVICE_INVALIDATED,
        endpoint_id: Some("capture-id".into()),
    };
    fail_windows(&mut state, &mut stop, &mut error, &device_error);
    assert_eq!(state, AudioEngineState::Degraded);
    assert!(stop);
    assert!(error.is_some());

    state = AudioEngineState::Running;
    stop = false;
    let ordinary_error = WindowsAudioError::HResult {
        operation: "IAudioClient::Initialize",
        hresult: -2,
        endpoint_id: Some("capture-id".into()),
    };
    fail_windows(&mut state, &mut stop, &mut error, &ordinary_error);
    assert_eq!(state, AudioEngineState::Failed);
    assert!(stop);
}

fn inactive() -> WindowsAudioError {
    WindowsAudioError::CaptureState {
        reason: "endpoint 不是 active 状态",
        endpoint_id: "capture-id".into(),
    }
}

#[test]
fn keeps_degraded_when_another_worker_reports_after_device_failure() {
    let mut state = AudioEngineState::Running;
    let mut stop = false;
    let mut error = None;
    let device_error = inactive();
    let expected_error = device_error.message();
    fail_windows(&mut state, &mut stop, &mut error, &device_error);
    fail(&mut state, &mut stop, &mut error, "render worker 收尾时 FIFO 已停止".into());
    assert_eq!(state, AudioEngineState::Degraded);
    assert_eq!(error.as_deref(), Some(expected_error.as_str()));
}

#[test]
fn keeps_reconnecting_when_probe_session_is_unavailable() {
    let mut state = AudioEngineState::Reconnecting;
    let mut stop = false;
    let mut error = None;
    fail_windows(&mut state, &mut stop, &mut error, &inactive());
    assert_eq!(state, AudioEngineState::Reconnecting);
    assert!(stop);
}

#[test]
fn reconnect_window_covers_driver_reenumeration_delay() {
    let attempts = DEFAULT_RECONNECT_ATTEMPTS;
    let delay = RECONNECT_DELAY_MILLIS;
    assert!(attempts >= 60);
    assert!(delay >= 250);
    assert!(delay * attempts as u64 >= 30_000);
}

#[test]
fn exposes_all_recovery_states() {
    for state in [
        AudioEngineState::Running,
        AudioEngineState::Degraded,
        AudioEngineState::Reconnecting,
        AudioEngineState::Failed,
        AudioEngineState::Stopped,
    ] {
        assert_eq!(AudioEngineState::from_raw(state.as_raw()), state);
    }
    assert_eq!(AudioEngineState::from_raw(0), AudioEngineState::Stopped);
    assert_eq!(AudioEngineState::from_raw(1), AudioEngineState::Running);
    assert_eq!(AudioEngineState::from_raw(2), AudioEngineState::Degraded);
    assert_eq!(AudioEngineState::from_raw(3), AudioEngineState::Reconnecting);
    assert_eq!(AudioEngineState::from_raw(4), AudioEngineState::Failed);
}

#[test]
fn rejects_invalid_timing_configuration() {
    let mut zero_block_config = config(SourceKind::DeviceCapture, 1);
    zero_block_config.block_frames = 0;
    assert!(matches!(
        AudioEngine::new(zero_block_config),
        Err(AudioEngineError::ZeroBlockFrames)
    ));

    let mut small_fifo_config = config(SourceKind::DeviceCapture, 1);
    small_fifo_config.fifo_capacity_frames = 1;
    assert!(matches!(
        AudioEngine::new(small_fifo_config),
        Err(AudioEngineError::FifoTooSmall)
    ));
}

#[test]
fn defaults_to_a_buffer_large_enough_for_startup_prefill() {
    let config = config(SourceKind::DeviceCapture, 1);
    assert_eq!(
        config.fifo_capacity_frames,
        config.block_frames * DEFAULT_FIFO_CAPACITY_BLOCKS
    );
    assert!(config.fifo_capacity_frames >= config.block_frames * STARTUP_PREFILL_BLOCKS);
}

#[test]
fn underflow_grace_requires_two_audio_blocks() {
    assert_eq!(underflow_grace_period(10 * MILLI), 20 * MILLI);
}

#[test]
fn preserves_available_audio_when_render_fifo_underflows() {
    let read = [1.0, -1.0];
    assert_eq!(fill_buffer(&read, 2, 0.0), vec![1.0, -1.0, 0.0, 0.0]);
}

fn peak(samples: &[f32]) -> f32 {
    let bits: Vec<u32> = samples.iter().map(|sample| sample.to_bits()).collect();
    f32::from_bits(packet_peak(&bits))
}

#[test]
fn packet_peak_empty_returns_zero() {
    assert_eq!(peak(&[]), 0.0);
}

#[test]
fn packet_peak_ignores_silence() {
    assert_eq!(peak(&[0.0, 0.0, 0.0, 0.0]), 0.0);
}

#[test]
fn packet_peak_takes_absolute_maximum() {
    let samples = [0.5, -0.8, 0.1, -0.3, 0.02];
    assert_eq!(peak(&samples), 0.8);
}

#[test]
fn packet_peak_ignores_nan_samples() {
    let samples = [0.5, f32::NAN, -0.2];
    assert_eq!(peak(&samples), 0.5);
}

#[test]
fn non_silent_threshold_is_minus_80_dbfs() {
    assert!(!is_non_silent(0.0f32.to_bits()));
    assert!(!is_non_silent(1e-5f32.to_bits()));
    assert!(is_non_silent(1e-3f32.to_bits()));
    assert!(is_non_silent(0.5f32.to_bits()));
}

#[test]
fn reports_underflow_for_one_starved_source_even_when_another_is_ready() {
    assert!(should_report_source_underflow(0, 480, 20 * MILLI, false, 20 * MILLI));
    assert!(!should_report_source_underflow(480, 480, 20 * MILLI, false, 20 * MILLI));
    assert!(!should_report_source_underflow(0, 480, 20 * MILLI, true, 20 * MILLI));
}

#[test]
fn capture_resampler_uses_configured_block_size() {
    let source_format = EndpointFormat {
        sample_rate: 44_100,
        bits_per_sample: 32,
        channels: INTERNAL_CHANNELS as u16,
        channel_mask: 3,
        is_float: true,
        is_pcm: false,
    };
    for block_frames in [240, 960] {
        let resampler = CaptureResampler::new(Some(source_format), block_frames).unwrap();
        assert_eq!(resampler.output_block.len(), block_frames * INTERNAL_CHANNELS);
        assert_eq!(
            resampler.resampler.as_ref().unwrap().output_frames(),
            block_frames
        );
    }
}

#[test]
fn an_engine_starts_once_and_stops_once() {
    let mut engine = AudioEngine::new(config(SourceKind::DeviceCapture, 1)).unwrap();
    assert!(matches!(engine.stop(), Err(AudioEngineError::NotRunning)));
    engine.start().unwrap();
    assert!(engine.status().running);
    assert!(matches!(engine.start(), Err(AudioEngineError::AlreadyRunning)));
    engine.request_stop().unwrap();
    engine.stop().unwrap();
    assert_eq!(engine.status().state, AudioEngineState::Stopped);
    assert!(matches!(engine.request_stop(), Err(AudioEngineError::NotRunning)));
}

#[test]
fn a_running_engine_keeps_its_endpoints() {
    let mut engine = AudioEngine::new(config(SourceKind::DeviceCapture, 1)).unwrap();
    engine.start().unwrap();
    let unchanged = RouteGraphSnapshot::new(engine.graph().graph().clone()).unwrap();
    assert!(matches!(engine.update_graph(unchanged), Err(AudioEngineError::NotRunning)));
    engine.take_report(EngineReport {
        state: AudioEngineState::Running,
        last_error: None,
        stats: AudioEngineStats::default(),
        session_open: true,
    });
    let mut graph = engine.graph().graph().clone();
    assert!(engine.update_graph(RouteGraphSnapshot::new(graph.clone()).unwrap()).is_ok());
    graph.sinks[0].endpoint_id = EndpointId("another".into());
    assert!(matches!(
        engine.update_graph(RouteGraphSnapshot::new(graph).unwrap()),
        Err(AudioEngineError::EndpointChangeRequiresRestart)
    ));
}

#[test]
fn a_first_session_that_fails_for_no_device_ends_the_engine() {
    let mut supervisor = Supervisor::new();
    supervisor.advance(SupervisorEvent::Begun);
    for _ in 0..2 * DEFAULT_RECONNECT_ATTEMPTS + 2 {
        match supervisor.step {
            SupervisorStep::Delay => {
                supervisor.advance(SupervisorEvent::DelayOver { needs_check: true })
            }
            SupervisorStep::CheckEndpoints => {
                supervisor.advance(SupervisorEvent::Checked(Ok(true)))
            }
            SupervisorStep::StartSession => {
                supervisor.state = AudioEngineState::Degraded;
                supervisor.advance(SupervisorEvent::SessionRefused { reason: "gone".into() })
            }
            _ => {}
        }
    }
    assert_eq!(supervisor.step, SupervisorStep::Finish);
    assert!(supervisor.last_error.is_some());
}

#[test]
fn deadlines_do_not_drift() {
    assert_eq!(pace(100, 10, 105), (110, 5));
    let (next, wait) = pace(100, 10, 500);
    assert_eq!(wait, 0);
    assert!(next >= 110);
}

#[test]
fn a_mixer_waits_until_a_source_has_the_prefill() {
    let mut stats = AudioEngineStats::default();
    let mut schedule = MixerSchedule::new(2, 480, 480 * 32, 10 * MILLI, 0);
    assert_eq!(schedule.tick(&vec![959, 0], 0, &mut stats), MixerTick::Wait);
    assert_eq!(schedule.tick(&vec![960, 0], 0, &mut stats), MixerTick::Mix);
    assert_eq!(schedule.after_block(0), 10 * MILLI);
    assert_eq!(schedule.tick(&vec![960, 0], 10 * MILLI, &mut stats), MixerTick::Mix);
    schedule.tick(&vec![960, 0], 40 * MILLI, &mut stats);
    assert_eq!(stats.fifo_underflows, 1);
}

#[test]
fn a_block_goes_from_the_sources_to_the_sinks() {
    let graph = graph_of(vec![source("source-0", SourceKind::DeviceCapture, None, None)]);
    let mut plan = MixerPlan::new(&graph, 2, 2, 2, 0u32, &|gain: Decibels| {
        10f32.powf(f32::from_bits(gain.bits) / 20.0).to_bits()
    })
    .ok()
    .unwrap();
    let (mut source_producer, source_consumer) = AudioFifo::split(8, 2).ok().unwrap();
    let (sink_producer, mut sink_consumer) = AudioFifo::split(8, 2).ok().unwrap();
    let samples: Vec<u32> = [0.5f32, -0.5, 0.25, -0.25].iter().map(|s| s.to_bits()).collect();
    source_producer.push_interleaved(&samples).unwrap();
    let mut stats = AudioEngineStats::default();
    let written = mix_block(
        &mut plan,
        &SampleOps {
            scale: |a: u32, b: u32| (f32::from_bits(a) * f32::from_bits(b)).to_bits(),
            add: |a: u32, b: u32| (f32::from_bits(a) + f32::from_bits(b)).to_bits(),
            magnitude: |a: u32| f32::from_bits(a).abs().to_bits(),
            louder: |a: u32, b: u32| f32::from_bits(a) > f32::from_bits(b),
        },
        &mut vec![source_consumer],
        &mut vec![sink_producer],
        &mut vec![vec![0; 4]],
        &mut vec![vec![0; 4]],
        2,
        &mut stats,
    )
    .unwrap();
    assert_eq!(written, vec![2]);
    let mut block = vec![0; 4];
    assert_eq!(sink_consumer.pop_interleaved(&mut block).unwrap().frames(), 2);
    assert_eq!(block, samples);

    let linear = |gain: Decibels| 10f32.powf(f32::from_bits(gain.bits) / 20.0).to_bits();
    take_graph(&mut plan, &graph, 2, &linear, &mut stats).unwrap();
    assert_eq!(stats.graph_updates, 1);
    assert!(take_graph(&mut plan, &graph, 0, &linear, &mut stats).is_err());
    assert_eq!(stats.graph_updates, 1);
}

#[test]
fn a_rendered_block_stays_until_the_device_takes_it() {
    let (mut producer, mut consumer) = AudioFifo::split(16, 2).ok().unwrap();
    let samples: Vec<u32> = (0..16).collect();
    producer.push_interleaved(&samples).unwrap();
    let mut schedule = RenderSchedule::new(4, 16, MILLI, 0);
    let mut stats = AudioEngineStats::default();
    let mut block = vec![0; 8];
    assert!(prepare_block(&mut schedule, &mut consumer, &mut block, 0, &mut stats));
    assert_eq!(block, &samples[..8]);
    schedule.after_write(RenderWriteResult::NoSpace, &block, 0, &mut stats);
    assert_eq!(stats.render_no_space, 1);
    assert!(prepare_block(&mut schedule, &mut consumer, &mut block, 0, &mut stats));
    assert_eq!(block, &samples[..8]);
    schedule.after_write(RenderWriteResult::Written { frames: 4 }, &block, 0, &mut stats);
    assert_eq!(stats.rendered_frames, 4);
    assert!(prepare_block(&mut schedule, &mut consumer, &mut block, MILLI, &mut stats));
    assert_eq!(block, &samples[8..]);
}

#[test]
fn a_captured_packet_is_queued_and_counted() {
    let (mut producer, mut consumer) = AudioFifo::split(4, 2).ok().unwrap();
    let mut stats = AudioEngineStats::default();
    let packet =
        CapturePacket { frames: 2, silent: false, discontinuity: true, timestamp_error: false };
    let data = [0.5f32.to_bits(); 4];
    assert_eq!(pass_packet(&mut producer, packet, Some(&data), &[0; 4], true, &mut stats), 2);
    let silent =
        CapturePacket { frames: 3, silent: true, discontinuity: false, timestamp_error: false };
    assert_eq!(pass_packet(&mut producer, silent, None, &[0; 4], false, &mut stats), 2);
    assert_eq!(stats.capture_packets, 2);
    assert_eq!(stats.captured_frames, 5);
    assert_eq!(stats.startup_discontinuities, 1);
    assert_eq!(stats.runtime_discontinuities, 0);
    assert_eq!(stats.fifo_dropped_frames, 1);
    let mut block = vec![7; 8];
    assert_eq!(consumer.pop_interleaved(&mut block).unwrap().frames(), 4);
    assert_eq!(&block[..4], &data);
    assert_eq!(&block[4..], &[0; 4]);
}

#[test]
fn resampled_input_is_taken_in_whole_blocks() {
    let mut resampler = CaptureResampler::new(
        Some(EndpointFormat {
            sample_rate: 44_100,
            bits_per_sample: 32,
            channels: 2,
            channel_mask: 3,
            is_float: true,
            is_pcm: false,
        }),
        480,
    ).unwrap();
    resampler.reserve(8, 3);
    assert!(resampler.append_samples(&[1, 2, 3, 4]));
    assert_eq!(resampler.next_input(3), None);
    assert!(resampler.append_silence(2));
    assert_eq!(resampler.next_input(3), Some(vec![1, 2, 3, 4, 0, 0]));
    assert_eq!(resampler.next_input(3), None);
}

#[test]
fn a_source_says_what_it_is_captured_from() {
    let capture = |kind, endpoint, pid| capture_target(&source("source-0", kind, endpoint, pid));
    assert_eq!(
        capture(SourceKind::DeviceCapture, Some("mic"), None),
        Ok(CaptureTarget::Device(EndpointId("mic".into())))
    );
    assert_eq!(
        capture(SourceKind::DeviceLoopback, Some("out"), None),
        Ok(CaptureTarget::DeviceLoopback(EndpointId("out".into())))
    );
    assert_eq!(
        capture(SourceKind::ProcessLoopback, None, Some(7)),
        Ok(CaptureTarget::Process(7))
    );
    assert_eq!(capture(SourceKind::Vban, None, None), Ok(CaptureTarget::Network));
    assert!(capture(SourceKind::ProcessLoopback, None, None).is_err());
}

#[test]
fn endpoints_are_checked_one_by_one() {
    let config = config(SourceKind::DeviceCapture, 1);
    assert_eq!(graph_sink_endpoints(&config.graph), vec![EndpointId("render".into())]);
    let checks = endpoint_checks(&config.graph);
    assert_eq!(checks.len(), 2);
    assert_eq!(checks[0].flow, EndpointFlow::Capture);
    assert_eq!(checks[1].flow, EndpointFlow::Render);
    assert_eq!(all_endpoints_active(vec![Ok(true), Ok(true)]), Ok(true));
    assert_eq!(all_endpoints_active(vec![Ok(true), Ok(false)]), Ok(false));
    assert_eq!(all_endpoints_active(vec![Err(inactive()), Ok(true)]), Err(inactive()));
}
