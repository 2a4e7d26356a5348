use loopmaster::decibels::Decibels;
use loopmaster::diagnostics::{
    capture_graph, describe_failure, engine_verdict, parse_arguments, process_graph,
    trial_seconds, DiagnosticsCommand, LiveOutput, LiveReport, StateObservation, TrialCounts,
};
use loopmaster::fifo::AudioFifo;
use loopmaster::runtime::engine::EngineReport;
use loopmaster::runtime::status::{AudioEngineState, AudioEngineStats, AudioEngineStatus};
use loopmaster::window::{
    describe_counts, effective_mute, label_process, preserve_selection_index,
    preserve_text_index, AppState, ShownEntries,
};
use loopmaster::windows::endpoint::WindowsAudioError;
use loopmaster::windows::stream::CapturePacket;

fn show_gain(gain: Decibels) -> String {
    format!("{}", f32::from_bits(gain.bits))
}

#[test]
fn route_is_muted_when_either_side_is_disabled() {
    assert!(!effective_mute(true, true));
    assert!(effective_mute(false, true));
    assert!(effective_mute(true, false));
    assert!(effective_mute(false, false));
}

#[test]
fn refresh_preserves_existing_process_selection_by_pid() {
    let old_pid = 7440;
    assert_eq!(
        preserve_selection_index(Some(&old_pid), &[19556, old_pid, 3024], 0),
        1
    );
}

#[test]
fn refresh_clears_selection_when_process_has_exited() {
    let old_pid = 7440;
    assert_eq!(
        preserve_selection_index(Some(&old_pid), &[19556, 3024], 1),
        -1
    );
}

#[test]
fn refresh_uses_valid_fallback_when_no_previous_selection_exists() {
    assert_eq!(preserve_selection_index::<u32>(None, &[19556, 3024], 1), 1);
    assert_eq!(preserve_selection_index::<u32>(None, &[19556, 3024], 8), 0);
    assert_eq!(preserve_selection_index::<u32>(None, &[], -1), -1);
}

#[test]
fn sinks_are_found_again_by_their_id() {
    let ids = vec!["a".to_owned(), "b".to_owned()];
    assert_eq!(preserve_text_index(Some(&"b".to_owned()), &ids, 0), 1);
    assert_eq!(preserve_text_index(Some(&"c".to_owned()), &ids, 0), -1);
    assert_eq!(preserve_text_index(None, &ids, 1), 1);
}

#[test]
fn the_window_starts_the_route_that_it_shows() {
    let mut state = AppState::new();
    let nothing = ShownEntries { source_index: -1, output_index: -1 };
    assert!(state.build_graph(nothing).is_err());
    assert_eq!(state.set_processes(vec![40, 41], 1), 1);
    assert_eq!(state.set_sinks(vec!["speaker".into()], 0), 0);
    let shown = ShownEntries { source_index: 1, output_index: 0 };
    let graph = state.build_graph(shown).unwrap();
    assert_eq!(graph.sources[0].process_id, Some(41));
    assert_eq!(graph.sinks[0].endpoint_id.0, "speaker");
    assert_eq!(state.start_engine(shown, &show_gain), "Running");
    assert!(state.running());
    state.take_report(EngineReport {
        state: AudioEngineState::Running,
        last_error: None,
        stats: AudioEngineStats::default(),
        session_open: true,
    });
    assert_eq!(state.poll_status(), Some(AudioEngineState::Running));
    assert!(state
        .apply_send_change(shown, Some(Decibels { bits: (-6.0f32).to_bits() }), Some(true), &show_gain)
        .is_none());
    state.stop_engine();
    assert!(!state.running());
}

#[test]
fn a_refresh_keeps_what_was_selected() {
    let mut state = AppState::new();
    state.set_processes(vec![40, 41], 0);
    state.set_sinks(vec!["speaker".into(), "headset".into()], 0);
    let shown = ShownEntries { source_index: 1, output_index: 1 };
    assert!(state.request_refresh(shown));
    assert!(!state.request_refresh(shown));
    assert_eq!(state.set_processes(vec![41, 50], 1), 0);
    assert_eq!(state.set_sinks(vec!["headset".into()], 1), 0);
    state.refresh_ended();
    assert!(state.request_refresh(shown));
}

#[test]
fn lines_are_shown_in_their_fixed_form() {
    assert_eq!(label_process("player.exe", 41), "player.exe (PID 41)");
    let stats = AudioEngineStats { capture_packets: 3, render_writes: 2, ..AudioEngineStats::default() };
    assert_eq!(
        describe_counts(&stats, "-6.0"),
        "capture packet: 3 | render writes: 2 | underflow: 0 | discontinuity: 0 | peak: -6.0 dBFS"
    );
}

#[test]
fn state_observation_counts_only_state_changes() {
    let mut observation = StateObservation::new(AudioEngineState::Running);
    observation.observe(AudioEngineState::Running);
    observation.observe(AudioEngineState::Degraded);
    observation.observe(AudioEngineState::Reconnecting);
    observation.observe(AudioEngineState::Running);
    observation.observe(AudioEngineState::Failed);
    observation.observe(AudioEngineState::Failed);

    assert_eq!(observation.first, Some(AudioEngineState::Running));
    assert_eq!(observation.last, Some(AudioEngineState::Failed));
    assert_eq!(observation.transition_count(AudioEngineState::Running), 1);
    assert_eq!(observation.transition_count(AudioEngineState::Degraded), 1);
    assert_eq!(observation.transition_count(AudioEngineState::Reconnecting), 1);
    assert_eq!(observation.transition_count(AudioEngineState::Failed), 1);
}

fn command(words: &[&str]) -> DiagnosticsCommand {
    parse_arguments(&words.iter().map(|word| word.to_string()).collect())
}

#[test]
fn the_command_line_is_read() {
    assert_eq!(command(&["diagnostics"]), DiagnosticsCommand::List);
    assert_eq!(
        command(&["diagnostics", "mic", "out"]),
        DiagnosticsCommand::CaptureRender {
            capture_id: "mic".into(),
            render_id: "out".into(),
            seconds: 10,
        }
    );
    assert_eq!(
        command(&["diagnostics", "--engine", "mic", "out", "3"]),
        DiagnosticsCommand::Engine {
            capture_id: "mic".into(),
            render_id: "out".into(),
            seconds: 3,
        }
    );
    assert_eq!(
        command(&["diagnostics", "--process-engine", "77", "out", "x"]),
        DiagnosticsCommand::ProcessEngine { pid: 77, render_id: "out".into(), seconds: 10 }
    );
}

#[test]
fn trial_graphs_are_valid() {
    let capture = capture_graph("mic", "out");
    capture.validate().unwrap();
    assert_eq!(capture.sources.len(), 1);
    assert_eq!(capture.sinks.len(), 1);
    assert!(process_graph(0, "out").is_none());
    process_graph(7, "out").unwrap().validate().unwrap();
    assert_eq!(trial_seconds(0), 1);
    assert_eq!(trial_seconds(9), 9);
}

#[test]
fn a_live_report_tells_changes_at_once_and_counts_now_and_then() {
    let mut output = LiveOutput { last_state: AudioEngineState::Running, last_output: 0 };
    assert_eq!(output.report(AudioEngineState::Running, 10), LiveReport::Nothing);
    assert_eq!(
        output.report(AudioEngineState::Degraded, 20),
        LiveReport::Changed { from: AudioEngineState::Running }
    );
    assert_eq!(output.report(AudioEngineState::Degraded, 2_000), LiveReport::Counts);
}

#[test]
fn a_trial_ends_with_a_verdict() {
    let mut status = AudioEngineStatus {
        state: AudioEngineState::Stopped,
        running: false,
        failed: false,
        last_error: None,
        stats: AudioEngineStats::default(),
    };
    assert_ne!(engine_verdict(&status), 0);
    status.stats.capture_packets = 1;
    status.stats.rendered_frames = 1;
    assert_eq!(engine_verdict(&status), 0);
    let mut counts = TrialCounts::new();
    assert_ne!(counts.verdict(), 0);
    counts.count_write(480);
    assert_eq!(counts.render_frames, 480);
    assert!(describe_failure("open", &WindowsAudioError::UnsupportedPlatform).contains("open"));
}

#[test]
fn a_trial_takes_packets_as_they_are() {
    let (mut producer, mut consumer) = AudioFifo::split(4, 2).ok().unwrap();
    let mut counts = TrialCounts::new();
    let quiet = [0u32; 2];
    let packet = |frames: u32, silent: bool| CapturePacket {
        frames,
        silent,
        discontinuity: false,
        timestamp_error: false,
    };
    assert_eq!(counts.take_packet(&mut producer, &packet(2, false), None, &quiet), 0);
    assert_eq!(counts.fifo_overflows, 0);
    let samples = [5u32, 6];
    let taken = counts.take_packet(&mut producer, &packet(1, false), Some(&samples), &quiet);
    assert_eq!(taken, 1);
    assert_eq!(counts.take_packet(&mut producer, &packet(2, true), None, &quiet), 2);
    assert_eq!(counts.fifo_overflows, 0);
    assert_eq!(counts.take_packet(&mut producer, &packet(2, true), None, &quiet), 1);
    assert_eq!(counts.fifo_overflows, 1);
    assert_eq!(counts.packets, 4);
    assert_eq!(counts.captured_frames, 7);
    let mut output = [9u32; 8];
    assert_eq!(consumer.pop_interleaved(&mut output).unwrap().frames(), 4);
    assert_eq!(output, [5, 6, 0, 0, 0, 0, 0, 0]);
}
