//! What the engine does while it runs, said of what it is told and what it counts.

use crate::faults::lemma_first_fault_none;
use crate::fifo::{AudioFifoConsumer, AudioFifoProducer};
use crate::routing::{GraphModel, SinkKind, SourceKind, SourceModel};
use crate::runtime::capture::{
    block_read, block_written, capture_resampler_fault, captured_peak_counted, converted_format,
    dropped_counted, packet_counted, packet_samples, silence, target_of, TargetModel,
};
use crate::runtime::config::{
    activity_verdict, config_fault, sink_streams, sinks_checks, source_lack, source_streams,
    sources_checks, CheckModel, EngineFault,
};
use crate::runtime::engine::EngineModel;
use crate::runtime::mixing::{
    most_available, newly_starved, paced, prefill_of, sinks_counted, starved, Starvation,
};
use crate::runtime::rendering::{block_prepared, RenderSchedule, RenderStep};
use crate::runtime::status::{
    bumped, is_loud, state_after_fault, AudioEngineState, AudioEngineStats,
};
use crate::runtime::supervisor::{SupervisorEventModel, SupervisorModel, SupervisorStep};
use crate::windows::endpoint::{EndpointFlow, EndpointFormat, WindowsAudioError, WindowsFault};
use crate::windows::stream::CapturePacket;
use vstd::prelude::*;

verus! {

/// A count grows by what is added to it, until it has no more numbers.
pub proof fn law_counts_add_up(count: u64, by: nat)
    requires
        count + by <= u64::MAX,
    ensures
        bumped(count, by) == count + by,
{
}

/// Of a packet every frame counts, and every defect once: one at the start of a stream apart
/// from one on the way.
pub proof fn law_packets_are_counted(stats: AudioEngineStats, packet: CapturePacket, first: bool)
    requires
        stats.capture_packets < u64::MAX,
        stats.captured_frames + packet.frames <= u64::MAX,
        stats.discontinuities < u64::MAX,
        stats.startup_discontinuities < u64::MAX,
        stats.runtime_discontinuities < u64::MAX,
        stats.timestamp_errors < u64::MAX,
    ensures
        ({
            let after = packet_counted(stats, packet, first);
            let jump = if packet.discontinuity {
                1int
            } else {
                0
            };
            &&& after.capture_packets == stats.capture_packets + 1
            &&& after.captured_frames == stats.captured_frames + packet.frames
            &&& after.discontinuities == stats.discontinuities + jump
            &&& after.startup_discontinuities + after.runtime_discontinuities
                == stats.startup_discontinuities + stats.runtime_discontinuities + jump
            &&& first ==> after.runtime_discontinuities == stats.runtime_discontinuities
            &&& !first ==> after.startup_discontinuities == stats.startup_discontinuities
            &&& after.timestamp_errors == stats.timestamp_errors + (if packet.timestamp_error {
                1int
            } else {
                0
            })
            &&& after.rendered_frames == stats.rendered_frames
            &&& after.fifo_dropped_frames == stats.fifo_dropped_frames
            &&& after.fifo_underflows == stats.fifo_underflows
        }),
{
}

/// Frames that a queue has no room for count as dropped, and as one overflow however many they
/// are; where none is dropped nothing counts.
pub proof fn law_drops_are_counted(stats: AudioEngineStats, dropped: nat)
    requires
        stats.fifo_overflows < u64::MAX,
        stats.fifo_dropped_frames + dropped <= u64::MAX,
    ensures
        ({
            let after = dropped_counted(stats, dropped);
            &&& after.fifo_dropped_frames == stats.fifo_dropped_frames + dropped
            &&& after.fifo_overflows == stats.fifo_overflows + (if dropped > 0 {
                1int
            } else {
                0
            })
            &&& after.captured_frames == stats.captured_frames
            &&& after.capture_packets == stats.capture_packets
        }),
{
}

/// What the sinks had no room for counts as dropped, over all of them.
pub proof fn law_sinks_drop_what_they_cannot_take(
    stats: AudioEngineStats,
    written: Seq<nat>,
    n: nat,
    block_frames: nat,
)
    requires
        0 < n <= written.len(),
        written[n - 1] <= block_frames,
        sinks_counted(stats, written, (n - 1) as nat, block_frames).fifo_dropped_frames
            + block_frames <= u64::MAX,
    ensures
        sinks_counted(stats, written, 0, block_frames) == stats,
        sinks_counted(stats, written, n, block_frames).fifo_dropped_frames == sinks_counted(
            stats,
            written,
            (n - 1) as nat,
            block_frames,
        ).fifo_dropped_frames + (block_frames - written[n - 1]),
{
}

/// The loudest peak of a recording is kept, and a packet that can be heard counts.
pub proof fn law_loudest_peak_is_kept(stats: AudioEngineStats, peak: u32)
    requires
        stats.non_silent_packets < u64::MAX,
        peak < 0x7f80_0000,
    ensures
        ({
            let after = captured_peak_counted(stats, peak);
            &&& after.captured_peak >= stats.captured_peak
            &&& after.captured_peak >= peak
            &&& after.captured_peak == peak || after.captured_peak == stats.captured_peak
            &&& after.non_silent_packets == stats.non_silent_packets + (if is_loud(peak) {
                1int
            } else {
                0
            })
            &&& is_loud(peak) <==> peak > 0x38d1_b717
        }),
{
}

/// A packet that the device calls silent is silence of its length, whatever came with it; of
/// any other packet the samples are what came.
pub proof fn law_silent_packets_are_silent(packet: CapturePacket, data: Option<Seq<u32>>, i: int)
    ensures
        packet.silent ==> (packet_samples(packet, data) matches Some(samples) && samples.len() == 2
            * packet.frames && (0 <= i < samples.len() ==> samples[i] == 0)),
        !packet.silent ==> packet_samples(packet, data) == data,
{
}

/// A source is read from what its kind says: a device from its endpoint, a process from its
/// number, the network from nothing here. What it lacks for that is told, and an engine is not
/// configured with it.
pub proof fn law_sources_are_read_by_their_kind(source: SourceModel)
    ensures
        match (source.kind, source.endpoint_id, source.process_id) {
            (SourceKind::DeviceCapture, Some(id), _) => target_of(source) == Ok::<
                TargetModel,
                Seq<char>,
            >(TargetModel::Device(id)) && source_lack(source) is None,
            (SourceKind::DeviceLoopback, Some(id), _) => target_of(source) == Ok::<
                TargetModel,
                Seq<char>,
            >(TargetModel::DeviceLoopback(id)) && source_lack(source) is None,
            (SourceKind::DeviceCapture, None, _) => target_of(source) is Err && source_lack(source)
                == Some(EngineFault::MissingSourceEndpoint),
            (SourceKind::DeviceLoopback, None, _) => target_of(source) is Err && source_lack(source)
                == Some(EngineFault::MissingSourceEndpoint),
            (SourceKind::ProcessLoopback, _, Some(pid)) => if pid > 0 {
                target_of(source) == Ok::<TargetModel, Seq<char>>(TargetModel::Process(pid))
                    && source_lack(source) is None
            } else {
                target_of(source) is Err && source_lack(source) == Some(
                    EngineFault::MissingProcessId,
                )
            },
            (SourceKind::ProcessLoopback, _, None) => target_of(source) is Err && source_lack(
                source,
            ) == Some(EngineFault::MissingProcessId),
            (SourceKind::Vban, _, _) => target_of(source) == Ok::<TargetModel, Seq<char>>(
                TargetModel::Network,
            ) && source_lack(source) is None,
        },
{
}

/// An engine is configured exactly with blocks that are not empty, queues that hold a block, a
/// source and a sink at least, and sources that name what they are read from.
pub proof fn law_engine_needs_something_to_do(graph: GraphModel, block: nat, queue: nat)
    ensures
        config_fault(graph, block, queue) is None <==> {
            &&& block > 0
            &&& queue >= block
            &&& graph.sources.len() > 0
            &&& graph.sinks.len() > 0
            &&& forall|i: int|
                0 <= i < graph.sources.len() ==> target_of(#[trigger] graph.sources[i]) is Ok
        },
        block == 0 ==> config_fault(graph, block, queue) == Some(EngineFault::ZeroBlockFrames),
        0 < block && queue < block ==> config_fault(graph, block, queue) == Some(
            EngineFault::FifoTooSmall,
        ),
        0 < block <= queue && (graph.sources.len() == 0 || graph.sinks.len() == 0) ==> config_fault(
            graph,
            block,
            queue,
        ) == Some(EngineFault::UnsupportedTopology),
{
    let check = |i: int| source_lack(graph.sources[i]);
    lemma_first_fault_none(graph.sources.len(), check);
    assert forall|i: int| 0 <= i < graph.sources.len() implies ((#[trigger] check(i)) is None <==> (
    target_of(graph.sources[i]) is Ok)) by {
        law_sources_are_read_by_their_kind(graph.sources[i]);
    }
    if config_fault(graph, block, queue) is None {
        assert forall|i: int| 0 <= i < graph.sources.len() implies target_of(
            #[trigger] graph.sources[i],
        ) is Ok by {
            assert(check(i) is None);
        }
    }
    if forall|i: int| 0 <= i < graph.sources.len() ==> target_of(#[trigger] graph.sources[i]) is Ok {
        assert forall|i: int| 0 <= i < graph.sources.len() implies (#[trigger] check(i)) is None by {
            assert(target_of(graph.sources[i]) is Ok);
        }
    }
}

/// A running engine takes a graph exactly where it can be configured with it, a session is
/// there, and the graph has the same sources and sinks on the same streams: same identifiers,
/// kinds, endpoints and processes, in the same order.
pub proof fn law_running_engine_keeps_its_streams(engine: EngineModel, graph: GraphModel)
    ensures
        engine.update_fault(graph) is None <==> {
            &&& config_fault(
                graph,
                engine.block_frames as nat,
                engine.fifo_capacity_frames as nat,
            ) is None
            &&& engine.session_open
            &&& graph.sources.len() == engine.graph.sources.len()
            &&& graph.sinks.len() == engine.graph.sinks.len()
            &&& forall|i: int|
                0 <= i < graph.sources.len() ==> (#[trigger] graph.sources[i]).id
                    == engine.graph.sources[i].id && graph.sources[i].kind
                    == engine.graph.sources[i].kind && graph.sources[i].endpoint_id
                    == engine.graph.sources[i].endpoint_id && graph.sources[i].process_id
                    == engine.graph.sources[i].process_id
            &&& forall|i: int|
                0 <= i < graph.sinks.len() ==> (#[trigger] graph.sinks[i]).id
                    == engine.graph.sinks[i].id && graph.sinks[i].endpoint_id
                    == engine.graph.sinks[i].endpoint_id
        },
{
    let (a, b) = (source_streams(engine.graph), source_streams(graph));
    let (c, d) = (sink_streams(engine.graph), sink_streams(graph));
    if a == b && c == d {
        assert(a.len() == b.len() && c.len() == d.len());
        assert forall|i: int| 0 <= i < graph.sources.len() implies (#[trigger] graph.sources[i]).id
            == engine.graph.sources[i].id && graph.sources[i].kind == engine.graph.sources[i].kind
            && graph.sources[i].endpoint_id == engine.graph.sources[i].endpoint_id
            && graph.sources[i].process_id == engine.graph.sources[i].process_id by {
            assert(a[i] == b[i]);
        }
        assert forall|i: int| 0 <= i < graph.sinks.len() implies (#[trigger] graph.sinks[i]).id
            == engine.graph.sinks[i].id && graph.sinks[i].endpoint_id
            == engine.graph.sinks[i].endpoint_id by {
            assert(c[i] == d[i]);
        }
    }
    if graph.sources.len() == engine.graph.sources.len() && forall|i: int|
        0 <= i < graph.sources.len() ==> (#[trigger] graph.sources[i]).id
            == engine.graph.sources[i].id && graph.sources[i].kind == engine.graph.sources[i].kind
            && graph.sources[i].endpoint_id == engine.graph.sources[i].endpoint_id
            && graph.sources[i].process_id == engine.graph.sources[i].process_id {
        assert(a =~= b) by {
            assert forall|i: int| 0 <= i < a.len() implies a[i] == b[i] by {
                let source = graph.sources[i];
            }
        }
    }
    if graph.sinks.len() == engine.graph.sinks.len() && forall|i: int|
        0 <= i < graph.sinks.len() ==> (#[trigger] graph.sinks[i]).id == engine.graph.sinks[i].id
            && graph.sinks[i].endpoint_id == engine.graph.sinks[i].endpoint_id {
        assert(c =~= d) by {
            assert forall|i: int| 0 <= i < c.len() implies c[i] == d[i] by {
                let sink = graph.sinks[i];
            }
        }
    }
}

/// Every device of a graph is asked for before a new try, in the direction that it is used in:
/// what records as a capture endpoint, what is listened to or played on as a render endpoint.
/// Processes and the network are not asked for.
pub proof fn law_devices_are_asked_for(graph: GraphModel, n: nat)
    requires
        n > 0,
    ensures
        sources_checks(graph, 0) == Seq::<CheckModel>::empty(),
        sources_checks(graph, n) == sources_checks(graph, (n - 1) as nat) + match graph.sources[n
            - 1].kind {
            SourceKind::DeviceCapture => seq![
                CheckModel {
                    endpoint_id: graph.sources[n - 1].endpoint_id,
                    flow: EndpointFlow::Capture,
                },
            ],
            SourceKind::DeviceLoopback => seq![
                CheckModel {
                    endpoint_id: graph.sources[n - 1].endpoint_id,
                    flow: EndpointFlow::Render,
                },
            ],
            _ => Seq::empty(),
        },
        sinks_checks(graph, 0) == Seq::<CheckModel>::empty(),
        sinks_checks(graph, n) == sinks_checks(graph, (n - 1) as nat) + if graph.sinks[n - 1].kind
            == SinkKind::Device {
            seq![
                CheckModel {
                    endpoint_id: Some(graph.sinks[n - 1].endpoint_id),
                    flow: EndpointFlow::Render,
                },
            ]
        } else {
            Seq::empty()
        },
{
}

/// All endpoints are active exactly where every reply says so; the first other reply decides.
pub proof fn law_all_endpoints_have_to_be_active(
    replies: Seq<Result<bool, WindowsAudioError>>,
    n: int,
)
    requires
        0 <= n <= replies.len(),
        forall|i: int| 0 <= i < n ==> #[trigger] replies[i] == Ok::<bool, WindowsAudioError>(true),
        n < replies.len() ==> replies[n] != Ok::<bool, WindowsAudioError>(true),
    ensures
        n == replies.len() ==> activity_verdict(replies) == Ok::<bool, WindowsFault>(true),
        n < replies.len() ==> match replies[n] {
            Ok(_) => activity_verdict(replies) == Ok::<bool, WindowsFault>(false),
            Err(e) => activity_verdict(replies) == Err::<bool, WindowsFault>(e@),
        },
    decreases n,
{
    if n > 0 {
        let rest = replies.skip(1);
        assert(replies[0] == Ok::<bool, WindowsAudioError>(true));
        assert forall|i: int| 0 <= i < n - 1 implies #[trigger] rest[i] == Ok::<
            bool,
            WindowsAudioError,
        >(true) by {
            assert(rest[i] == replies[i + 1]);
        }
        if n < replies.len() {
            assert(rest[n - 1] == replies[n]);
        }
        law_all_endpoints_have_to_be_active(rest, n - 1);
    } else if replies.len() > 0 {
        let reply = replies[0];
    }
}

/// A queue that lacks a block starves from when it first did, and counts once it has starved
/// for as long as it may. A whole block ends that.
pub proof fn law_starvation_counts_after_its_grace(
    since: u64,
    available: nat,
    block: nat,
    now: u64,
    grace: nat,
)
    requires
        since <= now,
    ensures
        ({
            let starving = Starvation { since: Some(since), reported: false };
            let told = Starvation { since: Some(since), reported: true };
            &&& available >= block ==> starved(starving, available, block, now, grace) == (
                Starvation { since: None, reported: false },
                false,
            )
            &&& available < block ==> starved(starving, available, block, now, grace) == (
                Starvation { since: Some(since), reported: now - since >= grace },
                now - since >= grace,
            )
            &&& available < block ==> starved(told, available, block, now, grace) == (told, false)
            &&& available < block && grace > 0 ==> starved(
                Starvation { since: None, reported: false },
                available,
                block,
                now,
                grace,
            ) == (Starvation { since: Some(now), reported: false }, false)
        }),
{
}

/// The queue with the most decides how much is available: no queue has more, and one has as
/// much.
pub proof fn law_most_available_is_the_largest(available: Seq<usize>)
    ensures
        forall|i: int| 0 <= i < available.len() ==> #[trigger] available[i] <= most_available(available),
        available.len() > 0 ==> exists|i: int|
            0 <= i < available.len() && #[trigger] available[i] == most_available(available),
        available.len() == 0 ==> most_available(available) == 0,
    decreases available.len(),
{
    if available.len() > 0 {
        let init = available.drop_last();
        law_most_available_is_the_largest(init);
        assert(available[available.len() - 1] == available.last());
        assert forall|i: int| 0 <= i < available.len() implies #[trigger] available[i]
            <= most_available(available) by {
            if i < init.len() {
                assert(init[i] == available[i]);
            }
        }
        if available.last() <= most_available(init) && init.len() > 0 {
            let i = choose|i: int|
                0 <= i < init.len() && #[trigger] init[i] == most_available(init);
            assert(available[i] == most_available(available));
        }
    }
}

/// Every source that begins to starve counts, and no other.
pub proof fn law_each_starving_source_counts(
    starvation: Seq<Starvation>,
    available: Seq<usize>,
    n: nat,
    block: nat,
    now: u64,
    grace: nat,
)
    requires
        n > 0,
    ensures
        newly_starved(starvation, available, 0, block, now, grace) == 0,
        newly_starved(starvation, available, n, block, now, grace) == newly_starved(
            starvation,
            available,
            (n - 1) as nat,
            block,
            now,
            grace,
        ) + (if starved(starvation[n - 1], available[n - 1] as nat, block, now, grace).1 {
            1nat
        } else {
            0
        }),
{
}

/// Mixing keeps its pace: the next block is due one period after this one, and until then it
/// waits; where that time has passed it does not wait, and goes on from now.
pub proof fn law_mixing_keeps_its_pace(deadline: nat, period: nat, now: nat)
    ensures
        ({
            let (next, wait) = paced(deadline, period, now);
            &&& now + wait == next
            &&& next >= deadline + period
            &&& now < deadline + period ==> next == deadline + period
            &&& now >= deadline + period ==> wait == 0
        }),
{
}

/// Before the first block two blocks have to wait, or as many frames as the queue holds.
pub proof fn law_queue_is_filled_before_the_start(block: nat, capacity: nat)
    ensures
        prefill_of(block, capacity) <= capacity,
        prefill_of(block, capacity) <= 2 * block,
        prefill_of(block, capacity) == 2 * block || prefill_of(block, capacity) == capacity,
{
}

/// A render queue is read from once enough waits, and then whenever it has a whole block; a
/// block that the device has not taken is written before another one is read.
pub proof fn law_render_reads_whole_blocks(
    schedule: RenderSchedule,
    available: nat,
    now: u64,
    stats: AudioEngineStats,
)
    ensures
        ({
            let (after, step, counted) = schedule.decided(available, now, stats);
            &&& schedule.pending ==> step == RenderStep::Write && after == schedule && counted
                == stats
            &&& !schedule.pending && !schedule.primed && available < schedule.prefill_frames
                ==> step == RenderStep::Wait && after == schedule && counted == stats
            &&& !schedule.pending && (schedule.primed || available >= schedule.prefill_frames) ==> {
                &&& step == RenderStep::Read <==> available >= schedule.block_frames
                &&& step == RenderStep::Wait <==> available < schedule.block_frames
                &&& after.primed
                &&& after.next_deadline == if schedule.primed {
                    schedule.next_deadline
                } else {
                    now
                }
            }
            &&& counted.rendered_frames == stats.rendered_frames
            &&& after.block_frames == schedule.block_frames
            &&& after.block_period == schedule.block_period
            &&& after.prefill_frames == schedule.prefill_frames
        }),
{
}

/// A fault of a device that may come back degrades the engine, and lets it go on reconnecting;
/// any other fault ends it.
pub proof fn law_only_lost_devices_are_waited_for(state: AudioEngineState, fault: WindowsFault)
    ensures
        state_after_fault(state, fault) == AudioEngineState::Failed <==> !fault.recoverable(),
        fault.recoverable() ==> state_after_fault(state, fault) == if state
            == AudioEngineState::Reconnecting {
            AudioEngineState::Reconnecting
        } else {
            AudioEngineState::Degraded
        },
{
}

/// The first try starts at once; every other one is counted, waits, and asks for the devices
/// where there are any before it starts. Whoever is told to stop ends.
pub proof fn law_tries_are_made_in_order(supervisor: SupervisorModel, needs_check: bool)
    requires
        supervisor.reconnect_attempts < u64::MAX,
    ensures
        ({
            let begun = supervisor.after(SupervisorEventModel::Begun);
            let waited = supervisor.after(SupervisorEventModel::DelayOver { needs_check });
            let found = supervisor.after(SupervisorEventModel::Checked(Ok(true)));
            &&& supervisor.engine_stop ==> begun.step == SupervisorStep::Finish && waited.step
                == SupervisorStep::Finish
            &&& !supervisor.engine_stop && supervisor.attempt == 0 ==> begun.step
                == SupervisorStep::StartSession && begun.state == supervisor.state
                && begun.reconnect_attempts == supervisor.reconnect_attempts
            &&& !supervisor.engine_stop && supervisor.attempt > 0 ==> begun.step
                == SupervisorStep::Delay && begun.state == AudioEngineState::Reconnecting
                && begun.reconnect_attempts == supervisor.reconnect_attempts + 1
            &&& !supervisor.engine_stop ==> waited.step == if needs_check {
                SupervisorStep::CheckEndpoints
            } else {
                SupervisorStep::StartSession
            }
            &&& found.step == SupervisorStep::StartSession && found.attempt == supervisor.attempt
        }),
{
}

/// Where a device is not back, or is lost again, another try is made, sixty of them and no
/// more; then the engine has failed and says so.
pub proof fn law_tries_are_limited(supervisor: SupervisorModel, fault: WindowsFault)
    requires
        supervisor.attempt <= 60,
    ensures
        ({
            let absent = supervisor.after(SupervisorEventModel::Checked(Ok(false)));
            let gone = supervisor.after(SupervisorEventModel::Checked(Err(fault)));
            let lost = supervisor.after(SupervisorEventModel::SessionEnded);
            let again = |after: SupervisorModel|
                if supervisor.attempt < 60 {
                    after.step == SupervisorStep::Begin && after.attempt == supervisor.attempt + 1
                        && after.state == supervisor.state && after.engine_stop
                        == supervisor.engine_stop
                } else {
                    after.step == SupervisorStep::Finish && after.state == AudioEngineState::Failed
                        && after.engine_stop && after.last_error is Some
                };
            &&& again(absent)
            &&& fault.recoverable() ==> again(gone)
            &&& !supervisor.engine_stop && (supervisor.state == AudioEngineState::Degraded
                || supervisor.state == AudioEngineState::Reconnecting) ==> again(lost)
            &&& supervisor.engine_stop || supervisor.state == AudioEngineState::Running
                || supervisor.state == AudioEngineState::Stopped || supervisor.state
                == AudioEngineState::Failed ==> lost.step == SupervisorStep::Finish && lost.state
                == supervisor.state
            &&& !fault.recoverable() && !supervisor.engine_stop ==> gone.step
                == SupervisorStep::Finish && gone.state == AudioEngineState::Failed
                && gone.engine_stop && gone.last_error is Some
        }),
{
}

/// A session that starts runs and clears the error; one whose queues cannot be made fails with
/// the reason.
pub proof fn law_started_session_runs(supervisor: SupervisorModel, reason: Seq<char>)
    ensures
        ({
            let started = supervisor.after(SupervisorEventModel::SessionStarted { stopped: false });
            let stopped = supervisor.after(SupervisorEventModel::SessionStarted { stopped: true });
            let refused = supervisor.after(SupervisorEventModel::SessionRefused { reason });
            &&& started.step == SupervisorStep::WatchSession && started.state
                == AudioEngineState::Running && started.last_error is None
            &&& stopped.step == SupervisorStep::WatchSession && stopped.state == supervisor.state
                && stopped.last_error == supervisor.last_error
            &&& refused.step == SupervisorStep::Finish
            &&& !supervisor.engine_stop ==> refused.state == AudioEngineState::Failed
                && refused.last_error == Some(reason) && refused.engine_stop
        }),
{
}

/// Whole frames go into a queue behind those that are there, as many as there is room for; a block
/// that does not end with a frame does not go in.
pub proof fn law_whole_frames_go_into_a_queue(
    before: AudioFifoProducer,
    after: AudioFifoProducer,
    samples: Seq<u32>,
    frames: nat,
    i: int,
)
    requires
        before.wf(),
        before.channel_count() > 0,
        block_written(before, after, samples, frames),
    ensures
        samples.len() % before.channel_count() != 0 ==> frames == 0 && after == before,
        samples.len() % before.channel_count() == 0 ==> {
            &&& frames * before.channel_count() <= samples.len()
            &&& frames == before.room() || frames * before.channel_count() == samples.len()
            &&& frames <= before.room()
            &&& after.written().len() == before.written().len() + frames * before.channel_count()
            &&& 0 <= i < frames * before.channel_count()
                ==> after.written()[before.written().len() + i] == samples[i]
            &&& 0 <= i < before.written().len() ==> after.written()[i] == before.written()[i]
        },
        after.capacity() == before.capacity(),
        after.traffic() == before.traffic(),
{
    if samples.len() % before.channel_count() == 0 {
        let channels = before.channel_count();
        let whole = samples.len() / channels;
        vstd::arithmetic::div_mod::lemma_fundamental_div_mod(samples.len() as int, channels as int);
        assert(whole * channels == samples.len()) by {
            assert(whole * channels == channels * whole) by (nonlinear_arith);
        }
        assert(frames * channels <= whole * channels) by (nonlinear_arith)
            requires
                frames <= whole,
        ;
    }
}

/// A block that is read from a queue holds the next frames of it in their order, as many as it asks
/// for or as there are, and silence behind them.
pub proof fn law_blocks_are_read_in_order(
    before: AudioFifoConsumer,
    after: AudioFifoConsumer,
    block: Seq<u32>,
    frames: nat,
    i: int,
)
    requires
        before.wf(),
        before.channel_count() > 0,
        block_read(before, after, block, frames),
        0 <= i < block.len(),
    ensures
        block.len() % before.channel_count() != 0 ==> frames == 0 && after == before && block[i]
            == 0,
        block.len() % before.channel_count() == 0 ==> {
            &&& frames * before.channel_count() <= block.len()
            &&& frames <= before.ready()
            &&& frames == before.ready() || frames * before.channel_count() == block.len()
            &&& after.read().len() == before.read().len() + frames * before.channel_count()
            &&& i < frames * before.channel_count() ==> after.read()[before.read().len() + i]
                == block[i]
            &&& i >= frames * before.channel_count() ==> block[i] == 0
        },
{
    if block.len() % before.channel_count() == 0 {
        let channels = before.channel_count();
        let whole = block.len() / channels;
        let none = silence(block.len());
        let count = (frames * channels) as int;
        vstd::arithmetic::div_mod::lemma_fundamental_div_mod(block.len() as int, channels as int);
        assert(whole * channels == block.len()) by {
            assert(whole * channels == channels * whole) by (nonlinear_arith);
        }
        assert(frames * channels <= whole * channels) by (nonlinear_arith)
            requires
                frames <= whole,
        ;
        if i < count {
            assert(block.take(count)[i] == block[i]);
        } else {
            assert(block.skip(count)[i - count] == block[i]);
            assert(none.skip(count)[i - count] == none[i]);
        }
    } else {
        assert(block[i] == silence(block.len())[i]);
    }
}

/// What is played next is a whole block that is read then, or the one that the device has not taken
/// yet; while it waits nothing is read and nothing is written.
pub proof fn law_blocks_are_prepared_for_the_device(
    before: (RenderSchedule, AudioFifoConsumer, Seq<u32>, AudioEngineStats),
    available: nat,
    now: u64,
    write: bool,
    after: (RenderSchedule, AudioFifoConsumer, Seq<u32>, AudioEngineStats),
)
    requires
        block_prepared(before, available, now, write, after),
    ensures
        before.0.pending ==> write && after.0 == before.0 && after.1 == before.1 && after.2
            == before.2,
        !write ==> after.1 == before.1 && after.2 == before.2 && !before.0.pending,
        write && !before.0.pending ==> after.0.pending && after.1.read() == before.1.read()
            + after.2 && available >= before.0.block_frames,
{
}

/// What is recorded is brought to two channels of floats at the rate of its device, and a resampler
/// is needed exactly where that is not the rate that is mixed at.
pub proof fn law_recordings_are_converted(native: EndpointFormat, block_frames: usize)
    ensures
        converted_format(native).sample_rate == native.sample_rate,
        converted_format(native).renders(),
        converted_format(native).channel_mask == 3,
        native.sample_rate == 48000 ==> capture_resampler_fault(Some(native), block_frames) is None,
        capture_resampler_fault(None, block_frames) is None,
        native.sample_rate == 0 ==> capture_resampler_fault(Some(native), block_frames) is Some,
        native.sample_rate != 48000 && block_frames == 0 ==> capture_resampler_fault(
            Some(native),
            block_frames,
        ) is Some,
{
}

/// A render queue that has been short of a block for as long as two of them last counts as one
/// underflow; one that is short for less, or that was counted already, does not, and a whole block
/// ends it.
pub proof fn law_short_render_queues_count_once(
    schedule: RenderSchedule,
    available: nat,
    now: u64,
    stats: AudioEngineStats,
    since: u64,
)
    requires
        schedule.primed,
        !schedule.pending,
        stats.fifo_underflows < u64::MAX,
        schedule.starvation.since == Some(since),
        since <= now,
    ensures
        ({
            let (after, _, counted) = schedule.decided(available, now, stats);
            let due = available < schedule.block_frames && !schedule.starvation.reported && now
                - since >= 2 * schedule.block_period;
            &&& counted.fifo_underflows == stats.fifo_underflows + (if due {
                1int
            } else {
                0
            })
            &&& available >= schedule.block_frames ==> after.starvation.since is None
            &&& due ==> after.starvation.reported
            &&& available < schedule.block_frames ==> after.starvation.since == Some(since)
        }),
{
}

/// A peak that is no number, or is not finite, is not kept.
pub proof fn law_only_finite_peaks_are_kept(stats: AudioEngineStats, peak: u32)
    requires
        peak >= 0x7f80_0000,
    ensures
        captured_peak_counted(stats, peak).captured_peak == stats.captured_peak,
{
}

} // verus!
