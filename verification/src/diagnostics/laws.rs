//! What is asked for on the command line, and what is counted.

use crate::decibels::Decibels;
use crate::diagnostics::{
    argument_number, capture_source, command_in, process_source, render_sink, route_of,
    DiagnosticsModel, TrialCounts,
};
use crate::routing::{SendEnds, SinkKind, SinkModel, SourceKind, SourceModel};
use crate::text::{decimal_text, law_decimal_reads_back};
use crate::windows::stream::CapturePacket;
use vstd::prelude::*;

verus! {

/// Two devices are tried out against each other, an engine between two devices, or one that plays
/// a process; each for as many seconds as are given, or for ten. With less than two devices the
/// devices are listed.
pub proof fn law_what_is_asked_for(args: Seq<String>)
    ensures
        args.len() < 3 ==> command_in(args) == DiagnosticsModel::List,
        args.len() >= 4 && args[1]@ == "--engine"@ ==> (command_in(
            args,
        ) matches DiagnosticsModel::Engine { capture_id, render_id, seconds } && capture_id
            == args[2]@ && render_id == args[3]@ && (args.len() == 4 ==> seconds == 10)),
        args.len() >= 4 && args[1]@ == "--process-engine"@ ==> (command_in(
            args,
        ) matches DiagnosticsModel::ProcessEngine { render_id, seconds, .. } && render_id
            == args[3]@ && (args.len() == 4 ==> seconds == 10)),
        args.len() >= 3 && args[1]@ != "--engine"@ && args[1]@ != "--process-engine"@ ==> (
        command_in(args) matches DiagnosticsModel::CaptureRender {
            capture_id,
            render_id,
            seconds,
        } && capture_id == args[1]@ && render_id == args[2]@ && (args.len() == 3 ==> seconds
            == 10)),
{
    reveal_strlit("--engine");
    reveal_strlit("--process-engine");
    assert("--engine"@.len() != "--process-engine"@.len());
}

/// The seconds and the number of a process that are given are those that are taken.
pub proof fn law_given_numbers_are_taken(args: Seq<String>, n: u64, at: int, limit: u64, other: u64)
    requires
        0 <= at < args.len(),
        n <= limit,
        args[at]@ == decimal_text(n as nat),
    ensures
        argument_number(args, at, limit, other) == n,
        at == 4 && limit == u64::MAX && args[1]@ == "--engine"@ ==> (command_in(
            args,
        ) matches DiagnosticsModel::Engine { seconds, .. } && seconds == n),
        at == 2 && limit == u32::MAX && args.len() >= 4 && args[1]@ == "--process-engine"@ ==> (
        command_in(args) matches DiagnosticsModel::ProcessEngine { pid, .. } && pid == n),
        at == 3 && limit == u64::MAX && args[1]@ != "--engine"@ && args[1]@
            != "--process-engine"@ ==> (command_in(
            args,
        ) matches DiagnosticsModel::CaptureRender { seconds, .. } && seconds == n),
{
    law_decimal_reads_back(n as nat, limit as nat);
    reveal_strlit("--engine");
    reveal_strlit("--process-engine");
    assert("--engine"@.len() != "--process-engine"@.len());
}

/// The graph of a trial plays its source over one bus on its sink, with the gain and the mute on
/// the way to the bus and none behind it.
pub proof fn law_trial_plays_its_source_on_its_sink(
    source: SourceModel,
    sink: SinkModel,
    gain_db: Decibels,
    muted: bool,
)
    ensures
        ({
            let graph = route_of(source, sink, gain_db, muted);
            &&& graph.sources == seq![source]
            &&& graph.sinks == seq![sink]
            &&& graph.buses.len() == 1
            &&& graph.sends.len() == 2
            &&& graph.sends[0].ends == SendEnds::SourceToBus {
                source_id: source.id,
                bus_id: graph.buses[0].id,
            }
            &&& graph.sends[0].gain_db == gain_db && graph.sends[0].muted == muted
            &&& graph.sends[1].ends == SendEnds::BusToSink {
                bus_id: graph.buses[0].id,
                sink_id: sink.id,
            }
            &&& graph.sends[1].gain_db.bits == 0 && !graph.sends[1].muted
            &&& graph.sends[0].enabled && graph.sends[1].enabled
            &&& graph.sends[0].channel_map.len() == 0 && graph.sends[1].channel_map.len() == 0
        }),
{
}

/// A trial records from the endpoint, or from the process, and plays on the endpoint that was
/// given.
pub proof fn law_trial_uses_what_was_given(endpoint: Seq<char>, pid: u32, name: Seq<char>)
    ensures
        capture_source(endpoint).kind == SourceKind::DeviceCapture,
        capture_source(endpoint).endpoint_id == Some(endpoint),
        process_source(pid).kind == SourceKind::ProcessLoopback,
        process_source(pid).process_id == Some(pid),
        render_sink(name, endpoint).kind == SinkKind::Device,
        render_sink(name, endpoint).endpoint_id == endpoint,
        render_sink(name, endpoint).id == name,
{
}

/// Every packet of a trial counts with its frames and its marks, and with whether the queue had no
/// room for it; what was played is not touched.
pub proof fn law_trial_counts_its_packets(
    counts: TrialCounts,
    packet: CapturePacket,
    overflowed: bool,
)
    requires
        counts.has_room(),
    ensures
        ({
            let after = counts.counted(packet, overflowed);
            let one = |mark: bool|
                if mark {
                    1int
                } else {
                    0
                };
            &&& after.packets == counts.packets + 1
            &&& after.captured_frames == counts.captured_frames + packet.frames
            &&& after.discontinuities == counts.discontinuities + one(packet.discontinuity)
            &&& after.timestamp_errors == counts.timestamp_errors + one(packet.timestamp_error)
            &&& after.fifo_overflows == counts.fifo_overflows + one(overflowed)
            &&& after.render_writes == counts.render_writes
            &&& after.render_frames == counts.render_frames
        }),
{
}

} // verus!
