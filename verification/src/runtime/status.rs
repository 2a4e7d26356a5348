//! The state of an engine, and what it counts.

use crate::decibels::{lemma_magnitude_increases, magnitude, unsigned_part};
use crate::runtime::config::UNDERFLOW_GRACE_BLOCKS;
use crate::windows::endpoint::{fault_text, WindowsAudioError, WindowsFault};
use vstd::prelude::*;

verus! {

/// What an engine is doing.
#[derive(Clone, Copy, Debug, PartialEq, Eq, Structural)]
pub enum AudioEngineState {
    Stopped,
    Running,
    /// A device was lost.
    Degraded,
    /// A lost device is looked for.
    Reconnecting,
    /// It has given up.
    Failed,
}

/// The number of a state.
pub open spec fn raw_state(state: AudioEngineState) -> u8 {
    match state {
        AudioEngineState::Stopped => 0,
        AudioEngineState::Running => 1,
        AudioEngineState::Degraded => 2,
        AudioEngineState::Reconnecting => 3,
        AudioEngineState::Failed => 4,
    }
}

impl AudioEngineState {
    /// The state of a number. A number that is not used stands for `Stopped`.
    pub fn from_raw(raw: u8) -> (state: Self)
        ensures
            raw <= 4 ==> raw_state(state) == raw,
            raw > 4 ==> state == AudioEngineState::Stopped,
    {
        match raw {
            1 => AudioEngineState::Running,
            2 => AudioEngineState::Degraded,
            3 => AudioEngineState::Reconnecting,
            4 => AudioEngineState::Failed,
            _ => AudioEngineState::Stopped,
        }
    }

    /// The number of the state.
    pub fn as_raw(self) -> (raw: u8)
        ensures
            raw == raw_state(self),
    {
        match self {
            AudioEngineState::Stopped => 0,
            AudioEngineState::Running => 1,
            AudioEngineState::Degraded => 2,
            AudioEngineState::Reconnecting => 3,
            AudioEngineState::Failed => 4,
        }
    }

    /// The name of the state.
    pub fn as_str(self) -> (name: &'static str)
        ensures
            name@ == state_name(self),
    {
        match self {
            AudioEngineState::Stopped => "Stopped",
            AudioEngineState::Running => "Running",
            AudioEngineState::Degraded => "Degraded",
            AudioEngineState::Reconnecting => "Reconnecting",
            AudioEngineState::Failed => "Failed",
        }
    }
}

/// The name of a state.
pub open spec fn state_name(state: AudioEngineState) -> Seq<char> {
    match state {
        AudioEngineState::Stopped => "Stopped"@,
        AudioEngineState::Running => "Running"@,
        AudioEngineState::Degraded => "Degraded"@,
        AudioEngineState::Reconnecting => "Reconnecting"@,
        AudioEngineState::Failed => "Failed"@,
    }
}

/// What an engine has counted. Peaks are the bit patterns of IEEE-754 singles.
#[derive(Clone, Copy, Debug, PartialEq, Eq, Structural)]
pub struct AudioEngineStats {
    pub capture_packets: u64,
    pub captured_frames: u64,
    pub rendered_frames: u64,
    pub render_writes: u64,
    pub fifo_overflows: u64,
    /// The frames that were lost where a queue was full.
    pub fifo_dropped_frames: u64,
    pub fifo_underflows: u64,
    pub discontinuities: u64,
    pub startup_discontinuities: u64,
    pub runtime_discontinuities: u64,
    pub timestamp_errors: u64,
    pub render_no_space: u64,
    pub graph_updates: u64,
    /// The looks for a lost device.
    pub reconnect_attempts: u64,
    /// The largest magnitude that was captured.
    pub captured_peak: u32,
    /// The packets that were louder than silence.
    pub non_silent_packets: u64,
    /// The largest magnitude that was rendered.
    pub rendered_peak: u32,
    /// The blocks that were rendered and louder than silence.
    pub rendered_non_silent_blocks: u64,
}

/// The counts of an engine that has done nothing.
pub open spec fn no_stats() -> AudioEngineStats {
    AudioEngineStats {
        capture_packets: 0,
        captured_frames: 0,
        rendered_frames: 0,
        render_writes: 0,
        fifo_overflows: 0,
        fifo_dropped_frames: 0,
        fifo_underflows: 0,
        discontinuities: 0,
        startup_discontinuities: 0,
        runtime_discontinuities: 0,
        timestamp_errors: 0,
        render_no_space: 0,
        graph_updates: 0,
        reconnect_attempts: 0,
        captured_peak: 0,
        non_silent_packets: 0,
        rendered_peak: 0,
        rendered_non_silent_blocks: 0,
    }
}

impl Default for AudioEngineStats {
    fn default() -> (stats: Self)
        ensures
            stats == no_stats(),
    {
        AudioEngineStats {
            capture_packets: 0,
            captured_frames: 0,
            rendered_frames: 0,
            render_writes: 0,
            fifo_overflows: 0,
            fifo_dropped_frames: 0,
            fifo_underflows: 0,
            discontinuities: 0,
            startup_discontinuities: 0,
            runtime_discontinuities: 0,
            timestamp_errors: 0,
            render_no_space: 0,
            graph_updates: 0,
            reconnect_attempts: 0,
            captured_peak: 0,
            non_silent_packets: 0,
            rendered_peak: 0,
            rendered_non_silent_blocks: 0,
        }
    }
}

/// A count that has grown. Counts start over behind their largest value.
pub open spec fn bumped(count: u64, by: nat) -> u64 {
    ((count + by) % 0x1_0000_0000_0000_0000) as u64
}

/// Lets a count grow.
pub fn bump(count: u64, by: u64) -> (next: u64)
    ensures
        next == bumped(count, by as nat),
{
    if count <= u64::MAX - by {
        count + by
    } else {
        let missing = u64::MAX - count;
        by - missing - 1
    }
}

/// What is told of an engine.
#[derive(Debug, PartialEq, Eq)]
pub struct AudioEngineStatus {
    pub state: AudioEngineState,
    pub running: bool,
    pub failed: bool,
    pub last_error: Option<String>,
    pub stats: AudioEngineStats,
}

/// Ends a session with an error. The first error of a session counts: one that comes
/// after the session was told to stop changes nothing.
pub fn fail(
    state: &mut AudioEngineState,
    stop: &mut bool,
    error: &mut Option<String>,
    value: String,
)
    ensures
        *final(stop),
        *old(stop) ==> *final(state) == *old(state) && *final(error) == *old(error),
        !*old(stop) ==> *final(state) == AudioEngineState::Failed && *final(error) == Some(value),
{
    if *stop {
        return;
    }
    *stop = true;
    *error = Some(value);
    *state = AudioEngineState::Failed;
}

/// The state after an error of a device. One that may pass leads to another try.
pub open spec fn state_after_fault(state: AudioEngineState, fault: WindowsFault) -> AudioEngineState {
    if !fault.recoverable() {
        AudioEngineState::Failed
    } else if state == AudioEngineState::Reconnecting {
        AudioEngineState::Reconnecting
    } else {
        AudioEngineState::Degraded
    }
}

/// Ends a session with an error of a device. The first error of a session counts.
pub fn fail_windows(
    state: &mut AudioEngineState,
    stop: &mut bool,
    error: &mut Option<String>,
    value: &WindowsAudioError,
)
    ensures
        *final(stop),
        *old(stop) ==> *final(state) == *old(state) && *final(error) == *old(error),
        !*old(stop) ==> *final(state) == state_after_fault(*old(state), value@) && (
        *final(error) matches Some(text) && text@ == fault_text(value@)),
{
    if *stop {
        return;
    }
    *stop = true;
    *error = Some(value.message());
    if value.is_device_failure() {
        if *state != AudioEngineState::Reconnecting {
            *state = AudioEngineState::Degraded;
        }
    } else {
        *state = AudioEngineState::Failed;
    }
}

/// Gives up looking for a lost device.
pub fn mark_reconnect_exhausted(
    state: &mut AudioEngineState,
    engine_stop: &mut bool,
    error: &mut Option<String>,
)
    ensures
        *final(state) == AudioEngineState::Failed,
        *final(engine_stop),
        *final(error) matches Some(text) && text@ == "设备重连等待窗口耗尽"@,
{
    *error = Some("设备重连等待窗口耗尽".to_owned());
    *state = AudioEngineState::Failed;
    *engine_stop = true;
}

/// How long input has to be missing before it counts, for blocks of a length. Times are
/// in nanoseconds.
pub fn underflow_grace_period(block_period: u64) -> (grace: u64)
    requires
        block_period * UNDERFLOW_GRACE_BLOCKS <= u64::MAX,
    ensures
        grace == block_period * UNDERFLOW_GRACE_BLOCKS,
{
    block_period * UNDERFLOW_GRACE_BLOCKS
}

/// Whether missing input counts now: it counts once, after it was missing long enough.
pub open spec fn underflow_counts(
    available_frames: nat,
    block_frames: nat,
    starvation_elapsed: nat,
    already_reported: bool,
    grace: nat,
) -> bool {
    available_frames < block_frames && !already_reported && starvation_elapsed >= grace
}

/// Whether missing input counts now.
pub fn should_report_source_underflow(
    available_frames: usize,
    block_frames: usize,
    starvation_elapsed: u64,
    already_reported: bool,
    grace: u64,
) -> (report: bool)
    ensures
        report == underflow_counts(
            available_frames as nat,
            block_frames as nat,
            starvation_elapsed as nat,
            already_reported,
            grace as nat,
        ),
{
    available_frames < block_frames && !already_reported && starvation_elapsed >= grace
}

/// The pattern of positive infinity, the largest that is not a NaN.
pub const INFINITY_BITS: u32 = 0x7f80_0000;

/// The pattern of one ten-thousandth, 80 decibels below full scale.
pub const SILENCE_BITS: u32 = 0x38d1_b717;

/// The magnitude of a sample as a pattern, 0 for a NaN.
pub open spec fn sample_peak(bits: u32) -> u32 {
    if unsigned_part(bits) > INFINITY_BITS {
        0
    } else {
        unsigned_part(bits) as u32
    }
}

/// The largest magnitude among samples, 0 where there is none.
pub open spec fn peak_of(samples: Seq<u32>) -> u32
    decreases samples.len(),
{
    if samples.len() == 0 {
        0
    } else {
        let rest = peak_of(samples.drop_last());
        let last = sample_peak(samples.last());
        if last > rest {
            last
        } else {
            rest
        }
    }
}

/// The largest magnitude among samples. NaNs do not count.
pub fn packet_peak(samples: &[u32]) -> (peak: u32)
    ensures
        peak == peak_of(samples@),
{
    let mut peak: u32 = 0;
    for i in 0..samples.len()
        invariant
            peak == peak_of(samples@.take(i as int)),
    {
        let magnitude = samples[i] % 0x8000_0000;
        assert(samples@.take(i + 1).drop_last() =~= samples@.take(i as int));
        if magnitude <= INFINITY_BITS && magnitude > peak {
            peak = magnitude;
        }
    }
    assert(samples@.take(samples@.len() as int) =~= samples@);
    peak
}

/// Whether a peak is louder than silence.
pub open spec fn is_loud(peak: u32) -> bool {
    SILENCE_BITS < peak <= INFINITY_BITS
}

/// Whether a peak is louder than silence.
pub fn is_non_silent(peak: u32) -> (loud: bool)
    ensures
        loud == is_loud(peak),
{
    peak > SILENCE_BITS && peak <= INFINITY_BITS
}

/// The peak of a block is the magnitude of one of its samples, and none that is a number
/// has a larger one.
pub proof fn law_peak_is_largest(samples: Seq<u32>, i: int)
    requires
        0 <= i < samples.len(),
        unsigned_part(samples[i]) <= INFINITY_BITS,
    ensures
        magnitude(unsigned_part(samples[i])) <= magnitude(peak_of(samples) as int),
        exists|j: int|
            0 <= j < samples.len() && peak_of(samples) == sample_peak(#[trigger] samples[j]),
    decreases samples.len(),
{
    lemma_peak_attained(samples);
    lemma_peak_bounds(samples, i);
    if unsigned_part(samples[i]) < peak_of(samples) {
        lemma_magnitude_increases(unsigned_part(samples[i]), peak_of(samples) as int);
    }
}

proof fn lemma_peak_bounds(samples: Seq<u32>, i: int)
    requires
        0 <= i < samples.len(),
    ensures
        sample_peak(samples[i]) <= peak_of(samples),
    decreases samples.len(),
{
    if i < samples.len() - 1 {
        lemma_peak_bounds(samples.drop_last(), i);
    }
}

proof fn lemma_peak_attained(samples: Seq<u32>)
    requires
        samples.len() > 0,
    ensures
        exists|j: int|
            0 <= j < samples.len() && peak_of(samples) == sample_peak(#[trigger] samples[j]),
    decreases samples.len(),
{
    let rest = samples.drop_last();
    let last = sample_peak(samples.last());
    if last >= peak_of(rest) {
        assert(samples[samples.len() - 1] == samples.last());
        assert(peak_of(samples) == sample_peak(samples[samples.len() - 1]));
    } else {
        if rest.len() > 0 {
            lemma_peak_attained(rest);
            let j = choose|j: int|
                0 <= j < rest.len() && peak_of(rest) == sample_peak(#[trigger] rest[j]);
            assert(samples[j] == rest[j]);
        }
    }
}

/// A peak that is not louder than silence is no larger than one ten-thousandth.
pub proof fn law_silence_threshold(peak: u32)
    requires
        peak <= INFINITY_BITS,
    ensures
        is_loud(peak) <==> magnitude(peak as int) > magnitude(SILENCE_BITS as int),
{
    if peak > SILENCE_BITS {
        lemma_magnitude_increases(SILENCE_BITS as int, peak as int);
    } else if peak < SILENCE_BITS {
        lemma_magnitude_increases(peak as int, SILENCE_BITS as int);
    }
}

} // verus!
