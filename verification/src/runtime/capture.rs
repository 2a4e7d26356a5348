//! What happens to a packet that was recorded.

use crate::fifo::{at_most, frames_read, frames_written, AudioFifoConsumer, AudioFifoProducer};
use crate::resampler::{
    config_fault, FixedOutputResampler, ResamplerConfigError, ResamplerConfigFault,
};
use crate::routing::{
    EndpointId, SourceKind, SourceModel, SourceSpec, INTERNAL_CHANNELS, INTERNAL_SAMPLE_RATE,
};
use crate::runtime::status::{
    bump, bumped, is_loud, is_non_silent, packet_peak, peak_of, AudioEngineStats, INFINITY_BITS,
};
use crate::windows::endpoint::EndpointFormat;
use crate::windows::stream::{one_if, CapturePacket};
use vstd::prelude::*;

verus! {

/// What writing a block does to the writing end of a queue. Samples that do not make
/// whole frames are not written; else as many frames as there is room for.
pub open spec fn block_written(
    before: AudioFifoProducer,
    after: AudioFifoProducer,
    samples: Seq<u32>,
    frames: nat,
) -> bool {
    let channels = before.channel_count();
    &&& after.wf()
    &&& after.channel_count() == channels
    &&& after.capacity() == before.capacity()
    &&& after.traffic() == before.traffic()
    &&& if samples.len() % channels != 0 {
        frames == 0 && after == before
    } else {
        frames_written(before, after, samples, frames)
    }
}

/// What reading a block does to the reading end of a queue: what there is comes to the
/// front of the block, and silence behind it.
pub open spec fn block_read(
    before: AudioFifoConsumer,
    after: AudioFifoConsumer,
    block: Seq<u32>,
    frames: nat,
) -> bool {
    let channels = before.channel_count();
    &&& after.wf()
    &&& after.channel_count() == channels
    &&& after.capacity() == before.capacity()
    &&& after.traffic() == before.traffic()
    &&& if block.len() % channels != 0 {
        frames == 0 && after == before && block == silence(block.len())
    } else {
        frames_read(before, after, silence(block.len()), block, frames)
    }
}

/// So many samples of silence.
pub open spec fn silence(samples: nat) -> Seq<u32> {
    Seq::new(samples, |i: int| 0u32)
}

/// There are at most as many frames as samples.
proof fn lemma_frames_fit(samples: nat, channels: nat)
    requires
        channels > 0,
    ensures
        samples / channels <= samples,
{
    assert(samples / channels <= samples) by (nonlinear_arith)
        requires
            channels > 0,
    ;
}

/// Writes a block, and says how many frames of it were taken.
pub fn write_block(producer: &mut AudioFifoProducer, samples: &[u32]) -> (frames: usize)
    requires
        old(producer).wf(),
    ensures
        block_written(*old(producer), *final(producer), samples@, frames as nat),
{
    let length = samples.len();
    let channels = producer.channels();
    proof {
        lemma_frames_fit(length as nat, channels as nat);
    }
    match producer.push_interleaved(samples) {
        Ok(report) => report.frames(),
        Err(_) => 0,
    }
}

/// Reads a block, and says how many frames of it are not silence put in.
pub fn read_block(consumer: &mut AudioFifoConsumer, block: &mut Vec<u32>) -> (frames: usize)
    requires
        old(consumer).wf(),
    ensures
        final(block)@.len() == old(block)@.len(),
        block_read(*old(consumer), *final(consumer), final(block)@, frames as nat),
{
    let length = block.len();
    for i in 0..length
        invariant
            block@.len() == length,
            forall|j: int| 0 <= j < i ==> block@[j] == 0,
    {
        block.set(i, 0);
    }
    let channels = consumer.channels();
    proof {
        lemma_frames_fit(length as nat, channels as nat);
    }
    assert(block@ =~= silence(length as nat));
    let result = consumer.pop_interleaved(block.as_mut_slice());
    match result {
        Ok(report) => report.frames(),
        Err(_) => 0,
    }
}

/// Silence behind silence.
proof fn lemma_silence_adds(before: Seq<u32>, first: nat, second: nat)
    ensures
        before + silence(first) + silence(second) == before + silence(first + second),
{
    assert(before + silence(first) + silence(second) =~= before + silence(first + second));
}

/// Writes one piece of silence, and says how many samples of it were taken.
fn write_quiet(producer: &mut AudioFifoProducer, quiet: &[u32], remaining: usize) -> (taken: usize)
    requires
        old(producer).wf(),
        old(producer).channel_count() == INTERNAL_CHANNELS,
        quiet@ == silence(quiet@.len()),
        quiet@.len() % 2 == 0,
        remaining % 2 == 0,
    ensures
        final(producer).wf(),
        final(producer).channel_count() == INTERNAL_CHANNELS,
        final(producer).capacity() == old(producer).capacity(),
        final(producer).traffic() == old(producer).traffic(),
        taken == 2 * at_most(at_most(remaining as nat, quiet@.len()) / 2, old(producer).room()),
        final(producer).written() == old(producer).written() + silence(taken as nat),
        final(producer).room() >= old(producer).room() - taken / 2,
{
    let piece = if remaining < quiet.len() {
        remaining
    } else {
        quiet.len()
    };
    let samples = vstd::slice::slice_subrange(quiet, 0, piece);
    let frames = write_block(producer, samples);
    assert(samples@.take(2 * frames as int) =~= silence(2 * frames as nat));
    frames * INTERNAL_CHANNELS
}

/// Writes silence in pieces of the length of `quiet`, and says how many frames of it
/// were taken: at least as many as there was room for. Stops where a piece is not taken at
/// all.
pub fn push_silence(producer: &mut AudioFifoProducer, frames: usize, quiet: &[u32]) -> (written:
    usize)
    requires
        old(producer).wf(),
        old(producer).channel_count() == INTERNAL_CHANNELS,
        frames * INTERNAL_CHANNELS <= usize::MAX,
        quiet@ == silence(quiet@.len()),
        quiet@.len() % INTERNAL_CHANNELS as nat == 0,
    ensures
        final(producer).wf(),
        final(producer).channel_count() == old(producer).channel_count(),
        final(producer).capacity() == old(producer).capacity(),
        final(producer).traffic() == old(producer).traffic(),
        written <= frames,
        quiet@.len() > 0 ==> written >= at_most(old(producer).room(), frames as nat),
        quiet@.len() == 0 ==> written == 0,
        final(producer).written() == old(producer).written() + silence(
            (written * INTERNAL_CHANNELS) as nat,
        ),
        final(producer).room() >= old(producer).room() - written,
{
    let ghost before = producer.written();
    let ghost room = producer.room();
    let total = frames * INTERNAL_CHANNELS;
    let mut remaining = total;
    let mut written: usize = 0;
    assert(before + silence(0) =~= before);
    while remaining > 0
        invariant
            producer.wf(),
            producer.channel_count() == INTERNAL_CHANNELS,
            producer.capacity() == old(producer).capacity(),
            producer.traffic() == old(producer).traffic(),
            remaining + written == total,
            written % 2 == 0,
            remaining % 2 == 0,
            quiet@ == silence(quiet@.len()),
            quiet@.len() % 2 == 0,
            quiet@.len() == 0 ==> written == 0,
            producer.written() == before + silence(written as nat),
            producer.room() >= room - written / 2,
        ensures
            producer.wf(),
            producer.channel_count() == INTERNAL_CHANNELS,
            producer.capacity() == old(producer).capacity(),
            producer.traffic() == old(producer).traffic(),
            remaining + written == total,
            written % 2 == 0,
            quiet@.len() == 0 ==> written == 0,
            producer.written() == before + silence(written as nat),
            producer.room() >= room - written / 2,
            quiet@.len() > 0 ==> remaining == 0 || written / 2 >= room,
        decreases remaining,
    {
        let taken = write_quiet(producer, quiet, remaining);
        proof {
            lemma_silence_adds(before, written as nat, taken as nat);
        }
        remaining = remaining - taken;
        written = written + taken;
        if taken == 0 {
            break;
        }
    }
    written / INTERNAL_CHANNELS
}

/// The counts with one more packet.
pub open spec fn packet_counted(
    stats: AudioEngineStats,
    packet: CapturePacket,
    first_packet: bool,
) -> AudioEngineStats {
    AudioEngineStats {
        capture_packets: bumped(stats.capture_packets, 1),
        captured_frames: bumped(stats.captured_frames, packet.frames as nat),
        discontinuities: bumped(stats.discontinuities, one_if(packet.discontinuity) as nat),
        startup_discontinuities: bumped(
            stats.startup_discontinuities,
            one_if(packet.discontinuity && first_packet) as nat,
        ),
        runtime_discontinuities: bumped(
            stats.runtime_discontinuities,
            one_if(packet.discontinuity && !first_packet) as nat,
        ),
        timestamp_errors: bumped(stats.timestamp_errors, one_if(packet.timestamp_error) as nat),
        ..stats
    }
}

/// Counts a packet. A gap before the first packet belongs to the start.
pub fn count_packet(stats: &mut AudioEngineStats, packet: CapturePacket, first_packet: bool)
    ensures
        *final(stats) == packet_counted(*old(stats), packet, first_packet),
{
    stats.capture_packets = bump(stats.capture_packets, 1);
    stats.captured_frames = bump(stats.captured_frames, packet.frames as u64);
    if packet.discontinuity {
        stats.discontinuities = bump(stats.discontinuities, 1);
        if first_packet {
            stats.startup_discontinuities = bump(stats.startup_discontinuities, 1);
        } else {
            stats.runtime_discontinuities = bump(stats.runtime_discontinuities, 1);
        }
    }
    if packet.timestamp_error {
        stats.timestamp_errors = bump(stats.timestamp_errors, 1);
    }
}

/// The counts after frames found no room. None that did is no event.
pub open spec fn dropped_counted(stats: AudioEngineStats, dropped: nat) -> AudioEngineStats {
    if dropped == 0 {
        stats
    } else {
        AudioEngineStats {
            fifo_overflows: bumped(stats.fifo_overflows, 1),
            fifo_dropped_frames: bumped(stats.fifo_dropped_frames, dropped),
            ..stats
        }
    }
}

/// Counts frames that found no room.
pub fn count_dropped(stats: &mut AudioEngineStats, dropped: usize)
    ensures
        *final(stats) == dropped_counted(*old(stats), dropped as nat),
{
    if dropped > 0 {
        stats.fifo_overflows = bump(stats.fifo_overflows, 1);
        stats.fifo_dropped_frames = bump(stats.fifo_dropped_frames, dropped as u64);
    }
}

/// The larger of a peak so far and a new one. An infinite one does not count.
pub open spec fn raised_peak(so_far: u32, peak: u32) -> u32 {
    if peak < INFINITY_BITS && peak > so_far {
        peak
    } else {
        so_far
    }
}

/// The larger of a peak so far and a new one.
pub fn raise_peak(so_far: u32, peak: u32) -> (raised: u32)
    ensures
        raised == raised_peak(so_far, peak),
{
    if peak < INFINITY_BITS && peak > so_far {
        peak
    } else {
        so_far
    }
}

/// The counts after a packet of a peak.
pub open spec fn captured_peak_counted(stats: AudioEngineStats, peak: u32) -> AudioEngineStats {
    AudioEngineStats {
        captured_peak: raised_peak(stats.captured_peak, peak),
        non_silent_packets: bumped(stats.non_silent_packets, one_if(is_loud(peak)) as nat),
        ..stats
    }
}

/// Counts the peak of a packet.
pub fn count_captured_peak(stats: &mut AudioEngineStats, peak: u32)
    ensures
        *final(stats) == captured_peak_counted(*old(stats), peak),
{
    stats.captured_peak = raise_peak(stats.captured_peak, peak);
    if is_non_silent(peak) {
        stats.non_silent_packets = bump(stats.non_silent_packets, 1);
    }
}

/// The samples that a packet brings to the queue: none that are its own where it is
/// silent.
pub open spec fn packet_samples(packet: CapturePacket, data: Option<Seq<u32>>) -> Option<Seq<u32>> {
    if packet.silent {
        Some(silence((packet.frames * INTERNAL_CHANNELS) as nat))
    } else {
        data
    }
}

/// Passes a packet on that needs no resampling, and counts it. Gives the frames that were
/// taken.
pub fn pass_packet(
    producer: &mut AudioFifoProducer,
    packet: CapturePacket,
    data: Option<&[u32]>,
    quiet: &[u32],
    first_packet: bool,
    stats: &mut AudioEngineStats,
) -> (written: usize)
    requires
        old(producer).wf(),
        old(producer).channel_count() == INTERNAL_CHANNELS,
        packet.frames * INTERNAL_CHANNELS <= usize::MAX,
        quiet@ == silence(quiet@.len()),
        quiet@.len() > 0,
        quiet@.len() % INTERNAL_CHANNELS as nat == 0,
    ensures
        final(producer).wf(),
        final(producer).channel_count() == INTERNAL_CHANNELS,
        final(producer).traffic() == old(producer).traffic(),
        packet.silent ==> {
            &&& at_most(old(producer).room(), packet.frames as nat) <= written <= packet.frames
            &&& final(producer).written() == old(producer).written() + silence(
                (written * INTERNAL_CHANNELS) as nat,
            )
        },
        !packet.silent ==> match data {
            Some(samples) => block_written(
                *old(producer),
                *final(producer),
                samples@,
                written as nat,
            ),
            None => written == 0 && *final(producer) == *old(producer),
        },
        *final(stats) == captured_peak_counted(
            dropped_counted(
                packet_counted(*old(stats), packet, first_packet),
                if packet.frames > written {
                    (packet.frames - written) as nat
                } else {
                    0
                },
            ),
            if packet.silent {
                0
            } else {
                match data {
                    Some(samples) => peak_of(samples@),
                    None => 0,
                }
            },
        ),
{
    count_packet(stats, packet, first_packet);
    let frames = packet.frames as usize;
    let mut peak: u32 = 0;
    let written = if packet.silent {
        push_silence(producer, frames, quiet)
    } else {
        match data {
            Some(samples) => {
                peak = packet_peak(samples);
                write_block(producer, samples)
            },
            None => 0,
        }
    };
    let dropped = if frames > written {
        frames - written
    } else {
        0
    };
    count_dropped(stats, dropped);
    count_captured_peak(stats, peak);
    written
}

/// The format of what a device brings after its samples were converted: the rate is
/// still the device's own.
pub open spec fn converted_format(native: EndpointFormat) -> EndpointFormat {
    EndpointFormat {
        sample_rate: native.sample_rate,
        bits_per_sample: 32,
        channels: INTERNAL_CHANNELS as u16,
        channel_mask: 0x3,
        is_float: true,
        is_pcm: false,
    }
}

/// The format of what a device brings after its samples were converted.
pub fn source_format(native: EndpointFormat) -> (format: EndpointFormat)
    ensures
        format == converted_format(native),
{
    EndpointFormat {
        sample_rate: native.sample_rate,
        bits_per_sample: 32,
        channels: INTERNAL_CHANNELS as u16,
        channel_mask: 0x3,
        is_float: true,
        is_pcm: false,
    }
}

/// What waits to be resampled.
#[derive(Debug, PartialEq, Eq)]
pub struct CaptureResampler {
    /// The resampler; absent where the device has the rate of the mixer.
    pub resampler: Option<FixedOutputResampler>,
    /// Recorded samples that wait.
    pub input_buffer: Vec<u32>,
    /// The most samples that may wait.
    pub input_capacity: usize,
    /// The block that comes out.
    pub output_block: Vec<u32>,
}

/// Why what is recorded cannot be resampled, if it cannot.
pub open spec fn capture_resampler_fault(
    source_format: Option<EndpointFormat>,
    block_frames: usize,
) -> Option<ResamplerConfigFault> {
    match source_format {
        Some(format) => if format.sample_rate != INTERNAL_SAMPLE_RATE {
            config_fault(
                format.sample_rate,
                INTERNAL_SAMPLE_RATE,
                format.channels as usize,
                block_frames,
            )
        } else {
            None
        },
        None => None,
    }
}

/// The smaller of a number and the largest that the machine counts.
pub open spec fn capped(number: int) -> int {
    if number > usize::MAX {
        usize::MAX as int
    } else {
        number
    }
}

fn capped_product(a: usize, b: usize) -> (product: usize)
    ensures
        product == capped(a * b),
{
    match a.checked_mul(b) {
        Some(product) => product,
        None => usize::MAX,
    }
}

impl CaptureResampler {
    /// Lays out what is needed for a source. One that has the rate of the mixer, or no
    /// format of its own, needs nothing.
    pub fn new(source_format: Option<EndpointFormat>, block_frames: usize) -> (result: Result<
        Self,
        ResamplerConfigError,
    >)
        requires
            block_frames * INTERNAL_CHANNELS <= usize::MAX,
        ensures
            match result {
                Ok(capture) => {
                    &&& capture_resampler_fault(source_format, block_frames) is None
                    &&& match capture.resampler {
                        Some(resampler) => source_format matches Some(format) && format.sample_rate
                            != INTERNAL_SAMPLE_RATE && resampler == (FixedOutputResampler {
                            channels: format.channels as usize,
                            output_frames: block_frames,
                            input_rate: format.sample_rate,
                            output_rate: INTERNAL_SAMPLE_RATE,
                        }),
                        None => source_format matches Some(format) ==> format.sample_rate
                            == INTERNAL_SAMPLE_RATE,
                    }
                    &&& capture.input_buffer@ == Seq::<u32>::empty()
                    &&& capture.input_capacity == 0
                    &&& capture.output_block@ == silence((block_frames * INTERNAL_CHANNELS) as nat)
                },
                Err(e) => capture_resampler_fault(source_format, block_frames) == Some(e@),
            },
    {
        let resampler = match source_format {
            Some(format) => if format.sample_rate != INTERNAL_SAMPLE_RATE {
                match FixedOutputResampler::new(
                    format.sample_rate,
                    INTERNAL_SAMPLE_RATE,
                    format.channels as usize,
                    block_frames,
                ) {
                    Ok(resampler) => Some(resampler),
                    Err(e) => {
                        return Err(e);
                    },
                }
            } else {
                None
            },
            None => None,
        };
        let samples = block_frames * INTERNAL_CHANNELS;
        let mut output_block: Vec<u32> = Vec::new();
        for i in 0..samples
            invariant
                output_block@ == silence(i as nat),
        {
            output_block.push(0);
            assert(output_block@ =~= silence((i + 1) as nat));
        }
        Ok(
            CaptureResampler {
                resampler,
                input_buffer: Vec::new(),
                input_capacity: 0,
                output_block,
            },
        )
    }

    /// Makes room for a packet and for twice what the resampler takes with one block. The
    /// resampling engine says how much that is.
    pub fn reserve(&mut self, max_packet_frames: usize, engine_input_frames: usize)
        ensures
            final(self).resampler == old(self).resampler,
            final(self).input_buffer == old(self).input_buffer,
            final(self).output_block == old(self).output_block,
            final(self).input_capacity == match old(self).resampler {
                Some(resampler) => capped(
                    capped(max_packet_frames + capped(engine_input_frames * 2))
                        * resampler.channels,
                ),
                None => 0,
            },
    {
        self.input_capacity = match &self.resampler {
            Some(resampler) => {
                let twice = capped_product(engine_input_frames, 2);
                let frames = max_packet_frames.saturating_add(twice);
                capped_product(frames, resampler.channels)
            },
            None => 0,
        };
    }

    /// Adds silence, where it fits.
    pub fn append_silence(&mut self, frames: usize) -> (fits: bool)
        requires
            old(self).input_buffer@.len() <= old(self).input_capacity,
        ensures
            final(self).resampler == old(self).resampler,
            final(self).input_capacity == old(self).input_capacity,
            final(self).output_block == old(self).output_block,
            final(self).input_buffer@.len() <= final(self).input_capacity,
            fits == (old(self).input_buffer@.len() + frames * INTERNAL_CHANNELS
                <= old(self).input_capacity),
            final(self).input_buffer@ == if fits {
                old(self).input_buffer@ + silence((frames * INTERNAL_CHANNELS) as nat)
            } else {
                old(self).input_buffer@
            },
    {
        let free = self.input_capacity - self.input_buffer.len();
        if frames > free / INTERNAL_CHANNELS {
            return false;
        }
        let ghost before = self.input_buffer@;
        let samples = frames * INTERNAL_CHANNELS;
        assert(before + silence(0) =~= before);
        for i in 0..samples
            invariant
                self.resampler == old(self).resampler,
                self.input_capacity == old(self).input_capacity,
                self.output_block == old(self).output_block,
                self.input_buffer@ == before + silence(i as nat),
        {
            self.input_buffer.push(0);
            assert(self.input_buffer@ =~= before + silence((i + 1) as nat));
        }
        true
    }

    /// Adds samples, where they fit.
    pub fn append_samples(&mut self, samples: &[u32]) -> (fits: bool)
        requires
            old(self).input_buffer@.len() <= old(self).input_capacity,
        ensures
            final(self).resampler == old(self).resampler,
            final(self).input_capacity == old(self).input_capacity,
            final(self).output_block == old(self).output_block,
            final(self).input_buffer@.len() <= final(self).input_capacity,
            fits == (old(self).input_buffer@.len() + samples@.len() <= old(self).input_capacity),
            final(self).input_buffer@ == if fits {
                old(self).input_buffer@ + samples@
            } else {
                old(self).input_buffer@
            },
    {
        let free = self.input_capacity - self.input_buffer.len();
        if samples.len() > free {
            return false;
        }
        let ghost before = self.input_buffer@;
        assert(before + samples@.take(0) =~= before);
        for i in 0..samples.len()
            invariant
                self.resampler == old(self).resampler,
                self.input_capacity == old(self).input_capacity,
                self.output_block == old(self).output_block,
                self.input_buffer@ == before + samples@.take(i as int),
        {
            self.input_buffer.push(samples[i]);
            assert(self.input_buffer@ =~= before + samples@.take(i + 1));
        }
        assert(samples@.take(samples@.len() as int) =~= samples@);
        true
    }

    /// Adds what a packet brings. `false` where it does not fit: then the source has to be
    /// given up.
    pub fn append_packet(&mut self, packet: CapturePacket, data: Option<&[u32]>) -> (fits: bool)
        requires
            old(self).input_buffer@.len() <= old(self).input_capacity,
        ensures
            final(self).resampler == old(self).resampler,
            final(self).input_capacity == old(self).input_capacity,
            final(self).output_block == old(self).output_block,
            final(self).input_buffer@.len() <= final(self).input_capacity,
            ({
                let added = if packet.silent || data is None {
                    silence((packet.frames * INTERNAL_CHANNELS) as nat)
                } else {
                    data->0@
                };
                &&& fits == (old(self).input_buffer@.len() + added.len() <= old(self).input_capacity)
                &&& final(self).input_buffer@ == if fits {
                    old(self).input_buffer@ + added
                } else {
                    old(self).input_buffer@
                }
            }),
    {
        if packet.silent {
            return self.append_silence(packet.frames as usize);
        }
        match data {
            Some(samples) => self.append_samples(samples),
            None => self.append_silence(packet.frames as usize),
        }
    }

    /// Takes what the resampling engine needs for its next block, once it is there.
    pub fn next_input(&mut self, engine_input_frames: usize) -> (input: Option<Vec<u32>>)
        requires
            engine_input_frames * INTERNAL_CHANNELS <= usize::MAX,
        ensures
            final(self).resampler == old(self).resampler,
            final(self).input_capacity == old(self).input_capacity,
            final(self).output_block == old(self).output_block,
            match input {
                Some(input) => {
                    &&& input@.len() == engine_input_frames * INTERNAL_CHANNELS
                    &&& old(self).input_buffer@ == input@ + final(self).input_buffer@
                },
                None => old(self).input_buffer@.len() < engine_input_frames * INTERNAL_CHANNELS
                    && final(self).input_buffer@ == old(self).input_buffer@,
            },
    {
        let needed = engine_input_frames * INTERNAL_CHANNELS;
        if self.input_buffer.len() < needed {
            return None;
        }
        let ghost before = self.input_buffer@;
        let rest = self.input_buffer.split_off(needed);
        let mut input = rest;
        std::mem::swap(&mut input, &mut self.input_buffer);
        assert(before =~= input@ + self.input_buffer@);
        Some(input)
    }
}

/// What came of the blocks of one packet so far.
#[derive(Clone, Copy, Debug, PartialEq, Eq, Structural)]
pub struct ResampledPacket {
    /// The frames that came out of the resampler.
    pub expected: usize,
    /// The frames that the queue took.
    pub written: usize,
    pub peak: u32,
}

/// Passes a resampled block on.
pub fn pass_resampled_block(
    producer: &mut AudioFifoProducer,
    block: &[u32],
    so_far: ResampledPacket,
) -> (next: ResampledPacket)
    requires
        old(producer).wf(),
        old(producer).channel_count() == INTERNAL_CHANNELS,
        so_far.written <= so_far.expected,
        so_far.expected + block@.len() <= usize::MAX,
    ensures
        ({
            let written = next.written - so_far.written;
            &&& written >= 0
            &&& block_written(*old(producer), *final(producer), block@, written as nat)
        }),
        next.written <= next.expected,
        next.expected == so_far.expected + block@.len() / INTERNAL_CHANNELS as nat,
        next.peak == if peak_of(block@) > so_far.peak {
            peak_of(block@)
        } else {
            so_far.peak
        },
{
    let block_peak = packet_peak(block);
    let frames = block.len() / INTERNAL_CHANNELS;
    let written = write_block(producer, block);
    ResampledPacket {
        expected: so_far.expected + frames,
        written: so_far.written + written,
        peak: if block_peak > so_far.peak {
            block_peak
        } else {
            so_far.peak
        },
    }
}

/// Counts a packet whose blocks have all been passed on.
pub fn finish_resampled_packet(stats: &mut AudioEngineStats, packet: ResampledPacket)
    requires
        packet.written <= packet.expected,
    ensures
        *final(stats) == captured_peak_counted(
            dropped_counted(*old(stats), (packet.expected - packet.written) as nat),
            packet.peak,
        ),
{
    count_dropped(stats, packet.expected - packet.written);
    count_captured_peak(stats, packet.peak);
}

/// A frame that was captured is either passed on or counted as lost.
pub proof fn law_frames_are_accounted(stats: AudioEngineStats, frames: nat, written: nat)
    requires
        written <= frames,
        stats.fifo_dropped_frames + frames <= u64::MAX,
    ensures
        written + (dropped_counted(stats, (frames - written) as nat).fifo_dropped_frames
            - stats.fifo_dropped_frames) == frames,
{
}

/// Where a source is recorded.
#[derive(Debug, PartialEq, Eq)]
pub enum CaptureTarget {
    Device(EndpointId),
    DeviceLoopback(EndpointId),
    Process(u32),
    /// The network brings it; nothing is recorded.
    Network,
}

/// What a `CaptureTarget` says.
#[verifier::ext_equal]
pub enum TargetModel {
    Device(Seq<char>),
    DeviceLoopback(Seq<char>),
    Process(u32),
    Network,
}

impl View for CaptureTarget {
    type V = TargetModel;

    open spec fn view(&self) -> TargetModel {
        match *self {
            CaptureTarget::Device(id) => TargetModel::Device(id@),
            CaptureTarget::DeviceLoopback(id) => TargetModel::DeviceLoopback(id@),
            CaptureTarget::Process(pid) => TargetModel::Process(pid),
            CaptureTarget::Network => TargetModel::Network,
        }
    }
}

/// Where a source is recorded, or what it lacks.
pub open spec fn target_of(source: SourceModel) -> Result<TargetModel, Seq<char>> {
    match source.kind {
        SourceKind::DeviceCapture => match source.endpoint_id {
            Some(id) => Ok(TargetModel::Device(id)),
            None => Err("source 未配置 endpoint ID"@),
        },
        SourceKind::DeviceLoopback => match source.endpoint_id {
            Some(id) => Ok(TargetModel::DeviceLoopback(id)),
            None => Err("source 未配置 endpoint ID"@),
        },
        SourceKind::ProcessLoopback => match source.process_id {
            Some(pid) => if pid != 0 {
                Ok(TargetModel::Process(pid))
            } else {
                Err("Process Loopback source 未配置有效 process ID"@)
            },
            None => Err("Process Loopback source 未配置有效 process ID"@),
        },
        SourceKind::Vban => Ok(TargetModel::Network),
    }
}

/// Where a source is recorded, or what it lacks.
pub fn capture_target(source: &SourceSpec) -> (result: Result<CaptureTarget, String>)
    ensures
        match result {
            Ok(target) => target_of(source@) == Ok::<TargetModel, Seq<char>>(target@),
            Err(lack) => target_of(source@) == Err::<TargetModel, Seq<char>>(lack@),
        },
{
    match source.kind {
        SourceKind::DeviceCapture => match &source.endpoint_id {
            Some(id) => Ok(CaptureTarget::Device(id.clone())),
            None => Err("source 未配置 endpoint ID".to_owned()),
        },
        SourceKind::DeviceLoopback => match &source.endpoint_id {
            Some(id) => Ok(CaptureTarget::DeviceLoopback(id.clone())),
            None => Err("source 未配置 endpoint ID".to_owned()),
        },
        SourceKind::ProcessLoopback => {
            if let Some(pid) = source.process_id {
                if pid != 0 {
                    return Ok(CaptureTarget::Process(pid));
                }
            }
            Err("Process Loopback source 未配置有效 process ID".to_owned())
        },
        SourceKind::Vban => Ok(CaptureTarget::Network),
    }
}

/// A source that an engine accepts can be recorded.
pub proof fn law_accepted_source_has_target(source: SourceModel)
    ensures
        crate::runtime::config::source_lack(source) is None <==> target_of(source) is Ok,
{
}

} // verus!
