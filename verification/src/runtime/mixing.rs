//! When a block is mixed, and what happens to it.

use crate::arithmetic::{is_unary, unary};
use crate::decibels::Decibels;
use crate::fifo::{AudioFifoConsumer, AudioFifoProducer};
use crate::mixer::{
    arithmetic_of, blocks, ops_are_functions, plan_fault, plan_of, slices, MixerError, MixerPlan,
    SampleOps,
};
use crate::routing::{RouteGraph, INTERNAL_CHANNELS};
use crate::runtime::capture::{
    block_read, block_written, count_dropped, dropped_counted, read_block, write_block,
};
use crate::runtime::config::{STARTUP_PREFILL_BLOCKS, UNDERFLOW_GRACE_BLOCKS};
use crate::runtime::status::{
    bump, bumped, should_report_source_underflow, underflow_counts, underflow_grace_period,
    AudioEngineStats,
};
use vstd::prelude::*;

verus! {

/// The frames that are collected before a stream is fed.
pub open spec fn prefill_of(block_frames: nat, capacity_frames: nat) -> nat {
    if block_frames * STARTUP_PREFILL_BLOCKS <= capacity_frames {
        block_frames * STARTUP_PREFILL_BLOCKS as nat
    } else {
        capacity_frames
    }
}

/// The frames that are collected before a stream is fed: two blocks, or as much as a queue
/// holds.
pub fn startup_prefill_frames(block_frames: usize, capacity_frames: usize) -> (frames: usize)
    ensures
        frames == prefill_of(block_frames as nat, capacity_frames as nat),
{
    match block_frames.checked_mul(STARTUP_PREFILL_BLOCKS) {
        Some(frames) => if frames <= capacity_frames {
            frames
        } else {
            capacity_frames
        },
        None => capacity_frames,
    }
}

/// When the next block is due, and how long to wait for it. A block that is late is due at
/// once, and lateness is not made up for. Times are in nanoseconds.
pub open spec fn paced(deadline: nat, period: nat, now: nat) -> (nat, nat) {
    if deadline + period > now {
        (deadline + period, (deadline + period - now) as nat)
    } else {
        (now, 0)
    }
}

/// When the next block is due, and how long to wait for it.
pub fn pace(deadline: u64, period: u64, now: u64) -> (next: (u64, u64))
    requires
        deadline + period <= u64::MAX,
    ensures
        (next.0 as nat, next.1 as nat) == paced(deadline as nat, period as nat, now as nat),
{
    let due = deadline + period;
    if due > now {
        (due, due - now)
    } else {
        (now, 0)
    }
}

/// How long a source has been without a whole block.
#[derive(Clone, Copy, Debug, PartialEq, Eq, Structural)]
pub struct Starvation {
    /// Since when, while it is.
    pub since: Option<u64>,
    /// Whether it has been counted.
    pub reported: bool,
}

/// Of a source that has a whole block.
pub open spec fn not_starving() -> Starvation {
    Starvation { since: None, reported: false }
}

/// The starvation of a source with so many frames, and whether it counts now.
pub open spec fn starved(
    starvation: Starvation,
    available: nat,
    block_frames: nat,
    now: u64,
    grace: nat,
) -> (Starvation, bool) {
    if available >= block_frames {
        (not_starving(), false)
    } else {
        let since = match starvation.since {
            Some(since) => since,
            None => now,
        };
        let elapsed = if now >= since {
            (now - since) as nat
        } else {
            0
        };
        let counts = underflow_counts(
            available,
            block_frames,
            elapsed,
            starvation.reported,
            grace,
        );
        (Starvation { since: Some(since), reported: starvation.reported || counts }, counts)
    }
}

/// Looks at a source, and says whether its starvation counts now.
pub fn watch_source(
    starvation: &mut Starvation,
    available: usize,
    block_frames: usize,
    now: u64,
    grace: u64,
) -> (counts: bool)
    ensures
        (*final(starvation), counts) == starved(
            *old(starvation),
            available as nat,
            block_frames as nat,
            now,
            grace as nat,
        ),
{
    if available >= block_frames {
        starvation.since = None;
        starvation.reported = false;
        return false;
    }
    let since = match starvation.since {
        Some(since) => since,
        None => now,
    };
    let elapsed = if now >= since {
        now - since
    } else {
        0
    };
    let counts = should_report_source_underflow(
        available,
        block_frames,
        elapsed,
        starvation.reported,
        grace,
    );
    starvation.since = Some(since);
    starvation.reported = starvation.reported || counts;
    counts
}

/// Counts once, and not again before the source had a whole block.
pub proof fn law_starvation_counts_once(
    starvation: Starvation,
    available: nat,
    later: nat,
    block_frames: nat,
    now: u64,
    then_now: u64,
    grace: nat,
)
    requires
        starved(starvation, available, block_frames, now, grace).1,
        later < block_frames,
    ensures
        ({
            let after = starved(starvation, available, block_frames, now, grace).0;
            !starved(after, later, block_frames, then_now, grace).1
        }),
{
}

/// What the mixer does next.
#[derive(Clone, Copy, Debug, PartialEq, Eq, Structural)]
pub enum MixerTick {
    /// Wait a moment.
    Wait,
    /// Mix a block.
    Mix,
}

/// When the mixer mixes.
#[derive(Debug, PartialEq, Eq)]
pub struct MixerSchedule {
    pub block_frames: usize,
    /// The frames that some source has to have before the first block.
    pub prefill_frames: usize,
    /// The length of a block in nanoseconds.
    pub block_period: u64,
    /// Whether the first block was due.
    pub primed: bool,
    /// When the next block is due.
    pub next_deadline: u64,
    /// How long each source has been without a whole block.
    pub starvation: Vec<Starvation>,
}

/// The most frames that some source has.
pub open spec fn most_available(available: Seq<usize>) -> usize
    decreases available.len(),
{
    if available.len() == 0 {
        0
    } else {
        let rest = most_available(available.drop_last());
        if available.last() > rest {
            available.last()
        } else {
            rest
        }
    }
}

/// How many of the first sources count as starving now.
pub open spec fn newly_starved(
    starvation: Seq<Starvation>,
    available: Seq<usize>,
    n: nat,
    block_frames: nat,
    now: u64,
    grace: nat,
) -> nat
    decreases n,
{
    if n == 0 {
        0
    } else {
        let rest = newly_starved(starvation, available, (n - 1) as nat, block_frames, now, grace);
        if starved(
            starvation[n - 1],
            available[n - 1] as nat,
            block_frames,
            now,
            grace,
        ).1 {
            rest + 1
        } else {
            rest
        }
    }
}

impl MixerSchedule {
    /// A schedule for so many sources.
    pub fn new(
        sources: usize,
        block_frames: usize,
        capacity_frames: usize,
        block_period: u64,
        now: u64,
    ) -> (schedule: Self)
        ensures
            schedule.block_frames == block_frames,
            schedule.prefill_frames == prefill_of(block_frames as nat, capacity_frames as nat),
            schedule.block_period == block_period,
            !schedule.primed,
            schedule.next_deadline == now,
            schedule.starvation@ == Seq::new(sources as nat, |i: int| not_starving()),
    {
        let mut starvation: Vec<Starvation> = Vec::new();
        for i in 0..sources
            invariant
                starvation@ == Seq::new(i as nat, |i: int| not_starving()),
        {
            starvation.push(Starvation { since: None, reported: false });
            assert(starvation@ =~= Seq::new((i + 1) as nat, |i: int| not_starving()));
        }
        MixerSchedule {
            block_frames,
            prefill_frames: startup_prefill_frames(block_frames, capacity_frames),
            block_period,
            primed: false,
            next_deadline: now,
            starvation,
        }
    }

    /// Decides by what the sources have. The first block waits until some source has
    /// enough; from then on a block is due whenever some source has one, and the others
    /// are silent. Each source that starves is counted for itself.
    pub fn tick(&mut self, available: &Vec<usize>, now: u64, stats: &mut AudioEngineStats) -> (tick:
        MixerTick)
        requires
            old(self).starvation@.len() == available@.len(),
            old(self).block_period * UNDERFLOW_GRACE_BLOCKS <= u64::MAX,
        ensures
            final(self).block_frames == old(self).block_frames,
            final(self).prefill_frames == old(self).prefill_frames,
            final(self).block_period == old(self).block_period,
            final(self).starvation@.len() == old(self).starvation@.len(),
            ({
                let most = most_available(available@);
                let grace = (old(self).block_period * UNDERFLOW_GRACE_BLOCKS) as nat;
                if !old(self).primed && most < old(self).prefill_frames {
                    &&& tick == MixerTick::Wait
                    &&& *final(self) == *old(self)
                    &&& *final(stats) == *old(stats)
                } else {
                    &&& final(self).primed
                    &&& final(self).next_deadline == if old(self).primed {
                        old(self).next_deadline
                    } else {
                        now
                    }
                    &&& forall|i: int|
                        0 <= i < available@.len() ==> #[trigger] final(self).starvation@[i]
                            == starved(
                            old(self).starvation@[i],
                            available@[i] as nat,
                            old(self).block_frames as nat,
                            now,
                            grace,
                        ).0
                    &&& *final(stats) == (AudioEngineStats {
                        fifo_underflows: bumped(
                            old(stats).fifo_underflows,
                            newly_starved(
                                old(self).starvation@,
                                available@,
                                available@.len(),
                                old(self).block_frames as nat,
                                now,
                                grace,
                            ),
                        ),
                        ..*old(stats)
                    })
                    &&& tick == if most < old(self).block_frames {
                        MixerTick::Wait
                    } else {
                        MixerTick::Mix
                    }
                }
            }),
    {
        let mut most: usize = 0;
        for i in 0..available.len()
            invariant
                most == most_available(available@.take(i as int)),
        {
            assert(available@.take(i + 1).drop_last() =~= available@.take(i as int));
            if available[i] > most {
                most = available[i];
            }
        }
        assert(available@.take(available@.len() as int) =~= available@);
        if !self.primed {
            if most < self.prefill_frames {
                return MixerTick::Wait;
            }
            self.primed = true;
            self.next_deadline = now;
        }
        let grace = underflow_grace_period(self.block_period);
        let sources = available.len();
        let ghost before = self.starvation@;
        let ghost counted = *stats;
        let mut starving: u64 = 0;
        let block_frames = self.block_frames;
        for i in 0..sources
            invariant
                sources == available@.len(),
                self.starvation@.len() == sources,
                before.len() == sources,
                self.block_frames == block_frames,
                self.block_frames == old(self).block_frames,
                self.prefill_frames == old(self).prefill_frames,
                self.block_period == old(self).block_period,
                self.primed,
                self.next_deadline == (if old(self).primed {
                    old(self).next_deadline
                } else {
                    now
                }),
                starving <= i,
                starving == newly_starved(
                    before,
                    available@,
                    i as nat,
                    block_frames as nat,
                    now,
                    grace as nat,
                ),
                forall|j: int|
                    0 <= j < sources ==> #[trigger] self.starvation@[j] == if j < i {
                        starved(
                            before[j],
                            available@[j] as nat,
                            block_frames as nat,
                            now,
                            grace as nat,
                        ).0
                    } else {
                        before[j]
                    },
        {
            if watch_source(&mut self.starvation[i], available[i], block_frames, now, grace) {
                starving = starving + 1;
            }
        }
        stats.fifo_underflows = bump(stats.fifo_underflows, starving);
        if most < self.block_frames {
            MixerTick::Wait
        } else {
            MixerTick::Mix
        }
    }

    /// Says how long to wait after a block.
    pub fn after_block(&mut self, now: u64) -> (wait: u64)
        requires
            old(self).next_deadline + old(self).block_period <= u64::MAX,
        ensures
            (final(self).next_deadline as nat, wait as nat) == paced(
                old(self).next_deadline as nat,
                old(self).block_period as nat,
                now as nat,
            ),
            final(self).block_frames == old(self).block_frames,
            final(self).prefill_frames == old(self).prefill_frames,
            final(self).block_period == old(self).block_period,
            final(self).primed == old(self).primed,
            final(self).starvation == old(self).starvation,
    {
        let (deadline, wait) = pace(self.next_deadline, self.block_period, now);
        self.next_deadline = deadline;
        wait
    }
}

/// Whether every end of the queues is in order.
pub open spec fn consumers_wf(consumers: Seq<AudioFifoConsumer>) -> bool {
    forall|i: int| 0 <= i < consumers.len() ==> (#[trigger] consumers[i]).wf()
}

/// Whether every end of the queues is in order.
pub open spec fn producers_wf(producers: Seq<AudioFifoProducer>) -> bool {
    forall|i: int| 0 <= i < producers.len() ==> (#[trigger] producers[i]).wf()
}

/// What reading a block does to the reading end of a queue, however much there was.
pub open spec fn source_read(
    before: AudioFifoConsumer,
    after: AudioFifoConsumer,
    block: Seq<u32>,
) -> bool {
    exists|frames: nat| #[trigger] block_read(before, after, block, frames)
}

/// Reads a block from every source.
pub fn read_sources(consumers: &mut Vec<AudioFifoConsumer>, source_blocks: &mut Vec<Vec<u32>>)
    requires
        consumers_wf(old(consumers)@),
        old(consumers)@.len() == old(source_blocks)@.len(),
    ensures
        consumers_wf(final(consumers)@),
        final(consumers)@.len() == old(consumers)@.len(),
        final(source_blocks)@.len() == old(source_blocks)@.len(),
        forall|i: int|
            0 <= i < final(consumers)@.len() ==> (#[trigger] final(source_blocks)@[i])@.len()
                == old(source_blocks)@[i]@.len() && source_read(
                old(consumers)@[i],
                final(consumers)@[i],
                final(source_blocks)@[i]@,
            ),
{
    let count = consumers.len();
    let ghost ends = consumers@;
    let ghost starts = source_blocks@;
    for i in 0..count
        invariant
            consumers@.len() == count,
            source_blocks@.len() == count,
            ends.len() == count,
            starts.len() == count,
            consumers_wf(consumers@),
            forall|j: int| i <= j < count ==> #[trigger] consumers@[j] == ends[j],
            forall|j: int| i <= j < count ==> #[trigger] source_blocks@[j] == starts[j],
            forall|j: int|
                0 <= j < i ==> (#[trigger] source_blocks@[j])@.len() == starts[j]@.len()
                    && source_read(ends[j], consumers@[j], source_blocks@[j]@),
    {
        let ghost prior = consumers@;
        let ghost prior_blocks = source_blocks@;
        assert(prior[i as int] == ends[i as int]);
        let frames = read_block(&mut consumers[i], &mut source_blocks[i]);
        proof {
            assert(block_read(
                ends[i as int],
                consumers@[i as int],
                source_blocks@[i as int]@,
                frames as nat,
            ));
            assert forall|j: int| 0 <= j < i implies (#[trigger] source_blocks@[j])@.len()
                == starts[j]@.len() && source_read(ends[j], consumers@[j], source_blocks@[j]@) by {
                assert(prior_blocks[j] == source_blocks@[j]);
                assert(prior[j] == consumers@[j]);
            }
        }
    }
}

/// The counts after a block of every sink was written, some of it perhaps not taken.
pub open spec fn sinks_counted(
    stats: AudioEngineStats,
    written: Seq<nat>,
    n: nat,
    block_frames: nat,
) -> AudioEngineStats
    decreases n,
{
    if n == 0 {
        stats
    } else {
        let rest = sinks_counted(stats, written, (n - 1) as nat, block_frames);
        if written[n - 1] < block_frames {
            dropped_counted(rest, (block_frames - written[n - 1]) as nat)
        } else {
            rest
        }
    }
}

/// Writes a block to every sink, and counts what is not taken. Gives the frames that were
/// taken.
pub fn write_sinks(
    producers: &mut Vec<AudioFifoProducer>,
    sink_blocks: &Vec<Vec<u32>>,
    block_frames: usize,
    stats: &mut AudioEngineStats,
) -> (written: Vec<usize>)
    requires
        producers_wf(old(producers)@),
        old(producers)@.len() == sink_blocks@.len(),
    ensures
        producers_wf(final(producers)@),
        final(producers)@.len() == old(producers)@.len(),
        written@.len() == old(producers)@.len(),
        forall|i: int|
            0 <= i < written@.len() ==> block_written(
                old(producers)@[i],
                final(producers)@[i],
                sink_blocks@[i]@,
                #[trigger] written@[i] as nat,
            ),
        *final(stats) == sinks_counted(
            *old(stats),
            written@.map_values(|w: usize| w as nat),
            written@.len(),
            block_frames as nat,
        ),
{
    let count = producers.len();
    let ghost ends = producers@;
    let ghost counted = *stats;
    let mut written: Vec<usize> = Vec::new();
    for i in 0..count
        invariant
            producers@.len() == count,
            sink_blocks@.len() == count,
            ends.len() == count,
            written@.len() == i,
            producers_wf(producers@),
            forall|j: int| i <= j < count ==> #[trigger] producers@[j] == ends[j],
            forall|j: int|
                0 <= j < i ==> block_written(
                    ends[j],
                    producers@[j],
                    sink_blocks@[j]@,
                    #[trigger] written@[j] as nat,
                ),
            *stats == sinks_counted(
                counted,
                written@.map_values(|w: usize| w as nat),
                i as nat,
                block_frames as nat,
            ),
    {
        let ghost prior = producers@;
        let ghost before = written@.map_values(|w: usize| w as nat);
        assert(prior[i as int] == ends[i as int]);
        let frames = write_block(&mut producers[i], sink_blocks[i].as_slice());
        if frames < block_frames {
            count_dropped(stats, block_frames - frames);
        }
        written.push(frames);
        proof {
            let after = written@.map_values(|w: usize| w as nat);
            lemma_counts_agree(counted, before, after, i as nat, block_frames as nat);
            assert forall|j: int| 0 <= j < i implies block_written(
                ends[j],
                producers@[j],
                sink_blocks@[j]@,
                #[trigger] written@[j] as nat,
            ) by {
                assert(prior[j] == producers@[j]);
            }
        }
    }
    written
}

/// Only the first entries matter for the counts.
proof fn lemma_counts_agree(
    stats: AudioEngineStats,
    first: Seq<nat>,
    second: Seq<nat>,
    n: nat,
    block_frames: nat,
)
    requires
        n <= first.len(),
        n <= second.len(),
        forall|i: int| 0 <= i < n ==> first[i] == second[i],
    ensures
        sinks_counted(stats, first, n, block_frames) == sinks_counted(
            stats,
            second,
            n,
            block_frames,
        ),
    decreases n,
{
    if n > 0 {
        lemma_counts_agree(stats, first, second, (n - 1) as nat, block_frames);
    }
}

/// Follows a graph that the session was given: compiles the plan anew, and counts it. A
/// graph of which no plan comes is an error, and the plan stays.
pub fn take_graph<D: Fn(Decibels) -> u32>(
    plan: &mut MixerPlan<u32>,
    graph: &RouteGraph,
    block_frames: usize,
    db_to_linear: &D,
    stats: &mut AudioEngineStats,
) -> (result: Result<(), MixerError>)
    requires
        is_unary(*db_to_linear),
        old(plan).wf(),
    ensures
        final(plan).wf(),
        ({
            let fault = plan_fault(
                graph@,
                block_frames as nat,
                INTERNAL_CHANNELS as nat,
                INTERNAL_CHANNELS as nat,
            );
            match result {
                Ok(_) => {
                    &&& fault is None
                    &&& final(plan)@ == plan_of(
                        graph@,
                        block_frames as nat,
                        INTERNAL_CHANNELS as nat,
                        INTERNAL_CHANNELS as nat,
                        0u32,
                        |gain: Decibels| unary(*db_to_linear, gain),
                    )
                    &&& final(plan).last_peaks() == Seq::new(
                        final(plan)@.send_ids().len(),
                        |i: int| (0u32, 0u32),
                    )
                    &&& *final(stats) == (AudioEngineStats {
                        graph_updates: bumped(old(stats).graph_updates, 1),
                        ..*old(stats)
                    })
                },
                Err(e) => {
                    &&& fault == Some(e@)
                    &&& *final(plan) == *old(plan)
                    &&& *final(stats) == *old(stats)
                },
            }
        }),
{
    match MixerPlan::new(graph, block_frames, INTERNAL_CHANNELS, INTERNAL_CHANNELS, 0, db_to_linear)
    {
        Ok(next) => {
            *plan = next;
            stats.graph_updates = bump(stats.graph_updates, 1);
            Ok(())
        },
        Err(e) => Err(e),
    }
}

/// Mixes one block: reads the sources, mixes, and writes the sinks. A plan that does not
/// fit the blocks is an error, and nothing is written.
pub fn mix_block<
    M: Fn(u32, u32) -> u32,
    A: Fn(u32, u32) -> u32,
    G: Fn(u32) -> u32,
    L: Fn(u32, u32) -> bool,
>(
    plan: &mut MixerPlan<u32>,
    ops: &SampleOps<M, A, G, L>,
    consumers: &mut Vec<AudioFifoConsumer>,
    producers: &mut Vec<AudioFifoProducer>,
    source_blocks: &mut Vec<Vec<u32>>,
    sink_blocks: &mut Vec<Vec<u32>>,
    block_frames: usize,
    stats: &mut AudioEngineStats,
) -> (result: Result<Vec<usize>, MixerError>)
    requires
        ops_are_functions::<u32, M, A, G, L>(*ops),
        old(plan).wf(),
        consumers_wf(old(consumers)@),
        producers_wf(old(producers)@),
        old(consumers)@.len() == old(source_blocks)@.len(),
        old(producers)@.len() == old(sink_blocks)@.len(),
    ensures
        final(plan).wf(),
        final(plan)@ == old(plan)@,
        consumers_wf(final(consumers)@),
        producers_wf(final(producers)@),
        final(consumers)@.len() == old(consumers)@.len(),
        final(producers)@.len() == old(producers)@.len(),
        final(source_blocks)@.len() == old(source_blocks)@.len(),
        final(sink_blocks)@.len() == old(sink_blocks)@.len(),
        forall|i: int|
            0 <= i < final(consumers)@.len() ==> (#[trigger] final(source_blocks)@[i])@.len()
                == old(source_blocks)@[i]@.len() && source_read(
                old(consumers)@[i],
                final(consumers)@[i],
                final(source_blocks)@[i]@,
            ),
        match result {
            Ok(written) => {
                &&& old(plan)@.block_fault(
                    blocks(final(source_blocks)@),
                    blocks(old(sink_blocks)@),
                ) is None
                &&& blocks(final(sink_blocks)@) == old(plan)@.sinks(
                    arithmetic_of::<u32, M, A, G, L>(*ops),
                    blocks(final(source_blocks)@),
                )
                &&& final(plan).last_peaks() == old(plan)@.peaks(
                    arithmetic_of::<u32, M, A, G, L>(*ops),
                    blocks(final(source_blocks)@),
                )
                &&& written@.len() == old(producers)@.len()
                &&& forall|i: int|
                    0 <= i < written@.len() ==> block_written(
                        old(producers)@[i],
                        final(producers)@[i],
                        final(sink_blocks)@[i]@,
                        #[trigger] written@[i] as nat,
                    )
                &&& *final(stats) == sinks_counted(
                    *old(stats),
                    written@.map_values(|w: usize| w as nat),
                    written@.len(),
                    block_frames as nat,
                )
            },
            Err(e) => {
                &&& old(plan)@.block_fault(
                    blocks(final(source_blocks)@),
                    blocks(old(sink_blocks)@),
                ) == Some(e@)
                &&& *final(plan) == *old(plan)
                &&& *final(producers) == *old(producers)
                &&& *final(sink_blocks) == *old(sink_blocks)
                &&& *final(stats) == *old(stats)
            },
        },
{
    read_sources(consumers, source_blocks);
    let ghost model = plan@;
    let count = source_blocks.len();
    let ghost read = source_blocks@;
    let mut refs: Vec<&[u32]> = Vec::new();
    for i in 0..count
        invariant
            count == source_blocks@.len(),
            source_blocks@ == read,
            refs@.len() == i,
            forall|j: int| 0 <= j < i ==> (#[trigger] refs@[j])@ == read[j]@,
    {
        refs.push(source_blocks[i].as_slice());
    }
    assert(slices(refs@) =~= blocks(read));
    match plan.process(ops, refs.as_slice(), sink_blocks) {
        Ok(_) => {
            proof {
                assert(blocks(sink_blocks@).len() == sink_blocks@.len());
                assert(blocks(old(sink_blocks)@).len() == old(sink_blocks)@.len());
            }
            let written = write_sinks(producers, sink_blocks, block_frames, stats);
            Ok(written)
        },
        Err(e) => Err(e),
    }
}

} // verus!
