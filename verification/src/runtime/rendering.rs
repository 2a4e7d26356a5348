//! When a block is rendered, and what is counted of it.

use crate::fifo::AudioFifoConsumer;
use crate::routing::INTERNAL_CHANNELS;
use crate::runtime::capture::{block_read, raise_peak, raised_peak, read_block};
use crate::runtime::config::UNDERFLOW_GRACE_BLOCKS;
use crate::runtime::mixing::{
    not_starving, pace, paced, prefill_of, starved, startup_prefill_frames, watch_source,
    Starvation,
};
use crate::runtime::status::{
    bump, bumped, is_loud, is_non_silent, packet_peak, peak_of, underflow_grace_period,
    AudioEngineStats,
};
use crate::windows::stream::{one_if, RenderWriteResult};
use vstd::prelude::*;

verus! {

/// How long to wait before something is tried again, in nanoseconds.
pub const RETRY_NANOS: u64 = 1_000_000;

/// What a renderer does next.
#[derive(Clone, Copy, Debug, PartialEq, Eq, Structural)]
pub enum RenderStep {
    /// Wait a moment.
    Wait,
    /// Read a block from the queue, then write it.
    Read,
    /// Write the block that is there.
    Write,
}

/// When a renderer renders.
#[derive(Debug, PartialEq, Eq)]
pub struct RenderSchedule {
    pub block_frames: usize,
    /// The frames that the queue has to have before the first block.
    pub prefill_frames: usize,
    /// The length of a block in nanoseconds.
    pub block_period: u64,
    /// Whether the first block was due.
    pub primed: bool,
    /// Whether a block is there that the device has not taken.
    pub pending: bool,
    /// When the next block is due.
    pub next_deadline: u64,
    /// How long the queue has been without a whole block.
    pub starvation: Starvation,
}

impl RenderSchedule {
    /// A schedule for a queue.
    pub fn new(block_frames: usize, capacity_frames: usize, block_period: u64, now: u64) -> (schedule:
        Self)
        ensures
            schedule == (RenderSchedule {
                block_frames,
                prefill_frames: prefill_of(block_frames as nat, capacity_frames as nat) as usize,
                block_period,
                primed: false,
                pending: false,
                next_deadline: now,
                starvation: not_starving(),
            }),
    {
        RenderSchedule {
            block_frames,
            prefill_frames: startup_prefill_frames(block_frames, capacity_frames),
            block_period,
            primed: false,
            pending: false,
            next_deadline: now,
            starvation: Starvation { since: None, reported: false },
        }
    }

    /// What is decided by what the queue has, and what is counted for it.
    pub open spec fn decided(self, available: nat, now: u64, stats: AudioEngineStats) -> (
        RenderSchedule,
        RenderStep,
        AudioEngineStats,
    ) {
        let grace = (self.block_period * UNDERFLOW_GRACE_BLOCKS) as nat;
        let (starvation, counts) = starved(
            self.starvation,
            available,
            self.block_frames as nat,
            now,
            grace,
        );
        if self.pending {
            (self, RenderStep::Write, stats)
        } else if !self.primed && available < self.prefill_frames {
            (self, RenderStep::Wait, stats)
        } else {
            (
                RenderSchedule {
                    primed: true,
                    next_deadline: if self.primed {
                        self.next_deadline
                    } else {
                        now
                    },
                    starvation,
                    ..self
                },
                if available < self.block_frames {
                    RenderStep::Wait
                } else {
                    RenderStep::Read
                },
                AudioEngineStats {
                    fifo_underflows: bumped(stats.fifo_underflows, one_if(counts) as nat),
                    ..stats
                },
            )
        }
    }

    /// Decides by what the queue has. A block that the device has not taken comes first.
    /// The first block waits until the queue has enough; from then on a block is read
    /// whenever there is a whole one.
    pub fn decide(&mut self, available: usize, now: u64, stats: &mut AudioEngineStats) -> (step:
        RenderStep)
        requires
            old(self).block_period * UNDERFLOW_GRACE_BLOCKS <= u64::MAX,
        ensures
            (*final(self), step, *final(stats)) == old(self).decided(
                available as nat,
                now,
                *old(stats),
            ),
    {
        if self.pending {
            return RenderStep::Write;
        }
        if !self.primed {
            if available < self.prefill_frames {
                return RenderStep::Wait;
            }
            self.primed = true;
            self.next_deadline = now;
        }
        let grace = underflow_grace_period(self.block_period);
        let block_frames = self.block_frames;
        if watch_source(&mut self.starvation, available, block_frames, now, grace) {
            stats.fifo_underflows = bump(stats.fifo_underflows, 1);
        }
        if available < self.block_frames {
            RenderStep::Wait
        } else {
            RenderStep::Read
        }
    }

    /// Reads a whole block from a queue that has one.
    pub fn read(&mut self, consumer: &mut AudioFifoConsumer, block: &mut Vec<u32>)
        requires
            old(consumer).wf(),
            old(consumer).channel_count() == INTERNAL_CHANNELS,
            old(block)@.len() == old(self).block_frames * INTERNAL_CHANNELS,
            old(consumer).ready() >= old(self).block_frames,
        ensures
            *final(self) == (RenderSchedule { pending: true, ..*old(self) }),
            final(block)@.len() == old(block)@.len(),
            block_read(
                *old(consumer),
                *final(consumer),
                final(block)@,
                old(self).block_frames as nat,
            ),
            final(consumer).read() == old(consumer).read() + final(block)@,
    {
        let frames = read_block(consumer, block);
        assert(block@.take(block@.len() as int) =~= block@);
        self.pending = true;
    }

    /// Takes what became of the block, and says how long to wait. A block that the device
    /// took is counted; one that it did not take stays.
    pub fn after_write(
        &mut self,
        result: RenderWriteResult,
        block: &Vec<u32>,
        now: u64,
        stats: &mut AudioEngineStats,
    ) -> (wait: u64)
        requires
            old(self).next_deadline + old(self).block_period <= u64::MAX,
        ensures
            match result {
                RenderWriteResult::Written { frames } => {
                    &&& wait == paced(
                        old(self).next_deadline as nat,
                        old(self).block_period as nat,
                        now as nat,
                    ).1
                    &&& *final(self) == (RenderSchedule {
                        pending: false,
                        next_deadline: paced(
                            old(self).next_deadline as nat,
                            old(self).block_period as nat,
                            now as nat,
                        ).0 as u64,
                        ..*old(self)
                    })
                    &&& *final(stats) == (AudioEngineStats {
                        render_writes: bumped(old(stats).render_writes, 1),
                        rendered_frames: bumped(old(stats).rendered_frames, frames as nat),
                        rendered_peak: raised_peak(old(stats).rendered_peak, peak_of(block@)),
                        rendered_non_silent_blocks: bumped(
                            old(stats).rendered_non_silent_blocks,
                            one_if(is_loud(peak_of(block@))) as nat,
                        ),
                        ..*old(stats)
                    })
                },
                RenderWriteResult::NoSpace => {
                    &&& wait == RETRY_NANOS
                    &&& *final(self) == *old(self)
                    &&& *final(stats) == (AudioEngineStats {
                        render_no_space: bumped(old(stats).render_no_space, 1),
                        ..*old(stats)
                    })
                },
            },
    {
        match result {
            RenderWriteResult::Written { frames } => {
                self.pending = false;
                stats.render_writes = bump(stats.render_writes, 1);
                stats.rendered_frames = bump(stats.rendered_frames, frames as u64);
                let peak = packet_peak(block.as_slice());
                stats.rendered_peak = raise_peak(stats.rendered_peak, peak);
                if is_non_silent(peak) {
                    stats.rendered_non_silent_blocks = bump(stats.rendered_non_silent_blocks, 1);
                }
                let (deadline, wait) = pace(self.next_deadline, self.block_period, now);
                self.next_deadline = deadline;
                wait
            },
            RenderWriteResult::NoSpace => {
                stats.render_no_space = bump(stats.render_no_space, 1);
                RETRY_NANOS
            },
        }
    }
}

/// Whether a block was prepared with so many frames seen in the queue, which has at least
/// as many: the schedule decides, and where it decides to read, a whole block is read.
pub open spec fn block_prepared(
    before: (RenderSchedule, AudioFifoConsumer, Seq<u32>, AudioEngineStats),
    available: nat,
    now: u64,
    write: bool,
    after: (RenderSchedule, AudioFifoConsumer, Seq<u32>, AudioEngineStats),
) -> bool {
    let (decided, step, counted) = before.0.decided(available, now, before.3);
    &&& available <= before.1.ready()
    &&& write == (step != RenderStep::Wait)
    &&& after.3 == counted
    &&& if step == RenderStep::Read {
        &&& after.0 == (RenderSchedule { pending: true, ..decided })
        &&& block_read(before.1, after.1, after.2, before.0.block_frames as nat)
        &&& after.1.read() == before.1.read() + after.2
    } else {
        &&& after.0 == decided
        &&& after.1 == before.1
        &&& after.2 == before.2
    }
}

/// Decides by what the queue has now, and reads the block that is due. A block that is
/// due is always read whole.
pub fn prepare_block(
    schedule: &mut RenderSchedule,
    consumer: &mut AudioFifoConsumer,
    block: &mut Vec<u32>,
    now: u64,
    stats: &mut AudioEngineStats,
) -> (write: bool)
    requires
        old(consumer).wf(),
        old(consumer).channel_count() == INTERNAL_CHANNELS,
        old(block)@.len() == old(schedule).block_frames * INTERNAL_CHANNELS,
        old(schedule).block_period * UNDERFLOW_GRACE_BLOCKS <= u64::MAX,
    ensures
        final(consumer).wf(),
        final(consumer).channel_count() == INTERNAL_CHANNELS,
        final(block)@.len() == old(block)@.len(),
        exists|available: nat| #[trigger]
            block_prepared(
                (*old(schedule), *old(consumer), old(block)@, *old(stats)),
                available,
                now,
                write,
                (*final(schedule), *final(consumer), final(block)@, *final(stats)),
            ),
{
    let ghost before = (*schedule, *consumer, block@, *stats);
    let available = consumer.available_frames();
    let step = schedule.decide(available, now, stats);
    if step == RenderStep::Read {
        schedule.read(consumer, block);
    }
    let write = step != RenderStep::Wait;
    assert(block_prepared(
        before,
        available as nat,
        now,
        write,
        (*schedule, *consumer, block@, *stats),
    ));
    write
}

} // verus!
