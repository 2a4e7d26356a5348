//! What a jitter buffer is for: every frame that arrives in time comes out, once and in order.

use crate::vban::jitter::{frame_distance, JitterModel};
use vstd::prelude::*;

verus! {

/// Whether frame `n` is `steps` frames after frame `m`; before it where `steps` is negative. The
/// counter starts over behind its last number.
pub open spec fn is_steps_after(n: u32, m: u32, steps: int) -> bool {
    n as int == (m as int + steps) % 0x1_0000_0000
}

/// Frames are told apart by how many steps lie between them, over the end of the counter.
pub proof fn law_distance_counts_steps(n: u32, m: u32, steps: int)
    requires
        is_steps_after(n, m, steps),
        -0x8000_0000 <= steps < 0x8000_0000,
    ensures
        frame_distance(n, m) == steps,
{
}

/// A new frame that is not too old is taken in as it came, as long as the window has room: it
/// waits beside the others, and nothing is left out.
pub proof fn law_frame_in_time_is_taken_in<S>(
    buffer: JitterModel<S>,
    n: u32,
    samples: Seq<S>,
    steps: int,
)
    requires
        buffer.frames.dom().finite(),
        buffer.frames.dom().len() < 1024,
        !buffer.frames.contains_key(n),
        buffer.last_emitted matches Some(last) ==> is_steps_after(n, last, steps) && -512 <= steps
            < 0x8000_0000,
        buffer.stats.received < u64::MAX,
    ensures
        buffer.pushed(n, samples).frames == buffer.frames.insert(n, samples),
        buffer.pushed(n, samples).last_emitted == buffer.last_emitted,
        buffer.pushed(n, samples).stats.received == buffer.stats.received + 1,
        buffer.pushed(n, samples).stats.dropped_old == buffer.stats.dropped_old,
{
    if buffer.last_emitted is Some {
        law_distance_counts_steps(n, buffer.last_emitted->0, steps);
    }
    assert(buffer.frames.insert(n, samples).dom() =~= buffer.frames.dom().insert(n));
}

/// A frame that is more than half a window behind what was given out is left out and counted.
pub proof fn law_late_frame_is_left_out<S>(
    buffer: JitterModel<S>,
    n: u32,
    samples: Seq<S>,
    last: u32,
    steps: int,
)
    requires
        !buffer.frames.contains_key(n),
        buffer.last_emitted == Some(last),
        is_steps_after(n, last, steps),
        -0x8000_0000 <= steps < -512,
        buffer.stats.dropped_old < u64::MAX,
    ensures
        buffer.pushed(n, samples).frames == buffer.frames,
        buffer.pushed(n, samples).last_emitted == Some(last),
        buffer.pushed(n, samples).stats.dropped_old == buffer.stats.dropped_old + 1,
        buffer.pushed(n, samples).stats.received == buffer.stats.received,
{
    law_distance_counts_steps(n, last, steps);
}

/// What the counter skips counts as lost, half a window at most, and as one jump; what comes
/// after a later frame counts as reordered; what follows directly counts as neither.
pub proof fn law_arrivals_are_counted<S>(
    buffer: JitterModel<S>,
    n: u32,
    samples: Seq<S>,
    latest: u32,
    steps: int,
)
    requires
        buffer.frames.dom().finite(),
        buffer.frames.dom().len() < 1024,
        !buffer.frames.contains_key(n),
        buffer.last_emitted is None,
        buffer.last_pushed == Some(latest),
        is_steps_after(n, latest, steps),
        -0x8000_0000 <= steps < 0x8000_0000,
        buffer.stats.lost + 512 <= u64::MAX,
        buffer.stats.reordered < u64::MAX,
        buffer.stats.discontinuities < u64::MAX,
    ensures
        ({
            let after = buffer.pushed(n, samples);
            let missing = if steps <= 1 {
                0
            } else if steps <= 512 {
                steps - 1
            } else {
                512
            };
            &&& after.stats.lost == buffer.stats.lost + missing
            &&& after.stats.discontinuities == buffer.stats.discontinuities + (if steps > 1 {
                1int
            } else {
                0
            })
            &&& after.stats.reordered == buffer.stats.reordered + (if steps < 0 {
                1int
            } else {
                0
            })
            &&& after.last_pushed == Some(
                if steps > 0 {
                    n
                } else {
                    latest
                },
            )
        }),
{
    law_distance_counts_steps(n, latest, steps);
    assert(buffer.frames.insert(n, samples).dom() =~= buffer.frames.dom().insert(n));
}

/// Where the window is full, one frame is left out for the new one: one that no other frame
/// is further behind.
pub proof fn law_full_window_leaves_out_the_oldest<S>(
    buffer: JitterModel<S>,
    n: u32,
    samples: Seq<S>,
    last: u32,
)
    requires
        buffer.frames.dom().finite(),
        buffer.frames.dom().len() == 1024,
        !buffer.frames.contains_key(n),
        buffer.last_emitted == Some(last),
        frame_distance(n, last) >= -512,
        buffer.stats.dropped_old < u64::MAX,
    ensures
        buffer.pushed(n, samples).stats.dropped_old == buffer.stats.dropped_old + 1,
        exists|k: u32|
            #![trigger buffer.frames.insert(n, samples).remove(k)]
            {
                &&& k == n || buffer.frames.contains_key(k)
                &&& buffer.pushed(n, samples).frames == buffer.frames.insert(n, samples).remove(k)
                &&& frame_distance(k, last) <= frame_distance(n, last)
                &&& forall|other: u32| #[trigger]
                    buffer.frames.contains_key(other) ==> frame_distance(k, last)
                        <= frame_distance(other, last)
            },
{
    let all = buffer.frames.insert(n, samples);
    assert(all.dom() =~= buffer.frames.dom().insert(n));
    let taken = JitterModel {
        frame_samples: if buffer.frame_samples == 0 {
            samples.len()
        } else {
            buffer.frame_samples
        },
        ..buffer
    }.taken_in(n, samples);
    let k = crate::vban::jitter::lemma_one_is_furthest_behind(all.dom(), last);
    assert(taken.is_oldest(k));
    crate::vban::jitter::lemma_oldest(taken, k);
    assert(all.contains_key(n));
    assert forall|other: u32| #[trigger] buffer.frames.contains_key(other) implies frame_distance(
        k,
        last,
    ) <= frame_distance(other, last) by {
        assert(all.dom().contains(other));
    }
    assert(buffer.pushed(n, samples).frames == all.remove(k));
}

/// Of the frames that wait, the one that follows what was given out most closely comes next.
/// What lies ahead of it waits on as it was, and what was skipped counts as lost.
pub proof fn law_closest_frame_comes_next<S>(
    buffer: JitterModel<S>,
    last: u32,
    n: u32,
    k: u32,
    steps: int,
    further: int,
)
    requires
        buffer.last_emitted == Some(last),
        buffer.frames.contains_key(n),
        buffer.frames.contains_key(k),
        is_steps_after(n, last, steps),
        is_steps_after(k, last, further),
        0 < steps < further < 0x8000_0000,
        further - steps < 0x8000_0000 - 512,
        buffer.stats.lost + 0x8000_0000 <= u64::MAX,
    ensures
        !buffer.is_next(k),
        buffer.is_next(n) ==> {
            let after = buffer.popped(n);
            &&& after.last_emitted == Some(n)
            &&& after.frames.contains_key(k)
            &&& after.frames[k] == buffer.frames[k]
            &&& !after.frames.contains_key(n)
            &&& after.stats.lost == buffer.stats.lost + steps - 1
        },
{
    law_distance_counts_steps(n, last, steps);
    law_distance_counts_steps(k, last, further);
    assert(buffer.may_emit(n) && buffer.may_emit(k));
    law_distance_counts_steps(k, n, further - steps);
    let half = crate::vban::jitter::half_window_before(n);
    law_distance_counts_steps(k, half, further - steps + 512);
}

/// A stream that is drained frame by frame goes on: the frame that follows what was given out
/// is taken in and is the next to come out, with its own samples, and nothing counts as lost.
pub proof fn law_stream_flows<S>(buffer: JitterModel<S>, last: u32, n: u32, samples: Seq<S>)
    requires
        buffer.last_emitted == Some(last),
        buffer.last_pushed == Some(last),
        buffer.frames == Map::<u32, Seq<S>>::empty(),
        is_steps_after(n, last, 1),
        buffer.stats.received < u64::MAX,
    ensures
        ({
            let waiting = buffer.pushed(n, samples);
            let after = waiting.popped(n);
            &&& waiting.is_next(n)
            &&& waiting.frames[n] == samples
            &&& after.last_emitted == Some(n)
            &&& after.last_pushed == Some(n)
            &&& after.frames == Map::<u32, Seq<S>>::empty()
            &&& after.stats.lost == buffer.stats.lost
            &&& after.stats.discontinuities == buffer.stats.discontinuities
            &&& after.stats.reordered == buffer.stats.reordered
            &&& after.stats.dropped_old == buffer.stats.dropped_old
            &&& after.stats.received == buffer.stats.received + 1
        }),
{
    law_distance_counts_steps(n, last, 1);
    law_frame_in_time_is_taken_in(buffer, n, samples, 1);
    let waiting = buffer.pushed(n, samples);
    assert(waiting.frames =~= map![n => samples]);
    assert(waiting.popped(n).frames =~= Map::empty());
}

/// The first frame of a stream is taken in and comes out.
pub proof fn law_stream_starts<S>(n: u32, samples: Seq<S>)
    ensures
        ({
            let waiting = JitterModel::<S>::fresh().pushed(n, samples);
            let after = waiting.popped(n);
            &&& waiting.is_next(n)
            &&& waiting.frames == map![n => samples]
            &&& waiting.frame_samples == samples.len()
            &&& after.last_emitted == Some(n)
            &&& after.frames == Map::<u32, Seq<S>>::empty()
            &&& after.stats.received == 1
            &&& after.stats.lost == 0
            &&& after.stats.dropped_old == 0
        }),
{
    law_frame_in_time_is_taken_in(JitterModel::<S>::fresh(), n, samples, 0);
    let waiting = JitterModel::<S>::fresh().pushed(n, samples);
    assert(waiting.frames =~= map![n => samples]);
    assert(frame_distance(n, n) == 0);
    assert(waiting.popped(n).frames =~= Map::empty());
}

/// Whatever frames wait ahead of what was given out, one of them is the next to come out.
pub proof fn law_what_waits_ahead_comes_out<S>(buffer: JitterModel<S>, k: u32, steps: int)
    requires
        buffer.frames.dom().finite(),
        buffer.frames.contains_key(k),
        buffer.last_emitted matches Some(last) ==> is_steps_after(k, last, steps) && 0 < steps
            < 0x8000_0000,
    ensures
        exists|n: u32| #[trigger] buffer.is_next(n),
{
    let ahead = buffer.frames.dom().filter(|n: u32| buffer.may_emit(n));
    if buffer.last_emitted is Some {
        law_distance_counts_steps(k, buffer.last_emitted->0, steps);
    }
    assert(ahead.contains(k));
    vstd::set_lib::lemma_len_subset(ahead, buffer.frames.dom());
    assert(ahead.len() > 0) by {
        if ahead.len() == 0 {
            assert(ahead =~= Set::empty());
        }
    }
    let n = crate::vban::jitter::lemma_one_is_furthest_behind(ahead, buffer.base());
    assert forall|j: u32| #[trigger] buffer.frames.contains_key(j) && buffer.may_emit(j) implies
        frame_distance(n, buffer.base()) <= frame_distance(j, buffer.base()) by {
        assert(ahead.contains(j));
    }
    assert(buffer.is_next(n));
}

} // verus!
