//! Putting the packets of a stream back into order.
//!
//! Packets carry a 32-bit frame counter that wraps around. The buffer keeps what
//! arrives out of order, gives it out in order, and counts what was lost on the way. No
//! more frames wait than the window has.

pub mod laws;

use crate::vban::packet::VBAN_FRAME_WINDOW;
use std::collections::BTreeMap;
use vstd::prelude::*;

verus! {

/// How far frame `a` is ahead of frame `b`, over the wrap-around of the counter.
pub open spec fn frame_distance(a: u32, b: u32) -> int {
    let ahead = if a >= b {
        a - b
    } else {
        a - b + 0x1_0000_0000
    };
    if ahead < 0x8000_0000 {
        ahead
    } else {
        ahead - 0x1_0000_0000
    }
}

/// How far frame `a` is ahead of frame `b`; negative where it is behind.
pub fn frame_offset(a: u32, b: u32) -> (offset: i64)
    ensures
        offset == frame_distance(a, b),
{
    let ahead = a.wrapping_sub(b);
    if ahead < 0x8000_0000 {
        ahead as i64
    } else {
        ahead as i64 - 0x1_0000_0000
    }
}

/// Whether frame `a` follows frame `b` within half the window.
pub fn frame_is_newer(a: u32, b: u32) -> (newer: bool)
    ensures
        newer == (0 < frame_distance(a, b) <= VBAN_FRAME_WINDOW / 2),
{
    let offset = frame_offset(a, b);
    offset > 0 && offset <= (VBAN_FRAME_WINDOW / 2) as i64
}

/// Counts of a buffer.
#[derive(Clone, Copy, Debug, PartialEq, Eq, Structural)]
pub struct VBanJitterStats {
    /// Frames taken in.
    pub received: u64,
    /// Frames that were passed over.
    pub lost: u64,
    /// Frames that came after a later one.
    pub reordered: u64,
    /// Jumps of the frame counter.
    pub discontinuities: u64,
    /// Frames that were too old, or too many to wait.
    pub dropped_old: u64,
}

impl Default for VBanJitterStats {
    fn default() -> (stats: Self)
        ensures
            stats == no_stats(),
    {
        VBanJitterStats {
            received: 0,
            lost: 0,
            reordered: 0,
            discontinuities: 0,
            dropped_old: 0,
        }
    }
}

/// The counts of an unused buffer.
pub open spec fn no_stats() -> VBanJitterStats {
    VBanJitterStats { received: 0, lost: 0, reordered: 0, discontinuities: 0, dropped_old: 0 }
}

/// Every count can still grow by what `n` frames can add to it.
pub open spec fn stats_have_room(stats: VBanJitterStats, n: nat) -> bool {
    &&& stats.received + n <= u64::MAX
    &&& stats.lost + 0x8000_0000 * n <= u64::MAX
    &&& stats.reordered + n <= u64::MAX
    &&& stats.discontinuities + n <= u64::MAX
    &&& stats.dropped_old + n <= u64::MAX
}

/// Why a frame is refused.
#[derive(Clone, Copy, Debug, PartialEq, Eq, Structural)]
pub enum VBanJitterError {
    EmptySamples,
}

/// What a buffer holds.
#[verifier::ext_equal]
pub struct JitterModel<S> {
    /// The frames that wait, by their counter.
    pub frames: Map<u32, Seq<S>>,
    /// The frame that was given out last.
    pub last_emitted: Option<u32>,
    /// The latest frame that was taken in.
    pub last_pushed: Option<u32>,
    pub stats: VBanJitterStats,
    /// Samples of the first frame.
    pub frame_samples: nat,
}

impl<S> JitterModel<S> {
    /// A buffer that has seen nothing.
    pub open spec fn fresh() -> Self {
        JitterModel {
            frames: Map::empty(),
            last_emitted: None,
            last_pushed: None,
            stats: no_stats(),
            frame_samples: 0,
        }
    }

    /// Frames only wait once the stream has started, and no more than the window has.
    pub open spec fn wf(self) -> bool {
        &&& self.last_pushed is None ==> self.frames.dom() =~= Set::empty()
        &&& self.frames.dom().finite()
        &&& self.frames.dom().len() <= VBAN_FRAME_WINDOW
    }

    /// Whether frame `n` is too far behind the frame that was given out last.
    pub open spec fn too_old(self, n: u32) -> bool {
        self.last_emitted matches Some(last) && frame_distance(n, last) < -(VBAN_FRAME_WINDOW / 2)
    }

    /// The counts after frame `n` is taken in: a frame behind the latest one counts as
    /// reordered; a frame that jumps ahead counts the frames in between as lost.
    pub open spec fn counted(self, n: u32) -> VBanJitterStats {
        let stats = VBanJitterStats { received: (self.stats.received + 1) as u64, ..self.stats };
        match self.last_pushed {
            None => stats,
            Some(last) => {
                let d = frame_distance(n, last);
                if d < 0 {
                    VBanJitterStats { reordered: (stats.reordered + 1) as u64, ..stats }
                } else if d > 1 {
                    let missing = if d - 1 <= VBAN_FRAME_WINDOW / 2 {
                        d - 1
                    } else {
                        (VBAN_FRAME_WINDOW / 2) as int
                    };
                    VBanJitterStats {
                        lost: (stats.lost + missing) as u64,
                        discontinuities: (stats.discontinuities + 1) as u64,
                        ..stats
                    }
                } else {
                    stats
                }
            },
        }
    }

    /// The buffer with the frame `n` among those that wait. The latest frame is the one
    /// that is furthest ahead.
    pub open spec fn taken_in(self, n: u32, samples: Seq<S>) -> Self {
        JitterModel {
            frames: self.frames.insert(n, samples),
            last_pushed: match self.last_pushed {
                Some(last) => if frame_distance(n, last) > 0 {
                    Some(n)
                } else {
                    Some(last)
                },
                None => Some(n),
            },
            stats: self.counted(n),
            ..self
        }
    }

    /// The buffer without its oldest frame where more frames wait than the window has.
    pub open spec fn within_window(self) -> Self {
        if self.frames.dom().len() > VBAN_FRAME_WINDOW {
            JitterModel {
                frames: self.frames.remove(self.oldest()),
                stats: VBanJitterStats {
                    dropped_old: (self.stats.dropped_old + 1) as u64,
                    ..self.stats
                },
                ..self
            }
        } else {
            self
        }
    }

    /// The buffer after the non-empty frame `n` arrives.
    pub open spec fn pushed(self, n: u32, samples: Seq<S>) -> Self {
        let started = JitterModel {
            frame_samples: if self.frame_samples == 0 {
                samples.len()
            } else {
                self.frame_samples
            },
            ..self
        };
        if self.frames.contains_key(n) {
            started
        } else if self.too_old(n) {
            JitterModel {
                stats: VBanJitterStats {
                    dropped_old: (self.stats.dropped_old + 1) as u64,
                    ..self.stats
                },
                ..started
            }
        } else {
            started.taken_in(n, samples).within_window()
        }
    }

    /// The frame that counters are measured from: the one given out last, or, before
    /// anything was given out, the latest one.
    pub open spec fn base(self) -> u32 {
        match self.last_emitted {
            Some(last) => last,
            None => self.last_pushed->0,
        }
    }

    /// Whether frame `n` waits and no frame that waits is older.
    pub open spec fn is_oldest(self, n: u32) -> bool {
        &&& self.frames.contains_key(n)
        &&& forall|k: u32| #[trigger]
            self.frames.contains_key(k) ==> frame_distance(n, self.base()) <= frame_distance(
                k,
                self.base(),
            )
    }

    /// The oldest frame that waits.
    pub open spec fn oldest(self) -> u32 {
        choose|n: u32| self.is_oldest(n)
    }

    /// Whether frame `n` may be given out: it follows the last one given out, if there is
    /// one.
    pub open spec fn may_emit(self, n: u32) -> bool {
        self.last_emitted matches Some(last) ==> frame_distance(n, last) > 0
    }

    /// Whether frame `n` waits and is the next one to give out: the oldest one that may be.
    pub open spec fn is_next(self, n: u32) -> bool {
        &&& self.frames.contains_key(n)
        &&& self.may_emit(n)
        &&& forall|k: u32| #[trigger]
            self.frames.contains_key(k) && self.may_emit(k) ==> frame_distance(n, self.base())
                <= frame_distance(k, self.base())
    }

    /// The frames that wait, without those that fell behind what was given out.
    pub open spec fn live_frames(self) -> Map<u32, Seq<S>> {
        if self.last_emitted is Some {
            self.frames.restrict(Set::new(|k: u32| self.may_emit(k)))
        } else {
            self.frames
        }
    }

    /// The buffer after frame `n` is given out.
    pub open spec fn popped(self, n: u32) -> Self {
        let gap = frame_distance(n, self.base());
        let emitted = JitterModel {
            frames: self.live_frames().remove(n),
            last_emitted: Some(n),
            stats: if self.last_emitted is Some && gap > 1 {
                VBanJitterStats { lost: (self.stats.lost + (gap - 1)) as u64, ..self.stats }
            } else {
                self.stats
            },
            ..self
        };
        emitted.trimmed()
    }

    /// The buffer without the frames that are half a window behind what was given out.
    pub open spec fn trimmed(self) -> Self {
        match self.last_emitted {
            Some(last) => JitterModel {
                frames: self.frames.restrict(
                    Set::new(|k: u32| frame_distance(k, half_window_before(last)) >= 0),
                ),
                ..self
            },
            None => self,
        }
    }
}

/// The frame half a window before `last`.
pub open spec fn half_window_before(last: u32) -> u32 {
    if last >= VBAN_FRAME_WINDOW / 2 {
        (last - VBAN_FRAME_WINDOW / 2) as u32
    } else {
        (last - VBAN_FRAME_WINDOW / 2 + 0x1_0000_0000) as u32
    }
}

/// The buffer of a stream.
pub struct VBanJitterBuffer<S> {
    frames: BTreeMap<u32, Vec<S>>,
    last_emitted: Option<u32>,
    last_pushed: Option<u32>,
    stats: VBanJitterStats,
    frame_samples: usize,
}

impl<S> View for VBanJitterBuffer<S> {
    type V = JitterModel<S>;

    closed spec fn view(&self) -> JitterModel<S> {
        JitterModel {
            frames: self.frames@.map_values(|v: Vec<S>| v@),
            last_emitted: self.last_emitted,
            last_pushed: self.last_pushed,
            stats: self.stats,
            frame_samples: self.frame_samples as nat,
        }
    }
}

/// Copies samples into a vector of their own.
pub fn copied<S: Copy>(samples: &[S]) -> (copy: Vec<S>)
    ensures
        copy@ == samples@,
{
    let mut copy: Vec<S> = Vec::new();
    for i in 0..samples.len()
        invariant
            copy@ =~= samples@.take(i as int),
    {
        copy.push(samples[i]);
    }
    assert(samples@.take(samples.len() as int) =~= samples@);
    copy
}

impl<S: Copy> VBanJitterBuffer<S> {
    /// A buffer that has seen nothing.
    pub fn new() -> (buffer: Self)
        ensures
            buffer@ == JitterModel::<S>::fresh(),
            buffer@.wf(),
    {
        let buffer = VBanJitterBuffer {
            frames: BTreeMap::new(),
            last_emitted: None,
            last_pushed: None,
            stats: VBanJitterStats::default(),
            frame_samples: 0,
        };
        assert(buffer@.frames =~= Map::empty());
        buffer
    }

    /// Samples of the first frame of the stream; 0 before it.
    pub fn frame_samples(&self) -> (samples: usize)
        ensures
            samples == self@.frame_samples,
    {
        self.frame_samples
    }

    /// How many frames wait.
    pub fn fill_level(&self) -> (frames: usize)
        ensures
            frames == self@.frames.dom().len(),
            self@.frames.dom().finite(),
            self@.wf() ==> frames <= VBAN_FRAME_WINDOW,
    {
        broadcast use vstd::std_specs::btree::group_btree_axioms;

        assert(self@.frames.dom() =~= self.frames@.dom());
        self.frames.len()
    }

    /// The counts so far.
    pub fn stats(&self) -> (stats: VBanJitterStats)
        ensures
            stats == self@.stats,
    {
        self.stats
    }

    /// The frame that was given out last.
    pub fn last_emitted(&self) -> (frame: Option<u32>)
        ensures
            frame == self@.last_emitted,
    {
        self.last_emitted
    }

    /// Takes in a frame.
    ///
    /// A frame without samples is refused. A frame that already waits, and one that is
    /// too old, is left out. Where more frames would wait than the window has, the oldest
    /// one is left out.
    pub fn push(&mut self, nu_frame: u32, samples: &[S]) -> (result: Result<(), VBanJitterError>)
        requires
            old(self)@.wf(),
            stats_have_room(old(self)@.stats, 1),
        ensures
            final(self)@.wf(),
            match result {
                Ok(_) => samples@.len() > 0 && final(self)@ == old(self)@.pushed(
                    nu_frame,
                    samples@,
                ),
                Err(e) => samples@.len() == 0 && e == VBanJitterError::EmptySamples && final(self)@
                    == old(self)@,
            },
    {
        broadcast use vstd::std_specs::btree::group_btree_axioms;

        let ghost before = self@;
        if samples.len() == 0 {
            return Err(VBanJitterError::EmptySamples);
        }
        if self.frame_samples == 0 {
            self.frame_samples = samples.len();
        }
        assert(self@.frames =~= before.frames);
        if self.frames.contains_key(&nu_frame) {
            return Ok(());
        }
        if let Some(last) = self.last_emitted {
            let offset = frame_offset(nu_frame, last);
            if offset < 0 && -offset > (VBAN_FRAME_WINDOW / 2) as i64 {
                self.stats.dropped_old += 1;
                assert(self@ =~= before.pushed(nu_frame, samples@));
                return Ok(());
            }
        }
        if let Some(last) = self.last_pushed {
            let offset = frame_offset(nu_frame, last);
            if offset < 0 {
                self.stats.reordered += 1;
            }
            if offset > 1 {
                let gap: i64 = offset - 1;
                let missing: u64 = if gap <= (VBAN_FRAME_WINDOW / 2) as i64 {
                    gap as u64
                } else {
                    (VBAN_FRAME_WINDOW / 2) as u64
                };
                self.stats.lost += missing;
                self.stats.discontinuities += 1;
            }
        }
        let latest = match self.last_pushed {
            Some(last) => frame_offset(nu_frame, last) > 0,
            None => true,
        };
        if latest {
            self.last_pushed = Some(nu_frame);
        }
        self.frames.insert(nu_frame, copied(samples));
        self.stats.received += 1;
        let ghost taken = JitterModel {
            frame_samples: self@.frame_samples,
            ..before
        }.taken_in(nu_frame, samples@);
        assert(self@.frames =~= before.frames.insert(nu_frame, samples@));
        assert(self@ =~= taken);
        if self.fill_level() > VBAN_FRAME_WINDOW as usize {
            let oldest = self.find_oldest();
            proof {
                lemma_oldest(taken, oldest);
            }
            self.frames.remove(&oldest);
            self.stats.dropped_old += 1;
            assert(self@.frames =~= taken.frames.remove(oldest));
        }
        assert(self@ =~= before.pushed(nu_frame, samples@));
        Ok(())
    }

    /// Finds the oldest frame that waits.
    fn find_oldest(&self) -> (oldest: u32)
        requires
            self@.frames.dom().len() > 0,
            self@.last_pushed is Some,
        ensures
            self@.is_oldest(oldest),
    {
        let base = match (self.last_emitted, self.last_pushed) {
            (Some(last), _) => last,
            (None, Some(last)) => last,
            (None, None) => 0,
        };
        let keys = self.waiting();
        proof {
            if keys@.len() == 0 {
                assert forall|k: u32| !self@.frames.contains_key(k) by {
                    assert(!keys@.contains(k));
                }
                assert(self@.frames.dom() =~= Set::empty());
            }
            assert(keys@.contains(keys@[0]));
        }
        let mut oldest = keys[0];
        for i in 0..keys.len()
            invariant
                keys@.len() > 0,
                base == self@.base(),
                keys@.contains(oldest),
                forall|j: int|
                    0 <= j < i ==> frame_distance(oldest, base) <= frame_distance(
                        #[trigger] keys@[j],
                        base,
                    ),
        {
            if frame_offset(keys[i], base) < frame_offset(oldest, base) {
                oldest = keys[i];
            }
        }
        assert forall|k: u32| #[trigger] self@.frames.contains_key(k) implies frame_distance(
            oldest,
            base,
        ) <= frame_distance(k, base) by {
            assert(keys@.contains(k));
            let j = keys@.index_of(k);
            assert(keys@[j] == k);
        }
        oldest
    }

    fn waiting(&self) -> (keys: Vec<u32>)
        ensures
            forall|k: u32| keys@.contains(k) <==> self@.frames.contains_key(k),
    {
        broadcast use vstd::std_specs::btree::group_btree_axioms;

        let mut keys: Vec<u32> = Vec::new();
        for key in iter: self.frames.keys()
            invariant
                keys@ =~= iter.seq().unref().take(iter.index() as int),
                iter.seq().unref().to_set() == self.frames@.dom(),
                iter.index() == iter.seq().len() ==> keys@.to_set() == self.frames@.dom(),
        {
            keys.push(*key);
            proof {
                let all = iter.seq().unref();
                assert(keys@ =~= all.take(iter.index() + 1));
                assert(all.take(all.len() as int) =~= all);
            }
        }
        proof {
            assert forall|k: u32| keys@.contains(k) <==> self@.frames.contains_key(k) by {
                assert(keys@.to_set().contains(k) == keys@.contains(k));
            }
        }
        keys
    }

    /// Leaves out the frames that are half a window behind what was given out.
    pub fn trim_old(&mut self)
        requires
            old(self)@.wf(),
        ensures
            final(self)@ == old(self)@.trimmed(),
            final(self)@.wf(),
    {
        broadcast use vstd::std_specs::btree::group_btree_axioms;

        let ghost before = self@;
        if let Some(last) = self.last_emitted {
            let cutoff = last.wrapping_sub(VBAN_FRAME_WINDOW / 2);
            let keys = self.waiting();
            for i in 0..keys.len()
                invariant
                    cutoff == half_window_before(last),
                    forall|k: u32| keys@.contains(k) <==> before.frames.contains_key(k),
                    self@ == (JitterModel { frames: self@.frames, ..before }),
                    forall|k: u32| #[trigger]
                        self@.frames.contains_key(k) <==> before.frames.contains_key(k) && !(
                        frame_distance(k, cutoff) < 0 && keys@.take(i as int).contains(k)),
                    forall|k: u32| #[trigger]
                        self@.frames.contains_key(k) ==> self@.frames[k] == before.frames[k],
            {
                let key = keys[i];
                let ghost earlier = self@.frames;
                assert forall|k: u32|
                    keys@.take(i + 1).contains(k) <==> keys@.take(i as int).contains(k) || k
                        == key by {
                    let longer = keys@.take(i + 1);
                    assert(longer =~= keys@.take(i as int).push(key));
                    if k == key {
                        assert(longer[i as int] == k);
                    }
                    if keys@.take(i as int).contains(k) {
                        let j = keys@.take(i as int).index_of(k);
                        assert(longer[j] == k);
                    }
                }
                if frame_offset(key, cutoff) < 0 {
                    self.frames.remove(&key);
                    assert(self@.frames =~= earlier.remove(key));
                }
            }
            assert(keys@.take(keys.len() as int) =~= keys@);
            assert(self@.frames =~= before.trimmed().frames);
            proof {
                vstd::set_lib::lemma_len_subset(self@.frames.dom(), before.frames.dom());
            }
        }
    }

    /// Leaves out the frames that fell behind what was given out.
    fn drop_stale(&mut self)
        requires
            old(self)@.wf(),
        ensures
            final(self)@ == (JitterModel { frames: old(self)@.live_frames(), ..old(self)@ }),
            final(self)@.wf(),
    {
        broadcast use vstd::std_specs::btree::group_btree_axioms;

        let ghost before = self@;
        if let Some(last) = self.last_emitted {
            let keys = self.waiting();
            for i in 0..keys.len()
                invariant
                    before.last_emitted == Some(last),
                    forall|k: u32| keys@.contains(k) <==> before.frames.contains_key(k),
                    self@ == (JitterModel { frames: self@.frames, ..before }),
                    forall|k: u32| #[trigger]
                        self@.frames.contains_key(k) <==> before.frames.contains_key(k) && !(
                        frame_distance(k, last) <= 0 && keys@.take(i as int).contains(k)),
                    forall|k: u32| #[trigger]
                        self@.frames.contains_key(k) ==> self@.frames[k] == before.frames[k],
            {
                let key = keys[i];
                let ghost earlier = self@.frames;
                assert forall|k: u32|
                    keys@.take(i + 1).contains(k) <==> keys@.take(i as int).contains(k) || k
                        == key by {
                    let longer = keys@.take(i + 1);
                    assert(longer =~= keys@.take(i as int).push(key));
                    if k == key {
                        assert(longer[i as int] == k);
                    }
                    if keys@.take(i as int).contains(k) {
                        let j = keys@.take(i as int).index_of(k);
                        assert(longer[j] == k);
                    }
                }
                if frame_offset(key, last) <= 0 {
                    self.frames.remove(&key);
                    assert(self@.frames =~= earlier.remove(key));
                }
            }
            assert(keys@.take(keys.len() as int) =~= keys@);
            assert(self@.frames =~= before.live_frames());
            proof {
                vstd::set_lib::lemma_len_subset(self@.frames.dom(), before.frames.dom());
            }
        }
    }

    /// Gives out the oldest frame, if one waits.
    ///
    /// Frames that fell behind what was given out before are left out. Frames that are
    /// passed over count as lost.
    pub fn pop_next(&mut self) -> (result: Option<Vec<S>>)
        requires
            old(self)@.wf(),
            stats_have_room(old(self)@.stats, 1),
        ensures
            final(self)@.wf(),
            match result {
                Some(samples) => {
                    &&& final(self)@.last_emitted matches Some(n) && old(self)@.is_next(n)
                        && samples@ == old(self)@.frames[n] && final(self)@ == old(self)@.popped(n)
                },
                None => {
                    &&& forall|k: u32| #[trigger]
                        old(self)@.frames.contains_key(k) ==> !old(self)@.may_emit(k)
                    &&& final(self)@ == (JitterModel {
                        frames: old(self)@.live_frames(),
                        ..old(self)@
                    })
                },
            },
    {
        broadcast use vstd::std_specs::btree::group_btree_axioms;

        let ghost before = self@;
        if self.frames.is_empty() {
            assert(self.frames@.dom() =~= Set::empty());
            assert(before.live_frames() =~= before.frames);
            return None;
        }
        self.drop_stale();
        let ghost live = self@;
        let (base, started) = match self.last_emitted {
            Some(last) => (last, true),
            None => match self.last_pushed {
                Some(latest) => (latest, false),
                None => {
                    assert(before.frames.dom() =~= Set::empty());
                    return None;
                },
            },
        };
        let keys = self.waiting();
        let mut best: Option<(u32, i64)> = None;
        for i in 0..keys.len()
            invariant
                live == (JitterModel { frames: before.live_frames(), ..before }),
                forall|k: u32| keys@.contains(k) <==> live.frames.contains_key(k),
                base == live.base(),
                started == live.last_emitted is Some,
                !started ==> live.last_pushed == Some(base),
                match best {
                    Some((n, offset)) => {
                        &&& live.frames.contains_key(n)
                        &&& live.may_emit(n)
                        &&& offset == frame_distance(n, base)
                        &&& forall|j: int|
                            0 <= j < i && live.may_emit(#[trigger] keys@[j]) ==> offset
                                <= frame_distance(keys@[j], base)
                    },
                    None => forall|j: int| 0 <= j < i ==> !live.may_emit(#[trigger] keys@[j]),
                },
        {
            let frame = keys[i];
            assert(keys@.contains(frame));
            let offset = frame_offset(frame, base);
            let valid = !started || offset > 0;
            assert(valid == live.may_emit(frame));
            if valid {
                let better = match best {
                    Some((_, smallest)) => offset < smallest,
                    None => true,
                };
                if better {
                    best = Some((frame, offset));
                }
            }
        }
        match best {
            None => {
                assert forall|k: u32| #[trigger]
                    before.frames.contains_key(k) implies !before.may_emit(k) by {
                    if before.may_emit(k) {
                        assert(live.frames.contains_key(k));
                        assert(keys@.contains(k));
                    }
                }
                None
            },
            Some((next, gap)) => {
                proof {
                    assert forall|k: u32| #[trigger]
                        before.frames.contains_key(k) && before.may_emit(k) implies frame_distance(
                        next,
                        before.base(),
                    ) <= frame_distance(k, before.base()) by {
                        assert(live.frames.contains_key(k));
                        assert(keys@.contains(k));
                        let j = keys@.index_of(k);
                        assert(live.may_emit(keys@[j]));
                    }
                    assert(before.is_next(next));
                }
                if started && gap > 1 {
                    self.stats.lost += (gap - 1) as u64;
                }
                self.last_emitted = Some(next);
                assert(self.frames@.contains_key(next));
                let samples = self.frames.remove(&next);
                assert(samples is Some && samples->0@ == live.frames[next]);
                assert(self@.frames =~= live.frames.remove(next));
                self.trim_old();
                assert(self@ =~= before.popped(next));
                samples
            },
        }
    }

    /// Forgets everything.
    pub fn reset(&mut self)
        ensures
            final(self)@ == JitterModel::<S>::fresh(),
            final(self)@.wf(),
    {
        self.frames.clear();
        self.last_emitted = None;
        self.last_pushed = None;
        self.frame_samples = 0;
        self.stats = VBanJitterStats::default();
        assert(self@.frames =~= Map::empty());
    }
}

/// There is one oldest frame.
pub(crate) proof fn lemma_oldest<S>(buffer: JitterModel<S>, n: u32)
    requires
        buffer.is_oldest(n),
    ensures
        buffer.oldest() == n,
{
    assert(buffer.is_oldest(buffer.oldest()));
}

/// Two frames at the same distance from a third are the same frame, so there is never
/// more than one next frame.
pub proof fn law_next_frame_is_unique<S>(buffer: JitterModel<S>, a: u32, b: u32)
    requires
        buffer.is_next(a),
        buffer.is_next(b),
    ensures
        a == b,
{
}

/// What is given out always follows what was given out before.
pub proof fn law_output_is_ordered<S>(buffer: JitterModel<S>, n: u32)
    requires
        buffer.is_next(n),
        buffer.last_emitted is Some,
    ensures
        frame_distance(n, buffer.last_emitted->0) > 0,
        buffer.popped(n).last_emitted == Some(n),
{
}

/// A frame that already waits changes nothing but the first frame's size.
pub proof fn law_duplicate_is_ignored<S>(buffer: JitterModel<S>, n: u32, samples: Seq<S>)
    requires
        buffer.frames.contains_key(n),
        buffer.frame_samples > 0,
    ensures
        buffer.pushed(n, samples) == buffer,
{
}

/// No frame waits that is more than half a window behind what was given out.
pub proof fn law_old_frames_leave<S>(buffer: JitterModel<S>, n: u32, k: u32)
    requires
        buffer.popped(n).frames.contains_key(k),
    ensures
        frame_distance(k, n) >= -(VBAN_FRAME_WINDOW / 2),
        buffer.frames.contains_key(k),
        buffer.popped(n).frames[k] == buffer.frames[k],
{
}

/// Before anything is given out, the next frame is the oldest one that waits: every other
/// one follows it, where all that wait lie within half the counter's range of the latest.
pub proof fn law_oldest_goes_first<S>(buffer: JitterModel<S>, n: u32, k: u32)
    requires
        buffer.is_next(n),
        buffer.last_emitted is None,
        buffer.frames.contains_key(k),
        forall|j: u32| #[trigger]
            buffer.frames.contains_key(j) ==> -0x8000_0000 < frame_distance(j, buffer.base()) <= 0,
    ensures
        frame_distance(k, n) >= 0,
        buffer.is_oldest(n),
{
}

/// A frame that directly follows the latest one counts neither as lost nor as a jump,
/// however far the latest one had jumped.
pub proof fn law_following_frame_is_no_jump<S>(
    buffer: JitterModel<S>,
    jump: u32,
    first: Seq<S>,
    next: u32,
    second: Seq<S>,
)
    requires
        buffer.wf(),
        buffer.last_pushed matches Some(last) ==> frame_distance(jump, last) > 0,
        !buffer.frames.contains_key(jump),
        !buffer.too_old(jump),
        frame_distance(next, jump) == 1,
    ensures
        ({
            let jumped = buffer.pushed(jump, first);
            &&& jumped.last_pushed == Some(jump)
            &&& jumped.pushed(next, second).stats.discontinuities == jumped.stats.discontinuities
            &&& jumped.pushed(next, second).stats.lost == jumped.stats.lost
        }),
{
}

/// Whether no frame among some is further behind `base` than `n`.
pub open spec fn is_furthest_behind(some: Set<u32>, base: u32, n: u32) -> bool {
    &&& some.contains(n)
    &&& forall|k: u32| #[trigger]
        some.contains(k) ==> frame_distance(n, base) <= frame_distance(k, base)
}

/// Among some frames, one is furthest behind.
pub(crate) proof fn lemma_one_is_furthest_behind(some: Set<u32>, base: u32) -> (n: u32)
    requires
        some.finite(),
        some.len() > 0,
    ensures
        is_furthest_behind(some, base, n),
    decreases some.len(),
{
    let a = some.choose();
    let rest = some.remove(a);
    if rest.len() == 0 {
        assert forall|k: u32| #[trigger] some.contains(k) implies k == a by {
            assert(!rest.contains(k));
        }
        a
    } else {
        let m = lemma_one_is_furthest_behind(rest, base);
        let n = if frame_distance(a, base) <= frame_distance(m, base) {
            a
        } else {
            m
        };
        assert forall|k: u32| #[trigger] some.contains(k) implies frame_distance(n, base)
            <= frame_distance(k, base) by {
            if k != a {
                assert(rest.contains(k));
            }
        }
        n
    }
}

/// However many frames arrive and are not given out, no more wait than the window has.
pub proof fn law_depth_is_bounded<S>(buffer: JitterModel<S>, n: u32, samples: Seq<S>)
    requires
        buffer.wf(),
    ensures
        buffer.pushed(n, samples).wf(),
        buffer.pushed(n, samples).frames.dom().len() <= VBAN_FRAME_WINDOW,
{
    let taken = JitterModel {
        frame_samples: if buffer.frame_samples == 0 {
            samples.len()
        } else {
            buffer.frame_samples
        },
        ..buffer
    }.taken_in(n, samples);
    assert(taken.frames.dom() =~= buffer.frames.dom().insert(n));
    let kept = taken.within_window();
    if taken.frames.dom().len() > VBAN_FRAME_WINDOW {
        let oldest = lemma_one_is_furthest_behind(taken.frames.dom(), taken.base());
        assert(taken.is_oldest(oldest));
        lemma_oldest(taken, oldest);
        assert(kept.frames.dom() =~= taken.frames.dom().remove(oldest));
    }
}

/// The buffer after some frames arrived, one behind the other.
pub open spec fn after_pushes<S>(buffer: JitterModel<S>, pushes: Seq<(u32, Seq<S>)>) -> JitterModel<
    S,
>
    decreases pushes.len(),
{
    if pushes.len() == 0 {
        buffer
    } else {
        after_pushes(buffer, pushes.drop_last()).pushed(pushes.last().0, pushes.last().1)
    }
}

/// Whether the `i`th frame that arrived is the first one with the number `n`.
pub open spec fn is_first_push<S>(pushes: Seq<(u32, Seq<S>)>, n: u32, i: int) -> bool {
    &&& 0 <= i < pushes.len()
    &&& pushes[i].0 == n
    &&& forall|j: int| 0 <= j < i ==> (#[trigger] pushes[j]).0 != n
}

/// Whether a frame that waits was taken in with the `i`th arrival, when it did not wait.
pub open spec fn came_with<S>(
    buffer: JitterModel<S>,
    pushes: Seq<(u32, Seq<S>)>,
    n: u32,
    samples: Seq<S>,
    i: int,
) -> bool {
    &&& 0 <= i < pushes.len()
    &&& pushes[i] == (n, samples)
    &&& !after_pushes(buffer, pushes.take(i)).frames.contains_key(n)
}

proof fn lemma_pushes_keep<S>(buffer: JitterModel<S>, pushes: Seq<(u32, Seq<S>)>)
    requires
        buffer.wf(),
    ensures
        after_pushes(buffer, pushes).wf(),
        after_pushes(buffer, pushes).last_emitted == buffer.last_emitted,
        after_pushes(buffer, pushes).frames.dom().len() <= buffer.frames.dom().len() + pushes.len(),
    decreases pushes.len(),
{
    if pushes.len() > 0 {
        let before = after_pushes(buffer, pushes.drop_last());
        let (n, samples) = pushes.last();
        lemma_pushes_keep(buffer, pushes.drop_last());
        law_depth_is_bounded(before, n, samples);
        let after = before.pushed(n, samples);
        let more = before.frames.dom().insert(n);
        assert(after.frames.dom().subset_of(more));
        vstd::set_lib::lemma_len_subset(after.frames.dom(), more);
    }
}

proof fn lemma_waiting_frame_came<S>(buffer: JitterModel<S>, pushes: Seq<(u32, Seq<S>)>, n: u32)
    requires
        after_pushes(buffer, pushes).frames.contains_key(n),
    ensures
        ({
            let samples = after_pushes(buffer, pushes).frames[n];
            ||| buffer.frames.contains_key(n) && samples == buffer.frames[n]
            ||| exists|i: int| #[trigger] came_with(buffer, pushes, n, samples, i)
        }),
    decreases pushes.len(),
{
    if pushes.len() > 0 {
        let init = pushes.drop_last();
        let before = after_pushes(buffer, init);
        let samples = after_pushes(buffer, pushes).frames[n];
        if before.frames.contains_key(n) {
            lemma_waiting_frame_came(buffer, init, n);
            assert(before.frames[n] == samples);
            if !(buffer.frames.contains_key(n) && samples == buffer.frames[n]) {
                let i = choose|i: int| #[trigger] came_with(buffer, init, n, samples, i);
                assert(pushes.take(i) =~= init.take(i));
                assert(came_with(buffer, pushes, n, samples, i));
            }
        } else {
            assert(pushes.take(pushes.len() - 1) =~= init);
            assert(came_with(buffer, pushes, n, samples, pushes.len() - 1));
        }
    }
}

proof fn lemma_nothing_is_left_out<S>(
    buffer: JitterModel<S>,
    pushes: Seq<(u32, Seq<S>)>,
    n: u32,
)
    requires
        buffer.wf(),
        buffer.frames.dom().len() + pushes.len() <= VBAN_FRAME_WINDOW,
    ensures
        buffer.frames.contains_key(n) ==> after_pushes(buffer, pushes).frames.contains_key(n)
            && after_pushes(buffer, pushes).frames[n] == buffer.frames[n],
        !buffer.too_old(n) && !buffer.frames.contains_key(n) ==> forall|i: int| #[trigger]
            is_first_push(pushes, n, i) ==> after_pushes(buffer, pushes).frames.contains_key(n)
                && after_pushes(buffer, pushes).frames[n] == pushes[i].1,
        !buffer.frames.contains_key(n) && (buffer.too_old(n) || forall|j: int|
            0 <= j < pushes.len() ==> (#[trigger] pushes[j]).0 != n) ==> !after_pushes(
            buffer,
            pushes,
        ).frames.contains_key(n),
    decreases pushes.len(),
{
    if pushes.len() > 0 {
        let init = pushes.drop_last();
        let before = after_pushes(buffer, init);
        let (m, samples) = pushes.last();
        lemma_nothing_is_left_out(buffer, init, n);
        lemma_pushes_keep(buffer, init);
        let taken = JitterModel {
            frame_samples: if before.frame_samples == 0 {
                samples.len()
            } else {
                before.frame_samples
            },
            ..before
        }.taken_in(m, samples);
        assert(taken.frames.dom() =~= before.frames.dom().insert(m));
        assert(taken.within_window() == taken);
        if forall|j: int| 0 <= j < pushes.len() ==> (#[trigger] pushes[j]).0 != n {
            assert forall|j: int| 0 <= j < init.len() implies (#[trigger] init[j]).0 != n by {
                assert(init[j] == pushes[j]);
            }
            assert(pushes[pushes.len() - 1].0 != n);
        }
        if !buffer.too_old(n) && !buffer.frames.contains_key(n) {
            assert forall|i: int| #[trigger] is_first_push(pushes, n, i) implies after_pushes(
                buffer,
                pushes,
            ).frames.contains_key(n) && after_pushes(buffer, pushes).frames[n] == pushes[i].1 by {
                if i < init.len() {
                    assert forall|j: int| 0 <= j < i implies (#[trigger] init[j]).0 != n by {
                        assert(init[j] == pushes[j]);
                    }
                    assert(is_first_push(init, n, i));
                } else {
                    assert forall|j: int| 0 <= j < init.len() implies (#[trigger] init[j]).0
                        != n by {
                        assert(init[j] == pushes[j]);
                    }
                }
            }
        }
    }
}

/// Whatever arrives between two frames that are given out, the second one follows the first,
/// over the wrap-around of the counter; it is given out with the samples that it waited with,
/// which are those that it first arrived with since it did not wait; and it waits no longer.
/// As long as no more frames come than the window has places for, those are the samples of
/// its very first arrival.
pub proof fn law_output_advances<S>(
    buffer: JitterModel<S>,
    earlier: u32,
    pushes: Seq<(u32, Seq<S>)>,
    n: u32,
)
    requires
        buffer.wf(),
        buffer.last_emitted == Some(earlier),
        after_pushes(buffer, pushes).is_next(n),
    ensures
        ({
            let waiting = after_pushes(buffer, pushes);
            let samples = waiting.frames[n];
            &&& waiting.last_emitted == Some(earlier)
            &&& frame_distance(n, earlier) > 0
            &&& waiting.popped(n).last_emitted == Some(n)
            &&& !waiting.popped(n).frames.contains_key(n)
            &&& {
                ||| buffer.frames.contains_key(n) && samples == buffer.frames[n]
                ||| exists|i: int| #[trigger] came_with(buffer, pushes, n, samples, i)
            }
            &&& buffer.frames.dom().len() + pushes.len() <= VBAN_FRAME_WINDOW ==> {
                if buffer.frames.contains_key(n) {
                    samples == buffer.frames[n]
                } else {
                    forall|i: int| #[trigger]
                        is_first_push(pushes, n, i) ==> samples == pushes[i].1
                }
            }
        }),
{
    lemma_pushes_keep(buffer, pushes);
    lemma_waiting_frame_came(buffer, pushes, n);
    if buffer.frames.dom().len() + pushes.len() <= VBAN_FRAME_WINDOW {
        lemma_nothing_is_left_out(buffer, pushes, n);
    }
}

} // verus!
