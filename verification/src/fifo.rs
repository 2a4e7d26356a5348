//! A bounded queue of samples between one writing and one reading thread.
//!
//! `AudioFifo::split` gives the two ends. Neither end waits or allocates. Samples are
//! interleaved and carried as the bit patterns of IEEE-754 singles; room, counts and
//! results are in whole frames.

use rtrb::chunks::ChunkError;
use rtrb::{Consumer, Producer, RingBuffer};
use vstd::prelude::*;

verus! {

#[verifier::external_type_specification]
#[verifier::external_body]
#[verifier::reject_recursive_types(T)]
pub struct ExProducer<T>(Producer<T>);

#[verifier::external_type_specification]
#[verifier::external_body]
#[verifier::reject_recursive_types(T)]
pub struct ExConsumer<T>(Consumer<T>);

/// The items that have been pushed through this end of a ring, in order.
pub uninterp spec fn pushed(producer: Producer<u32>) -> Seq<u32>;

/// The items that have been popped through this end of a ring, in order.
pub uninterp spec fn popped(consumer: Consumer<u32>) -> Seq<u32>;

/// The items that go through the ring of this end, from the ring's making to its end.
pub uninterp spec fn producer_traffic(producer: Producer<u32>) -> Seq<u32>;

/// The items that go through the ring of this end, from the ring's making to its end.
pub uninterp spec fn consumer_traffic(consumer: Consumer<u32>) -> Seq<u32>;

/// How many items the ring of this end was made to hold.
pub uninterp spec fn producer_limit(producer: Producer<u32>) -> nat;

/// How many items the ring of this end was made to hold.
pub uninterp spec fn consumer_limit(consumer: Consumer<u32>) -> nat;

/// How many slots of the ring are free when this end next pushes or tries to.
pub uninterp spec fn writable(producer: Producer<u32>) -> nat;

/// How many items the ring holds when this end next pops or tries to.
pub uninterp spec fn readable(consumer: Consumer<u32>) -> nat;

/// How many items this end left in the ring when it last popped or tried to; 0 before that.
pub uninterp spec fn left_behind(consumer: Consumer<u32>) -> nat;

/// Calls `rtrb::RingBuffer::new`: a ring that holds `capacity` items and nothing yet.
/// Both ends belong to the same ring. The call panics where the items' storage would
/// be larger than an allocation can be.
#[verifier::external_body]
fn new_ring(capacity: usize) -> (ends: (Producer<u32>, Consumer<u32>))
    requires
        capacity * 4 <= isize::MAX,
    ensures
        pushed(ends.0) == Seq::<u32>::empty(),
        popped(ends.1) == Seq::<u32>::empty(),
        producer_traffic(ends.0) == consumer_traffic(ends.1),
        producer_limit(ends.0) == capacity,
        consumer_limit(ends.1) == capacity,
        writable(ends.0) == capacity,
        readable(ends.1) <= capacity,
        left_behind(ends.1) == 0,
{
    RingBuffer::new(capacity)
}

/// Calls `rtrb::Producer::push_entire_slice`: where there are free slots for all items,
/// all go into the ring, in order; else none does, and the free slots are told. Only this
/// end fills slots, so the slots that it leaves free stay free until it pushes again.
#[verifier::external_body]
fn push_items(producer: &mut Producer<u32>, items: &[u32]) -> (result: Result<(), usize>)
    ensures
        match result {
            Ok(()) => {
                &&& items@.len() <= writable(*old(producer))
                &&& pushed(*final(producer)) == pushed(*old(producer)) + items@
                &&& writable(*old(producer)) - items@.len() <= writable(*final(producer))
            },
            Err(slots) => {
                &&& slots == writable(*old(producer)) < items@.len()
                &&& pushed(*final(producer)) == pushed(*old(producer))
                &&& slots <= writable(*final(producer))
            },
        },
        producer_traffic(*final(producer)) == producer_traffic(*old(producer)),
        pushed(*final(producer)).is_prefix_of(producer_traffic(*final(producer))),
        producer_limit(*final(producer)) == producer_limit(*old(producer)),
        writable(*final(producer)) <= producer_limit(*final(producer)),
{
    match producer.push_entire_slice(items) {
        Ok(()) => Ok(()),
        Err(ChunkError::TooFewSlots(slots)) => Err(slots),
    }
}

/// Calls `rtrb::Consumer::pop_entire_slice`: where the ring holds as many items as `items`
/// has places for, they are moved there, in the order in which they were pushed; else none
/// is, and the items held are told. Only this end empties slots, so the items that it
/// leaves stay until it pops again.
#[verifier::external_body]
fn pop_items(consumer: &mut Consumer<u32>, items: &mut [u32]) -> (result: Result<(), usize>)
    ensures
        final(items)@.len() == old(items)@.len(),
        match result {
            Ok(()) => {
                &&& old(items)@.len() <= readable(*old(consumer))
                &&& popped(*final(consumer)) == popped(*old(consumer)) + final(items)@
                &&& left_behind(*final(consumer)) == readable(*old(consumer)) - old(items)@.len()
            },
            Err(slots) => {
                &&& slots == readable(*old(consumer)) < old(items)@.len()
                &&& final(items)@ == old(items)@
                &&& popped(*final(consumer)) == popped(*old(consumer))
                &&& left_behind(*final(consumer)) == slots
            },
        },
        consumer_traffic(*final(consumer)) == consumer_traffic(*old(consumer)),
        popped(*final(consumer)).is_prefix_of(consumer_traffic(*final(consumer))),
        consumer_limit(*final(consumer)) == consumer_limit(*old(consumer)),
        left_behind(*final(consumer)) <= readable(*final(consumer)) <= consumer_limit(
            *final(consumer),
        ),
{
    match consumer.pop_entire_slice(items) {
        Ok(()) => Ok(()),
        Err(ChunkError::TooFewSlots(slots)) => Err(slots),
    }
}

/// Calls `rtrb::Producer::slots`: the slots that are free now, which is every slot that no
/// item was pushed into, and those that were emptied since. The reading end may free more
/// before the next push.
#[verifier::external_body]
fn free_slots(producer: &Producer<u32>) -> (count: usize)
    ensures
        count <= writable(*producer),
        count + pushed(*producer).len() >= producer_limit(*producer),
{
    producer.slots()
}

/// Calls `rtrb::Consumer::slots`: the items that the ring holds now, which is every item
/// that the last pop left, and those that were pushed since. The writing end may add more
/// before the next pop. How many came since the last pop is up to the writing end.
#[verifier::external_body]
fn held_items(consumer: &Consumer<u32>) -> (count: usize)
    ensures
        left_behind(*consumer) <= count <= readable(*consumer),
{
    consumer.slots()
}

/// Why a queue cannot be made.
#[derive(Clone, Copy, Debug, PartialEq, Eq, Structural)]
pub enum FifoConfigError {
    ZeroCapacity,
    ZeroChannels,
    CapacityOverflow,
}

/// The samples of a slice do not make whole frames.
#[derive(Clone, Copy, Debug, PartialEq, Eq, Structural)]
pub struct UnalignedSamples {
    pub samples: usize,
    pub channels: usize,
}

/// What came of a push.
#[derive(Clone, Copy, Debug, PartialEq, Eq, Structural)]
pub enum PushResult {
    /// Every frame was written.
    Complete { frames: usize },
    /// Only the first frames were written; there was no room for the rest.
    Partial { frames: usize },
    /// There was no room.
    Full,
}

impl PushResult {
    /// How many frames were written.
    pub open spec fn count(self) -> nat {
        match self {
            PushResult::Complete { frames } => frames as nat,
            PushResult::Partial { frames } => frames as nat,
            PushResult::Full => 0,
        }
    }

    /// How many frames were written.
    pub fn frames(self) -> (frames: usize)
        ensures
            frames == self.count(),
    {
        match self {
            PushResult::Complete { frames } => frames,
            PushResult::Partial { frames } => frames,
            PushResult::Full => 0,
        }
    }
}

/// What came of a pop.
#[derive(Clone, Copy, Debug, PartialEq, Eq, Structural)]
pub enum PopResult {
    /// The slice was filled.
    Complete { frames: usize },
    /// Only the front of the slice was filled.
    Partial { frames: usize },
    /// There was nothing to read.
    Empty,
}

impl PopResult {
    /// How many frames were read.
    pub open spec fn count(self) -> nat {
        match self {
            PopResult::Complete { frames } => frames as nat,
            PopResult::Partial { frames } => frames as nat,
            PopResult::Empty => 0,
        }
    }

    /// How many frames were read.
    pub fn frames(self) -> (frames: usize)
        ensures
            frames == self.count(),
    {
        match self {
            PopResult::Complete { frames } => frames,
            PopResult::Partial { frames } => frames,
            PopResult::Empty => 0,
        }
    }
}

/// What a push of `requested` frames reports after `written` of them.
pub open spec fn push_report(requested: int, written: int) -> PushResult {
    if written == requested {
        PushResult::Complete { frames: written as usize }
    } else if written == 0 {
        PushResult::Full
    } else {
        PushResult::Partial { frames: written as usize }
    }
}

/// What a pop of `requested` frames reports after `read` of them.
pub open spec fn pop_report(requested: int, read: int) -> PopResult {
    if read == requested {
        PopResult::Complete { frames: read as usize }
    } else if read == 0 {
        PopResult::Empty
    } else {
        PopResult::Partial { frames: read as usize }
    }
}

/// The smaller of two counts.
pub open spec fn at_most(count: nat, limit: nat) -> nat {
    if count <= limit {
        count
    } else {
        limit
    }
}

/// The writing end of a queue.
pub struct AudioFifoProducer {
    producer: Producer<u32>,
    capacity_frames: usize,
    channels: usize,
}

/// The reading end of a queue.
pub struct AudioFifoConsumer {
    consumer: Consumer<u32>,
    capacity_frames: usize,
    channels: usize,
}

/// The making of a queue.
pub struct AudioFifo;

/// Why a queue of this size cannot be made.
pub open spec fn fifo_fault(capacity_frames: nat, channels: nat) -> Option<FifoConfigError> {
    if capacity_frames == 0 {
        Some(FifoConfigError::ZeroCapacity)
    } else if channels == 0 {
        Some(FifoConfigError::ZeroChannels)
    } else if capacity_frames * channels > usize::MAX {
        Some(FifoConfigError::CapacityOverflow)
    } else {
        None
    }
}

impl AudioFifo {
    /// Makes a queue and gives its two ends. The queue is empty and keeps its size.
    pub fn split(capacity_frames: usize, channels: usize) -> (result: Result<
        (AudioFifoProducer, AudioFifoConsumer),
        FifoConfigError,
    >)
        requires
            fifo_fault(capacity_frames as nat, channels as nat) is None ==> capacity_frames
                * channels * 4 <= isize::MAX,
        ensures
            match result {
                Ok((producer, consumer)) => {
                    &&& fifo_fault(capacity_frames as nat, channels as nat) is None
                    &&& producer.wf() && consumer.wf()
                    &&& producer.channel_count() == channels && consumer.channel_count()
                        == channels
                    &&& producer.capacity() == capacity_frames && consumer.capacity()
                        == capacity_frames
                    &&& producer.written() == Seq::<u32>::empty()
                    &&& consumer.read() == Seq::<u32>::empty()
                    &&& producer.traffic() == consumer.traffic()
                    &&& producer.room() == capacity_frames
                    &&& consumer.left() == 0
                },
                Err(e) => fifo_fault(capacity_frames as nat, channels as nat) == Some(e),
            },
    {
        if capacity_frames == 0 {
            return Err(FifoConfigError::ZeroCapacity);
        }
        if channels == 0 {
            return Err(FifoConfigError::ZeroChannels);
        }
        let samples = match capacity_frames.checked_mul(channels) {
            Some(samples) => samples,
            None => {
                return Err(FifoConfigError::CapacityOverflow);
            },
        };
        let (producer, consumer) = new_ring(samples);
        proof {
            vstd::arithmetic::div_mod::lemma_div_by_multiple(
                capacity_frames as int,
                channels as int,
            );
            vstd::arithmetic::div_mod::lemma_small_mod(0, channels as nat);
            vstd::arithmetic::div_mod::lemma_basic_div(0, channels as int);
        }
        Ok(
            (
                AudioFifoProducer { producer, capacity_frames, channels },
                AudioFifoConsumer { consumer, capacity_frames, channels },
            ),
        )
    }
}

/// What writing a slice of whole frames does to the writing end of a queue: its first
/// frames, as many as there is room for, come behind what was written before.
pub open spec fn frames_written(
    before: AudioFifoProducer,
    after: AudioFifoProducer,
    samples: Seq<u32>,
    frames: nat,
) -> bool {
    let channels = before.channel_count();
    &&& frames == at_most(samples.len() / channels, before.room())
    &&& after.written() == before.written() + samples.take((frames * channels) as int)
    &&& after.room() >= before.room() - frames
}

/// What reading into a slice of whole frames does to the reading end of a queue and to the
/// slice: as many frames as there are come to its front, and the rest keeps its values.
pub open spec fn frames_read(
    before: AudioFifoConsumer,
    after: AudioFifoConsumer,
    given: Seq<u32>,
    filled: Seq<u32>,
    frames: nat,
) -> bool {
    let channels = before.channel_count();
    &&& frames == at_most(given.len() / channels, before.ready())
    &&& filled.len() == given.len()
    &&& after.read() == before.read() + filled.take((frames * channels) as int)
    &&& filled.skip((frames * channels) as int) == given.skip((frames * channels) as int)
    &&& after.ready() >= before.ready() - frames
    &&& after.left() >= if given.len() == 0 {
        before.left() as int
    } else {
        before.ready() - frames
    }
}

/// Counts of whole frames behind and among samples.
proof fn lemma_whole_frames(samples: nat, slots: nat, channels: nat)
    requires
        channels > 0,
    ensures
        samples % channels == 0 ==> (samples / channels) * channels == samples,
        (slots / channels) * channels <= slots < (slots / channels + 1) * channels,
        samples % channels == 0 && samples <= slots ==> {
            &&& samples / channels <= slots / channels
            &&& ((slots - samples) as nat) / channels == slots / channels - samples / channels
        },
        samples % channels == 0 && slots < samples ==> slots / channels < samples / channels,
{
    vstd::arithmetic::div_mod::lemma_fundamental_div_mod(samples as int, channels as int);
    vstd::arithmetic::div_mod::lemma_fundamental_div_mod(slots as int, channels as int);
    vstd::arithmetic::div_mod::lemma_mod_bound(slots as int, channels as int);
    let a = (samples / channels) as int;
    let b = (slots / channels) as int;
    let c = channels as int;
    let rest = (slots % channels) as int;
    assert(a * c == c * a && b * c == c * b && (b + 1) * c == b * c + c) by (nonlinear_arith);
    if samples % channels == 0 && samples <= slots {
        assert(a <= b) by (nonlinear_arith)
            requires
                c * a <= c * b + rest,
                rest < c,
                c > 0,
        ;
        assert(slots - samples == (b - a) * c + rest) by (nonlinear_arith)
            requires
                samples == c * a,
                slots == c * b + rest,
        ;
        vstd::arithmetic::div_mod::lemma_fundamental_div_mod_converse(
            slots - samples,
            c,
            b - a,
            rest,
        );
    }
    if samples % channels == 0 && slots < samples {
        assert(b < a) by (nonlinear_arith)
            requires
                c * b + rest < c * a,
                rest >= 0,
                c > 0,
        ;
    }
}

/// More samples make at least as many frames, and whole frames behind whole frames are
/// whole.
proof fn lemma_frames_grow(fewer: nat, more: nat, frames: nat, channels: nat)
    requires
        channels > 0,
        fewer <= more,
    ensures
        fewer / channels <= more / channels,
        fewer % channels == 0 ==> (fewer + frames * channels) % channels == 0,
{
    vstd::arithmetic::div_mod::lemma_div_is_ordered(fewer as int, more as int, channels as int);
    vstd::arithmetic::div_mod::lemma_mod_multiples_vanish(
        frames as int,
        fewer as int,
        channels as int,
    );
    vstd::arithmetic::mul::lemma_mul_is_commutative(frames as int, channels as int);
}

impl AudioFifoProducer {
    /// The samples that were written so far.
    pub closed spec fn written(self) -> Seq<u32> {
        pushed(self.producer)
    }

    /// The samples that go through the queue over its life.
    pub closed spec fn traffic(self) -> Seq<u32> {
        producer_traffic(self.producer)
    }

    /// How many frames there is room for at the next write.
    pub closed spec fn room(self) -> nat {
        writable(self.producer) / self.channels as nat
    }

    /// Channels of a frame.
    pub closed spec fn channel_count(self) -> nat {
        self.channels as nat
    }

    /// Frames that the queue can hold.
    pub closed spec fn capacity(self) -> nat {
        self.capacity_frames as nat
    }

    /// The queue holds frames of at least one channel, has never more room than its
    /// size, and what was written are whole frames from the start of its traffic.
    pub closed spec fn wf(self) -> bool {
        &&& self.channels > 0
        &&& self.capacity_frames > 0
        &&& producer_limit(self.producer) == self.capacity_frames * self.channels
        &&& writable(self.producer) <= producer_limit(self.producer)
        &&& pushed(self.producer).is_prefix_of(producer_traffic(self.producer))
        &&& pushed(self.producer).len() % self.channels as nat == 0
    }

    /// Channels of a frame.
    pub fn channels(&self) -> (channels: usize)
        ensures
            channels == self.channel_count(),
            self.wf() ==> channels > 0,
    {
        self.channels
    }

    /// Frames that the queue can hold.
    pub fn capacity_frames(&self) -> (frames: usize)
        ensures
            frames == self.capacity(),
    {
        self.capacity_frames
    }

    /// Frames that can be written now: at least those that were never written to. The
    /// reading thread may make more room.
    pub fn available_frames(&self) -> (frames: usize)
        requires
            self.wf(),
        ensures
            frames <= self.room(),
            self.capacity() <= self.written().len() / self.channel_count() + frames,
    {
        let slots = free_slots(&self.producer);
        proof {
            let channels = self.channels as nat;
            let written = pushed(self.producer).len();
            let limit = producer_limit(self.producer);
            lemma_frames_grow(slots as nat, writable(self.producer), 0, channels);
            vstd::arithmetic::div_mod::lemma_div_by_multiple(
                self.capacity_frames as int,
                channels as int,
            );
            if written <= limit {
                lemma_whole_frames(written, limit, channels);
                lemma_frames_grow((limit - written) as nat, slots as nat, 0, channels);
            } else {
                lemma_frames_grow(limit, written, 0, channels);
            }
        }
        slots / self.channels
    }

    /// Writes as many frames of `samples` as there is room for, in order.
    ///
    /// Samples that do not make whole frames are refused and nothing changes.
    pub fn push_interleaved(&mut self, samples: &[u32]) -> (result: Result<
        PushResult,
        UnalignedSamples,
    >)
        requires
            old(self).wf(),
        ensures
            final(self).wf(),
            final(self).channel_count() == old(self).channel_count(),
            final(self).capacity() == old(self).capacity(),
            final(self).traffic() == old(self).traffic(),
            match result {
                Ok(report) => {
                    let requested = samples@.len() / old(self).channel_count();
                    let frames = at_most(requested, old(self).room());
                    &&& samples@.len() % old(self).channel_count() == 0
                    &&& frames_written(*old(self), *final(self), samples@, frames)
                    &&& report == push_report(requested as int, frames as int)
                },
                Err(e) => {
                    &&& samples@.len() % old(self).channel_count() != 0
                    &&& e.samples == samples@.len() && e.channels == old(self).channel_count()
                    &&& *final(self) == *old(self)
                },
            },
    {
        if samples.len() % self.channels != 0 {
            return Err(UnalignedSamples { samples: samples.len(), channels: self.channels });
        }
        let requested = samples.len() / self.channels;
        let ghost channels = self.channels as nat;
        let ghost before = *self;
        proof {
            lemma_whole_frames(samples@.len(), writable(self.producer), channels);
            lemma_frames_grow(self.written().len(), self.written().len(), requested as nat, channels);
        }
        if requested == 0 {
            assert(samples@.take(0) =~= Seq::<u32>::empty());
            assert(self.written() + samples@.take(0) =~= self.written());
            return Ok(PushResult::Complete { frames: 0 });
        }
        match push_items(&mut self.producer, samples) {
            Ok(()) => {
                proof {
                    assert(samples@.take(samples@.len() as int) =~= samples@);
                    lemma_frames_grow(
                        (writable(before.producer) - samples@.len()) as nat,
                        writable(self.producer),
                        0,
                        channels,
                    );
                }
                Ok(PushResult::Complete { frames: requested })
            },
            Err(slots) => {
                let frames = slots / self.channels;
                let ghost tried = *self;
                proof {
                    lemma_frames_grow(slots as nat, writable(tried.producer), 0, channels);
                    assert(samples@.take(0) =~= Seq::<u32>::empty());
                    assert(before.written() + samples@.take(0) =~= before.written());
                }
                if frames == 0 {
                    return Ok(PushResult::Full);
                }
                let count = frames * self.channels;
                let front = vstd::slice::slice_subrange(samples, 0, count);
                let pushed_front = push_items(&mut self.producer, front);
                proof {
                    assert(pushed_front is Ok);
                    assert(front@ =~= samples@.take(count as int));
                    vstd::arithmetic::div_mod::lemma_mod_multiples_basic(
                        frames as int,
                        channels as int,
                    );
                    vstd::arithmetic::div_mod::lemma_div_by_multiple(
                        frames as int,
                        channels as int,
                    );
                    lemma_whole_frames(count as nat, writable(tried.producer), channels);
                    lemma_frames_grow(
                        (writable(tried.producer) - count) as nat,
                        writable(self.producer),
                        0,
                        channels,
                    );
                    lemma_frames_grow(
                        before.written().len(),
                        before.written().len(),
                        frames as nat,
                        channels,
                    );
                }
                Ok(PushResult::Partial { frames })
            },
        }
    }
}

impl AudioFifoConsumer {
    /// The samples that were read so far.
    pub closed spec fn read(self) -> Seq<u32> {
        popped(self.consumer)
    }

    /// The samples that go through the queue over its life.
    pub closed spec fn traffic(self) -> Seq<u32> {
        consumer_traffic(self.consumer)
    }

    /// How many frames there are at the next read.
    pub closed spec fn ready(self) -> nat {
        readable(self.consumer) / self.channels as nat
    }

    /// How many frames the last read left in the queue.
    pub closed spec fn left(self) -> nat {
        left_behind(self.consumer) / self.channels as nat
    }

    /// Channels of a frame.
    pub closed spec fn channel_count(self) -> nat {
        self.channels as nat
    }

    /// Frames that the queue can hold.
    pub closed spec fn capacity(self) -> nat {
        self.capacity_frames as nat
    }

    /// The queue holds frames of at least one channel, never more samples than its size,
    /// and what was read are whole frames from the start of its traffic.
    pub closed spec fn wf(self) -> bool {
        &&& self.channels > 0
        &&& self.capacity_frames > 0
        &&& consumer_limit(self.consumer) == self.capacity_frames * self.channels
        &&& readable(self.consumer) <= consumer_limit(self.consumer)
        &&& popped(self.consumer).is_prefix_of(consumer_traffic(self.consumer))
        &&& popped(self.consumer).len() % self.channels as nat == 0
    }

    /// Channels of a frame.
    pub fn channels(&self) -> (channels: usize)
        ensures
            channels == self.channel_count(),
            self.wf() ==> channels > 0,
    {
        self.channels
    }

    /// Frames that the queue can hold.
    pub fn capacity_frames(&self) -> (frames: usize)
        ensures
            frames == self.capacity(),
    {
        self.capacity_frames
    }

    /// Frames that can be read now: at least those that the last read left. The writing
    /// thread may add more.
    pub fn available_frames(&self) -> (frames: usize)
        requires
            self.wf(),
        ensures
            self.left() <= frames <= self.ready(),
    {
        let slots = held_items(&self.consumer);
        proof {
            let channels = self.channels as nat;
            lemma_frames_grow(slots as nat, readable(self.consumer), 0, channels);
            lemma_frames_grow(left_behind(self.consumer), slots as nat, 0, channels);
        }
        slots / self.channels
    }

    /// Reads as many frames as there are into the front of `samples`, in the order in
    /// which they were written. The rest of `samples` keeps its values.
    ///
    /// A slice that does not hold whole frames is refused and nothing changes.
    pub fn pop_interleaved(&mut self, samples: &mut [u32]) -> (result: Result<
        PopResult,
        UnalignedSamples,
    >)
        requires
            old(self).wf(),
        ensures
            final(self).wf(),
            final(self).channel_count() == old(self).channel_count(),
            final(self).capacity() == old(self).capacity(),
            final(self).traffic() == old(self).traffic(),
            final(samples)@.len() == old(samples)@.len(),
            match result {
                Ok(report) => {
                    let requested = old(samples)@.len() / old(self).channel_count();
                    let frames = at_most(requested, old(self).ready());
                    &&& old(samples)@.len() % old(self).channel_count() == 0
                    &&& frames_read(
                        *old(self),
                        *final(self),
                        old(samples)@,
                        final(samples)@,
                        frames,
                    )
                    &&& report == pop_report(requested as int, frames as int)
                },
                Err(e) => {
                    &&& old(samples)@.len() % old(self).channel_count() != 0
                    &&& e.samples == old(samples)@.len() && e.channels == old(self).channel_count()
                    &&& *final(self) == *old(self)
                    &&& final(samples)@ == old(samples)@
                },
            },
    {
        if samples.len() % self.channels != 0 {
            return Err(UnalignedSamples { samples: samples.len(), channels: self.channels });
        }
        let requested = samples.len() / self.channels;
        let ghost channels = self.channels as nat;
        let ghost before = *self;
        let ghost given = samples@;
        proof {
            lemma_whole_frames(given.len(), readable(self.consumer), channels);
            lemma_frames_grow(self.read().len(), self.read().len(), requested as nat, channels);
        }
        if requested == 0 {
            assert(samples@.take(0) =~= Seq::<u32>::empty());
            assert(self.read() + samples@.take(0) =~= self.read());
            return Ok(PopResult::Complete { frames: 0 });
        }
        match pop_items(&mut self.consumer, samples) {
            Ok(()) => {
                proof {
                    assert(samples@.take(given.len() as int) =~= samples@);
                    assert(samples@.skip(given.len() as int) =~= given.skip(given.len() as int));
                    lemma_frames_grow(
                        left_behind(self.consumer),
                        readable(self.consumer),
                        0,
                        channels,
                    );
                }
                Ok(PopResult::Complete { frames: requested })
            },
            Err(slots) => {
                let frames = slots / self.channels;
                let ghost tried = *self;
                proof {
                    lemma_frames_grow(slots as nat, readable(tried.consumer), 0, channels);
                    assert(given.take(0) =~= Seq::<u32>::empty());
                    assert(before.read() + given.take(0) =~= before.read());
                }
                if frames == 0 {
                    return Ok(PopResult::Empty);
                }
                let count = frames * self.channels;
                let (front, _) = samples.split_at_mut(count);
                let popped_front = pop_items(&mut self.consumer, front);
                proof {
                    assert(popped_front is Ok);
                    vstd::arithmetic::div_mod::lemma_mod_multiples_basic(
                        frames as int,
                        channels as int,
                    );
                    vstd::arithmetic::div_mod::lemma_div_by_multiple(
                        frames as int,
                        channels as int,
                    );
                    lemma_whole_frames(count as nat, readable(tried.consumer), channels);
                    lemma_frames_grow(
                        left_behind(self.consumer),
                        readable(self.consumer),
                        0,
                        channels,
                    );
                    lemma_frames_grow(
                        before.read().len(),
                        before.read().len(),
                        frames as nat,
                        channels,
                    );
                    assert(samples@.take(count as int) =~= front@);
                    assert(samples@.skip(count as int) =~= given.skip(count as int));
                }
                Ok(PopResult::Partial { frames })
            },
        }
    }
}

/// What is read is what was written, in the same order: wherever both ends of a queue
/// stand, the samples read and the samples written agree as far as both go.
pub proof fn law_fifo_order(producer: AudioFifoProducer, consumer: AudioFifoConsumer, i: int)
    requires
        producer.wf(),
        consumer.wf(),
        producer.traffic() == consumer.traffic(),
        0 <= i < producer.written().len(),
        i < consumer.read().len(),
    ensures
        consumer.read()[i] == producer.written()[i],
{
    assert(consumer.read()[i] == consumer.traffic()[i]);
    assert(producer.written()[i] == producer.traffic()[i]);
}

/// Whether the next read finds all that was written and not read: nothing is written
/// before it.
pub open spec fn all_is_ready(producer: AudioFifoProducer, consumer: AudioFifoConsumer) -> bool {
    &&& producer.traffic() == consumer.traffic()
    &&& producer.channel_count() == consumer.channel_count()
    &&& consumer.read().len() + consumer.ready() * consumer.channel_count()
        == producer.written().len()
}

/// Whether the next write finds all places that hold nothing: nothing is read before it.
pub open spec fn all_is_free(producer: AudioFifoProducer, consumer: AudioFifoConsumer) -> bool {
    &&& producer.channel_count() == consumer.channel_count()
    &&& producer.written().len() + producer.room() * producer.channel_count()
        == consumer.read().len() + producer.capacity() * producer.channel_count()
}

/// Where nothing is written in between, a read gives the samples that were written and not
/// read yet, in order: as many frames as were asked for, or all there are. No more is read
/// than was written, and what lies behind the frames read keeps its values.
pub proof fn law_read_gives_what_was_written(
    producer: AudioFifoProducer,
    before: AudioFifoConsumer,
    after: AudioFifoConsumer,
    given: Seq<u32>,
    filled: Seq<u32>,
    frames: nat,
)
    requires
        producer.wf(),
        before.wf(),
        after.wf(),
        after.traffic() == before.traffic(),
        all_is_ready(producer, before),
        given.len() % before.channel_count() == 0,
        frames_read(before, after, given, filled, frames),
    ensures
        ({
            let channels = before.channel_count();
            let start = before.read().len() as int;
            let count = (frames * channels) as int;
            &&& frames == at_most(
                given.len() / channels,
                ((producer.written().len() - start) as nat) / channels,
            )
            &&& filled.take(count) == producer.written().subrange(start, start + count)
            &&& filled.skip(count) == given.skip(count)
            &&& after.read().len() <= producer.written().len()
            &&& after.read() == producer.written().take(start + count)
        }),
{
    let channels = before.channel_count();
    let start = before.read().len() as int;
    let count = (frames * channels) as int;
    vstd::arithmetic::div_mod::lemma_div_by_multiple(before.ready() as int, channels as int);
    vstd::arithmetic::mul::lemma_mul_inequality(
        frames as int,
        before.ready() as int,
        channels as int,
    );
    lemma_whole_frames(given.len(), given.len(), channels);
    vstd::arithmetic::mul::lemma_mul_inequality(
        frames as int,
        (given.len() / channels) as int,
        channels as int,
    );
    assert(after.read() =~= producer.written().take(start + count)) by {
        assert forall|i: int| 0 <= i < start + count implies after.read()[i]
            == producer.written()[i] by {
            law_fifo_order(producer, after, i);
        }
    }
    assert forall|i: int| 0 <= i < count implies filled.take(count)[i]
        == producer.written().subrange(start, start + count)[i] by {
        assert(filled.take(count)[i] == after.read()[start + i]);
    }
    assert(filled.take(count) =~= producer.written().subrange(start, start + count));
}

/// Where nothing is read in between, a write takes as many frames as the queue has places
/// for, and the queue never holds more than its size.
pub proof fn law_write_takes_what_fits(
    before: AudioFifoProducer,
    after: AudioFifoProducer,
    consumer: AudioFifoConsumer,
    samples: Seq<u32>,
    frames: nat,
)
    requires
        before.wf(),
        after.wf(),
        consumer.wf(),
        consumer.read().len() <= before.written().len(),
        all_is_free(before, consumer),
        samples.len() % before.channel_count() == 0,
        frames_written(before, after, samples, frames),
    ensures
        ({
            let channels = before.channel_count();
            let held = ((before.written().len() - consumer.read().len()) as nat) / channels;
            &&& held <= before.capacity()
            &&& frames == at_most(samples.len() / channels, (before.capacity() - held) as nat)
            &&& after.written().len() == before.written().len() + frames * channels
            &&& after.written().len() <= consumer.read().len() + before.capacity() * channels
        }),
{
    let channels = before.channel_count();
    let (room, capacity) = (before.room() as int, before.capacity() as int);
    let held = before.written().len() - consumer.read().len();
    assert(held == (capacity - room) * channels as int) by (nonlinear_arith)
        requires
            held + room * channels as int == capacity * channels as int,
    ;
    assert(capacity - room >= 0) by (nonlinear_arith)
        requires
            (capacity - room) * channels as int >= 0,
            channels > 0,
    ;
    vstd::arithmetic::div_mod::lemma_div_by_multiple(capacity - room, channels as int);
    vstd::arithmetic::mul::lemma_mul_inequality(frames as int, room, channels as int);
    lemma_whole_frames(samples.len(), samples.len(), channels);
    vstd::arithmetic::mul::lemma_mul_inequality(
        frames as int,
        (samples.len() / channels) as int,
        channels as int,
    );
}

/// The message of an error.
pub open spec fn fifo_fault_text(error: FifoConfigError) -> Seq<char> {
    match error {
        FifoConfigError::ZeroCapacity => "FIFO 容量必须大于 0 frame"@,
        FifoConfigError::ZeroChannels => "声道数必须大于 0"@,
        FifoConfigError::CapacityOverflow => "FIFO 样本容量溢出"@,
    }
}

impl FifoConfigError {
    /// The message of the error.
    pub fn message(self) -> (text: String)
        ensures
            text@ == fifo_fault_text(self),
    {
        match self {
            FifoConfigError::ZeroCapacity => "FIFO 容量必须大于 0 frame".to_owned(),
            FifoConfigError::ZeroChannels => "声道数必须大于 0".to_owned(),
            FifoConfigError::CapacityOverflow => "FIFO 样本容量溢出".to_owned(),
        }
    }
}

/// What is written stands behind what was written before, sample by sample from the first one on,
/// and as many frames as there are or as there is room for.
pub proof fn law_write_keeps_the_order(
    before: AudioFifoProducer,
    after: AudioFifoProducer,
    samples: Seq<u32>,
    frames: nat,
    i: int,
)
    requires
        before.wf(),
        frames_written(before, after, samples, frames),
        0 <= i < frames * before.channel_count(),
    ensures
        frames * before.channel_count() <= samples.len(),
        frames <= before.room(),
        frames == before.room() || frames == samples.len() / before.channel_count(),
        after.written().len() == before.written().len() + frames * before.channel_count(),
        after.written()[before.written().len() + i] == samples[i],
        forall|k: int|
            0 <= k < before.written().len() ==> #[trigger] after.written()[k]
                == before.written()[k],
{
    let channels = before.channel_count();
    let whole = samples.len() / channels;
    assert(whole * channels <= samples.len()) by {
        vstd::arithmetic::div_mod::lemma_fundamental_div_mod(
            samples.len() as int,
            channels as int,
        );
        assert(whole * channels == channels * whole) by (nonlinear_arith);
    }
    assert(frames * channels <= whole * channels) by (nonlinear_arith)
        requires
            frames <= whole,
    ;
}

/// What comes of a write or a read says how many frames went through: all that were asked for,
/// some of them, or none.
pub proof fn law_reports_say_how_much_went_through(requested: int, done: int)
    requires
        0 <= done <= requested <= usize::MAX,
    ensures
        push_report(requested, done).count() == done,
        pop_report(requested, done).count() == done,
        push_report(requested, done) is Complete <==> done == requested,
        pop_report(requested, done) is Complete <==> done == requested,
        push_report(requested, done) is Full <==> done == 0 && requested > 0,
        pop_report(requested, done) is Empty <==> done == 0 && requested > 0,
{
}

/// A queue needs a capacity and channels, and has to fit.
pub proof fn law_queues_that_can_be_set_up(capacity: nat, channels: nat)
    ensures
        fifo_fault(capacity, channels) is None <==> capacity > 0 && channels > 0 && capacity
            * channels <= usize::MAX,
        capacity == 0 ==> fifo_fault(capacity, channels) == Some(FifoConfigError::ZeroCapacity),
        capacity > 0 && channels == 0 ==> fifo_fault(capacity, channels) == Some(
            FifoConfigError::ZeroChannels,
        ),
{
}

} // verus!
