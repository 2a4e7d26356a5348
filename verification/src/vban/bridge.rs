//! Joining network streams to the queues of the engine.

use crate::arithmetic::is_binary;
use crate::fifo::{AudioFifoConsumer, AudioFifoProducer};
use crate::routing::{
    RouteGraph, SinkId, SinkKind, SourceId, SourceKind, DEFAULT_BLOCK_FRAMES, INTERNAL_CHANNELS,
    INTERNAL_SAMPLE_RATE,
};
use crate::runtime::capture::{block_written, write_block};
use crate::vban::jitter::{stats_have_room, JitterModel, VBanJitterBuffer, VBanJitterStats};
use crate::vban::packet::{
    ascii_text, decoded_header, printable, trimmed_name, VBanBitFormat, VBanHeader,
};
use crate::vban::receive::{
    dequantise_all, dequantised, parse_packet, parsed_packet, FrameModel, VBanReceiveError,
};
use crate::vban::wire::VBanSendError;
use vstd::prelude::*;

verus! {

/// Why the network cannot be joined to the engine.
#[derive(Debug, PartialEq, Eq)]
pub enum NetworkBridgeError {
    Bind(VBanReceiveError),
    /// The socket failed, with the reason that it gave.
    Udp(String),
    SenderInit(VBanSendError),
    NoSources,
}

/// The ends of the engine's queues that the network serves.
pub struct NetworkIoHandles {
    pub vban_source_producers: Vec<(SourceId, AudioFifoProducer)>,
    pub vban_sink_consumers: Vec<(SinkId, AudioFifoConsumer)>,
}

/// A stream that is received into a queue.
pub struct VbanSourceBridge {
    pub producer: AudioFifoProducer,
    pub stream_name: String,
}

/// A queue that is sent as a stream.
pub struct VbanSinkBridge {
    pub consumer: AudioFifoConsumer,
    pub stream_name: String,
    /// The address of the receiving node, as it was configured.
    pub target: String,
    pub sample_rate: u32,
    pub channels: usize,
    pub bit_format: VBanBitFormat,
    pub block_frames: usize,
}

/// A queue and the name of the stream that fills it.
#[verifier::ext_equal]
pub struct SourceBridgeModel {
    pub producer: AudioFifoProducer,
    pub stream_name: Seq<char>,
}

/// A queue, the name of the stream that it becomes, and where it goes.
#[verifier::ext_equal]
pub struct SinkBridgeModel {
    pub consumer: AudioFifoConsumer,
    pub stream_name: Seq<char>,
    pub target: Seq<char>,
}

/// What bridges of sources say.
pub open spec fn source_bridge_models(bridges: Seq<VbanSourceBridge>) -> Seq<SourceBridgeModel> {
    bridges.map_values(
        |b: VbanSourceBridge|
            SourceBridgeModel { producer: b.producer, stream_name: b.stream_name@ },
    )
}

/// What bridges of sinks say.
pub open spec fn sink_bridge_models(bridges: Seq<VbanSinkBridge>) -> Seq<SinkBridgeModel> {
    bridges.map_values(
        |b: VbanSinkBridge|
            SinkBridgeModel {
                consumer: b.consumer,
                stream_name: b.stream_name@,
                target: b.target@,
            },
    )
}

/// A text that may be absent, as a text.
pub open spec fn text_or_empty(text: Option<Seq<char>>) -> Seq<char> {
    match text {
        Some(t) => t,
        None => Seq::empty(),
    }
}

/// The bridges of the queues that belong to network sources of the graph, in order.
pub open spec fn bridged_sources(
    graph: crate::routing::GraphModel,
    handles: Seq<(SourceId, AudioFifoProducer)>,
) -> Seq<SourceBridgeModel>
    decreases handles.len(),
{
    if handles.len() == 0 {
        Seq::empty()
    } else {
        let before = bridged_sources(graph, handles.drop_last());
        let (id, producer) = handles.last();
        let i = crate::routing::source_index(graph.sources, id@);
        if graph.has_source(id@) && graph.sources[i].kind == SourceKind::Vban {
            before.push(
                SourceBridgeModel {
                    producer,
                    stream_name: text_or_empty(graph.sources[i].stream_name),
                },
            )
        } else {
            before
        }
    }
}

/// The bridges of the queues that belong to network sinks of the graph with an address,
/// in order.
pub open spec fn bridged_sinks(
    graph: crate::routing::GraphModel,
    handles: Seq<(SinkId, AudioFifoConsumer)>,
) -> Seq<SinkBridgeModel>
    decreases handles.len(),
{
    if handles.len() == 0 {
        Seq::empty()
    } else {
        let before = bridged_sinks(graph, handles.drop_last());
        let (id, consumer) = handles.last();
        let i = crate::routing::sink_index(graph.sinks, id@);
        if graph.has_sink(id@) && graph.sinks[i].kind == SinkKind::Vban
            && graph.sinks[i].remote_addr is Some {
            before.push(
                SinkBridgeModel {
                    consumer,
                    stream_name: text_or_empty(graph.sinks[i].stream_name),
                    target: graph.sinks[i].remote_addr->0,
                },
            )
        } else {
            before
        }
    }
}

fn text_or_default(text: &Option<String>) -> (owned: String)
    ensures
        owned@ == text_or_empty(crate::routing::optional_text(*text)),
{
    match text {
        Some(t) => t.clone(),
        None => String::new(),
    }
}

/// Joins the queues of network sources to their streams. A queue that belongs to no
/// network source of the graph is given up.
pub fn source_bridges(
    graph: &RouteGraph,
    handles: Vec<(SourceId, AudioFifoProducer)>,
) -> (bridges: Vec<VbanSourceBridge>)
    ensures
        source_bridge_models(bridges@) == bridged_sources(graph@, handles@),
{
    let ghost all = handles@;
    let mut rest = handles;
    let mut bridges: Vec<VbanSourceBridge> = Vec::new();
    assert(source_bridge_models(bridges@) =~= bridged_sources(graph@, all.take(0)));
    let count = rest.len();
    for i in 0..count
        invariant
            count == all.len(),
            rest@ =~= all.skip(i as int),
            source_bridge_models(bridges@) == bridged_sources(graph@, all.take(i as int)),
    {
        let (id, producer) = rest.remove(0);
        proof {
            assert(all.take(i + 1).drop_last() =~= all.take(i as int));
            assert(all.take(i + 1).last() == (id, producer));
            assert(rest@ =~= all.skip(i + 1));
        }
        if let Some(k) = graph.find_source(&id) {
            assert(graph@.sources[k as int] == graph.sources@[k as int]@);
            if graph.sources[k].kind == SourceKind::Vban {
                let ghost before = bridges@;
                let stream_name = text_or_default(&graph.sources[k].stream_name);
                let bridge = VbanSourceBridge { producer, stream_name };
                bridges.push(bridge);
                assert(source_bridge_models(bridges@) =~= source_bridge_models(before).push(
                    SourceBridgeModel {
                        producer: bridge.producer,
                        stream_name: bridge.stream_name@,
                    },
                ));
            }
        }
    }
    assert(all.take(count as int) =~= all);
    bridges
}

/// Joins the queues of network sinks to the streams that they become. A queue that
/// belongs to no network sink with an address is given up.
pub fn sink_bridges(graph: &RouteGraph, handles: Vec<(SinkId, AudioFifoConsumer)>) -> (bridges: Vec<
    VbanSinkBridge,
>)
    ensures
        sink_bridge_models(bridges@) == bridged_sinks(graph@, handles@),
        forall|i: int|
            0 <= i < bridges@.len() ==> (#[trigger] bridges@[i]).sample_rate
                == INTERNAL_SAMPLE_RATE && bridges@[i].channels == INTERNAL_CHANNELS
                && bridges@[i].bit_format == VBanBitFormat::Float32 && bridges@[i].block_frames
                == DEFAULT_BLOCK_FRAMES,
{
    let ghost all = handles@;
    let mut rest = handles;
    let mut bridges: Vec<VbanSinkBridge> = Vec::new();
    assert(sink_bridge_models(bridges@) =~= bridged_sinks(graph@, all.take(0)));
    let count = rest.len();
    for i in 0..count
        invariant
            count == all.len(),
            rest@ =~= all.skip(i as int),
            sink_bridge_models(bridges@) == bridged_sinks(graph@, all.take(i as int)),
            forall|j: int|
                0 <= j < bridges@.len() ==> (#[trigger] bridges@[j]).sample_rate
                    == INTERNAL_SAMPLE_RATE && bridges@[j].channels == INTERNAL_CHANNELS
                    && bridges@[j].bit_format == VBanBitFormat::Float32
                    && bridges@[j].block_frames == DEFAULT_BLOCK_FRAMES,
    {
        let (id, consumer) = rest.remove(0);
        proof {
            assert(all.take(i + 1).drop_last() =~= all.take(i as int));
            assert(all.take(i + 1).last() == (id, consumer));
            assert(rest@ =~= all.skip(i + 1));
        }
        if let Some(k) = graph.find_sink(&id) {
            assert(graph@.sinks[k as int] == graph.sinks@[k as int]@);
            if graph.sinks[k].kind == SinkKind::Vban {
                if let Some(address) = &graph.sinks[k].remote_addr {
                    let ghost before = bridges@;
                    let bridge = VbanSinkBridge {
                        consumer,
                        stream_name: text_or_default(&graph.sinks[k].stream_name),
                        target: address.clone(),
                        sample_rate: INTERNAL_SAMPLE_RATE,
                        channels: INTERNAL_CHANNELS,
                        bit_format: VBanBitFormat::Float32,
                        block_frames: DEFAULT_BLOCK_FRAMES,
                    };
                    bridges.push(bridge);
                    assert(sink_bridge_models(bridges@) =~= sink_bridge_models(before).push(
                        SinkBridgeModel {
                            consumer: bridge.consumer,
                            stream_name: bridge.stream_name@,
                            target: bridge.target@,
                        },
                    ));
                }
            }
        }
    }
    assert(all.take(count as int) =~= all);
    bridges
}

/// A bridge needs a stream in at least one direction.
pub fn check_bridge(sources: usize, sinks: usize) -> (result: Result<(), NetworkBridgeError>)
    ensures
        result is Ok <==> sources > 0 || sinks > 0,
        result matches Err(e) ==> e is NoSources,
{
    if sources == 0 && sinks == 0 {
        Err(NetworkBridgeError::NoSources)
    } else {
        Ok(())
    }
}

/// One received stream.
pub struct VbanStream {
    name: String,
    jitter: VBanJitterBuffer<u32>,
    producer: AudioFifoProducer,
}

impl VbanStream {
    /// The name that packets of the stream carry.
    pub closed spec fn stream_name(self) -> Seq<char> {
        self.name@
    }

    /// The name that packets of the stream carry.
    pub fn name(&self) -> (name: &str)
        ensures
            name@ == self.stream_name(),
    {
        self.name.as_str()
    }

    /// The frames that wait.
    pub closed spec fn buffer(self) -> JitterModel<u32> {
        self.jitter@
    }

    /// The queue that the stream fills.
    pub closed spec fn queue(self) -> AudioFifoProducer {
        self.producer
    }

    /// The stream's buffer and queue are in order.
    pub closed spec fn wf(self) -> bool {
        self.jitter@.wf() && self.producer.wf()
    }

    /// A stream that has received nothing.
    pub fn new(bridge: VbanSourceBridge) -> (stream: Self)
        requires
            bridge.producer.wf(),
        ensures
            stream.wf(),
            stream.stream_name() == bridge.stream_name@,
            stream.queue() == bridge.producer,
            stream.buffer() == JitterModel::<u32>::fresh(),
    {
        VbanStream {
            name: bridge.stream_name,
            jitter: VBanJitterBuffer::new(),
            producer: bridge.producer,
        }
    }

    /// How many frames wait.
    pub fn fill_level(&self) -> (frames: usize)
        ensures
            frames == self.buffer().frames.dom().len(),
    {
        self.jitter.fill_level()
    }

    /// The counts of the stream so far.
    pub fn stats(&self) -> (stats: VBanJitterStats)
        ensures
            stats == self.buffer().stats,
    {
        self.jitter.stats()
    }
}

/// The names of streams.
pub open spec fn stream_names(streams: Seq<VbanStream>) -> Seq<Seq<char>> {
    streams.map_values(|s: VbanStream| s.stream_name())
}

/// Whether a bridge is the last one of its name.
pub open spec fn is_last_of_name(bridges: Seq<SourceBridgeModel>, i: int) -> bool {
    &&& 0 <= i < bridges.len()
    &&& forall|k: int|
        i < k < bridges.len() ==> (#[trigger] bridges[k]).stream_name != bridges[i].stream_name
}

/// Whether a stream has received nothing and fills the queue of the last bridge of its
/// name.
pub open spec fn is_opened(bridges: Seq<SourceBridgeModel>, stream: VbanStream) -> bool {
    &&& stream.wf()
    &&& stream.buffer() == JitterModel::<u32>::fresh()
    &&& exists|i: int| #[trigger]
        is_last_of_name(bridges, i) && bridges[i] == (SourceBridgeModel {
            producer: stream.queue(),
            stream_name: stream.stream_name(),
        })
}

/// Opens a stream for every name. Where several queues go by one name, the last one is
/// filled and the others are given up.
pub fn open_streams(bridges: Vec<VbanSourceBridge>) -> (streams: Vec<VbanStream>)
    requires
        forall|i: int| 0 <= i < bridges@.len() ==> (#[trigger] bridges@[i]).producer.wf(),
    ensures
        stream_names(streams@).no_duplicates(),
        forall|j: int|
            0 <= j < streams@.len() ==> is_opened(
                source_bridge_models(bridges@),
                #[trigger] streams@[j],
            ),
        forall|i: int|
            0 <= i < bridges@.len() ==> stream_names(streams@).contains(
                (#[trigger] bridges@[i]).stream_name@,
            ),
{
    let ghost all = bridges@;
    let ghost models = source_bridge_models(all);
    let mut rest = bridges;
    let mut streams: Vec<VbanStream> = Vec::new();
    let count = rest.len();
    for i in 0..count
        invariant
            count == all.len(),
            models == source_bridge_models(all),
            forall|k: int| 0 <= k < all.len() ==> (#[trigger] all[k]).producer.wf(),
            rest@ =~= all.skip(i as int),
            stream_names(streams@).no_duplicates(),
            forall|j: int|
                0 <= j < streams@.len() ==> is_opened(models.take(i as int), #[trigger] streams@[j]),
            forall|k: int|
                0 <= k < i ==> stream_names(streams@).contains((#[trigger] all[k]).stream_name@),
    {
        let bridge = rest.remove(0);
        let ghost names = stream_names(streams@);
        let ghost before = streams@;
        let ghost longer = models.take(i + 1);
        assert(bridge == all[i as int]);
        assert(rest@ =~= all.skip(i + 1));
        let found = find_stream(&streams, &bridge.stream_name);
        let stream = VbanStream::new(bridge);
        proof {
            assert(longer[i as int] == (SourceBridgeModel {
                producer: stream.queue(),
                stream_name: stream.stream_name(),
            }));
            assert(is_last_of_name(longer, i as int));
            assert forall|j: int|
                0 <= j < before.len() && (#[trigger] before[j]).stream_name()
                    != stream.stream_name() implies is_opened(longer, before[j]) by {
                let k = choose|k: int| #[trigger]
                    is_last_of_name(models.take(i as int), k) && models.take(i as int)[k] == (
                    SourceBridgeModel {
                        producer: before[j].queue(),
                        stream_name: before[j].stream_name(),
                    });
                assert forall|m: int| k < m < longer.len() implies (
                #[trigger] longer[m]).stream_name != longer[k].stream_name by {
                    if m < i {
                        assert(longer[m] == models.take(i as int)[m]);
                    }
                }
                assert(is_last_of_name(longer, k));
            }
        }
        match found {
            Some(t) => {
                streams.set(t, stream);
                assert(stream_names(streams@) =~= names);
                assert forall|j: int| 0 <= j < streams@.len() implies is_opened(
                    longer,
                    #[trigger] streams@[j],
                ) by {
                    assert(names[j] == streams@[j].stream_name());
                    if j != t {
                        assert(before[j].stream_name() == names[j]);
                    }
                }
            },
            None => {
                streams.push(stream);
                assert(stream_names(streams@) =~= names.push(stream.stream_name()));
                assert forall|j: int| 0 <= j < streams@.len() implies is_opened(
                    longer,
                    #[trigger] streams@[j],
                ) by {
                    if j < before.len() {
                        assert(before[j].stream_name() == names[j]);
                    }
                }
                assert forall|k: int| 0 <= k <= i implies stream_names(streams@).contains(
                    (#[trigger] all[k]).stream_name@,
                ) by {
                    if k < i {
                        let j = names.index_of(all[k].stream_name@);
                        assert(stream_names(streams@)[j] == all[k].stream_name@);
                    } else {
                        assert(stream_names(streams@).last() == all[k].stream_name@);
                    }
                }
            },
        }
    }
    assert(models.take(count as int) =~= models);
    streams
}

fn find_stream(streams: &Vec<VbanStream>, name: &String) -> (found: Option<usize>)
    ensures
        match found {
            Some(i) => {
                &&& i < streams@.len()
                &&& stream_names(streams@)[i as int] == name@
                &&& forall|j: int| 0 <= j < i ==> #[trigger] stream_names(streams@)[j] != name@
            },
            None => !stream_names(streams@).contains(name@),
        },
{
    let ghost names = stream_names(streams@);
    for i in 0..streams.len()
        invariant
            names == stream_names(streams@),
            forall|j: int| 0 <= j < i ==> #[trigger] names[j] != name@,
    {
        assert(names[i as int] == streams@[i as int].name@);
        if streams[i].name == *name {
            return Some(i);
        }
    }
    None
}

/// Which stream a packet with the name `name` goes to: the stream of that name; where
/// there is none, the only stream; else no stream.
pub open spec fn is_target(names: Seq<Seq<char>>, name: Seq<char>, i: int) -> bool {
    &&& 0 <= i < names.len()
    &&& if names.contains(name) {
        names[i] == name && forall|j: int| 0 <= j < i ==> #[trigger] names[j] != name
    } else {
        names.len() == 1
    }
}

/// Whether some stream takes packets with the name `name`.
pub open spec fn has_target(names: Seq<Seq<char>>, name: Seq<char>) -> bool {
    names.contains(name) || names.len() == 1
}

/// The stream that a packet with the name `name` goes to.
pub fn find_target(streams: &Vec<VbanStream>, name: &String) -> (found: Option<usize>)
    ensures
        match found {
            Some(i) => is_target(stream_names(streams@), name@, i as int),
            None => !has_target(stream_names(streams@), name@),
        },
{
    match find_stream(streams, name) {
        Some(i) => {
            assert(stream_names(streams@).contains(name@));
            Some(i)
        },
        None => if streams.len() == 1 {
            Some(0)
        } else {
            None
        },
    }
}

/// What a packet carries and the name of its stream, where both can be read.
pub open spec fn named_frame(packet: Seq<u8>) -> Option<(Seq<char>, FrameModel)> {
    match (decoded_header(packet), parsed_packet(packet)) {
        (Ok(header), Ok(frame)) => if printable(trimmed_name(header.stream_name)) {
            Some((ascii_text(trimmed_name(header.stream_name)), frame))
        } else {
            None
        },
        _ => None,
    }
}

/// Takes a packet into the stream that it belongs to. A packet that cannot be read, or
/// that belongs to no stream, changes nothing.
pub fn accept_packet<D: Fn(u32, VBanBitFormat) -> u32>(
    streams: &mut Vec<VbanStream>,
    packet: &[u8],
    dequantise: &D,
) -> (target: Option<usize>)
    requires
        is_binary(*dequantise),
        forall|i: int| 0 <= i < old(streams)@.len() ==> (#[trigger] old(streams)@[i]).wf(),
        forall|i: int|
            0 <= i < old(streams)@.len() ==> stats_have_room(
                (#[trigger] old(streams)@[i]).buffer().stats,
                1,
            ),
    ensures
        final(streams)@.len() == old(streams)@.len(),
        forall|i: int| 0 <= i < final(streams)@.len() ==> (#[trigger] final(streams)@[i]).wf(),
        match target {
            Some(t) => {
                &&& named_frame(packet@) matches Some((name, frame)) && is_target(
                    stream_names(old(streams)@),
                    name,
                    t as int,
                ) && final(streams)@[t as int].buffer() == old(streams)@[t as int].buffer().pushed(
                    frame.nu_frame,
                    dequantised(*dequantise, frame.bit_format, frame.numbers),
                )
                &&& final(streams)@[t as int].queue() == old(streams)@[t as int].queue()
                &&& final(streams)@[t as int].stream_name() == old(streams)@[t as int].stream_name()
                &&& forall|i: int|
                    0 <= i < old(streams)@.len() && i != t ==> #[trigger] final(streams)@[i]
                        == old(streams)@[i]
            },
            None => {
                &&& named_frame(packet@) matches Some((name, frame)) ==> !has_target(
                    stream_names(old(streams)@),
                    name,
                )
                &&& final(streams)@ == old(streams)@
            },
        },
{
    let header = match VBanHeader::decode(packet) {
        Ok(header) => header,
        Err(_) => {
            return None;
        },
    };
    let name = match header.stream_name_str() {
        Ok(name) => name,
        Err(_) => {
            return None;
        },
    };
    let frame = match parse_packet(packet) {
        Ok(frame) => frame,
        Err(_) => {
            return None;
        },
    };
    match find_target(streams, &name) {
        None => None,
        Some(t) => {
            let samples = dequantise_all(&frame.numbers, frame.bit_format, dequantise);
            proof {
                crate::vban::receive::lemma_frame_is_not_empty(packet@);
                assert(streams@[t as int].wf());
                assert(stats_have_room(streams@[t as int].buffer().stats, 1));
            }
            let _ = streams[t].jitter.push(frame.nu_frame, samples.as_slice());
            Some(t)
        },
    }
}

/// The buffer after the frames of `order` were given out.
pub open spec fn after_order(buffer: JitterModel<u32>, order: Seq<u32>) -> JitterModel<u32>
    decreases order.len(),
{
    if order.len() == 0 {
        buffer
    } else {
        after_order(buffer, order.drop_last()).popped(order.last())
    }
}

/// Whether `order` is an order in which the buffer gives frames out.
pub open spec fn is_order(buffer: JitterModel<u32>, order: Seq<u32>) -> bool
    decreases order.len(),
{
    order.len() > 0 ==> is_order(buffer, order.drop_last()) && after_order(
        buffer,
        order.drop_last(),
    ).is_next(order.last())
}

/// A frame as a block: cut to the block's length, or filled up with silence.
pub open spec fn as_block(frame: Seq<u32>, samples: nat) -> Seq<u32> {
    Seq::new(
        samples,
        |i: int|
            if i < frame.len() {
                frame[i]
            } else {
                0
            },
    )
}

/// Frames that still wait are as they came.
pub(crate) proof fn lemma_waiting_frames_keep(buffer: JitterModel<u32>, order: Seq<u32>, n: u32)
    requires
        after_order(buffer, order).frames.contains_key(n),
    ensures
        buffer.frames.contains_key(n),
        after_order(buffer, order).frames[n] == buffer.frames[n],
    decreases order.len(),
{
    if order.len() > 0 {
        let before = after_order(buffer, order.drop_last());
        assert(before.frames.contains_key(n));
        lemma_waiting_frames_keep(buffer, order.drop_last(), n);
    }
}

/// Makes a block of a frame.
fn block_of(frame: &Vec<u32>, samples: usize) -> (block: Vec<u32>)
    ensures
        block@ == as_block(frame@, samples as nat),
{
    let mut block: Vec<u32> = Vec::new();
    for i in 0..samples
        invariant
            block@ =~= as_block(frame@, i as nat),
    {
        if i < frame.len() {
            block.push(frame[i]);
        } else {
            block.push(0);
        }
    }
    block
}

impl VbanStream {
    /// Writes every frame that can be given out into the queue, each as one block. What
    /// the queue has no room for is lost.
    pub fn drain(&mut self, block_samples: usize)
        requires
            old(self).wf(),
            stats_have_room(old(self).buffer().stats, old(self).buffer().frames.dom().len() + 1),
        ensures
            final(self).wf(),
            final(self).stream_name() == old(self).stream_name(),
            forall|k: u32| #[trigger]
                final(self).buffer().frames.contains_key(k) ==> !final(self).buffer().may_emit(k),
            exists|order: Seq<u32>, queues: Seq<AudioFifoProducer>| #[trigger]
                drained(*old(self), *final(self), block_samples as nat, order, queues),
    {
        let ghost start = *self;
        let ghost mut order: Seq<u32> = Seq::empty();
        let ghost mut queues: Seq<AudioFifoProducer> = seq![self.producer];
        let mut level = self.jitter.fill_level();
        loop
            invariant_except_break
                self.wf(),
                self.stream_name() == start.stream_name(),
                is_order(start.buffer(), order),
                self.buffer() == after_order(start.buffer(), order),
                is_written(start, *self, block_samples as nat, order, queues),
                level == self.buffer().frames.dom().len(),
                self.buffer().frames.dom().finite(),
                stats_have_room(self.buffer().stats, level as nat + 1),
            ensures
                self.wf(),
                self.stream_name() == start.stream_name(),
                is_order(start.buffer(), order),
                self.buffer() == (JitterModel {
                    frames: after_order(start.buffer(), order).live_frames(),
                    ..after_order(start.buffer(), order)
                }),
                forall|k: u32| #[trigger]
                    self.buffer().frames.contains_key(k) ==> !self.buffer().may_emit(k),
                is_written(start, *self, block_samples as nat, order, queues),
            decreases level,
        {
            let ghost before = self.jitter@;
            match self.jitter.pop_next() {
                None => {
                    assert forall|k: u32| #[trigger]
                        self.jitter@.frames.contains_key(k) implies !self.jitter@.may_emit(k) by {
                        assert(before.frames.contains_key(k));
                    }
                    break;
                },
                Some(frame) => {
                    let ghost n = self.jitter@.last_emitted->0;
                    let block = block_of(&frame, block_samples);
                    let ghost queue = self.producer;
                    let frames = write_block(&mut self.producer, block.as_slice());
                    level = self.jitter.fill_level();
                    proof {
                        lemma_waiting_frames_keep(start.buffer(), order, n);
                        let longer = order.push(n);
                        assert(longer.drop_last() =~= order);
                        let more = queues.push(self.producer);
                        assert forall|i: int| 0 <= i < longer.len() implies block_taken(
                            #[trigger] more[i],
                            more[i + 1],
                            as_block(start.buffer().frames[longer[i]], block_samples as nat),
                        ) by {
                            if i < order.len() {
                                assert(block_taken(
                                    queues[i],
                                    queues[i + 1],
                                    as_block(start.buffer().frames[order[i]], block_samples as nat),
                                ));
                            } else {
                                assert(block_written(queue, self.producer, block@, frames as nat));
                            }
                        }
                        order = longer;
                        queues = more;
                        lemma_pop_shrinks(before, n);
                    }
                },
            }
        }
        assert(drained(start, *self, block_samples as nat, order, queues));
    }
}

/// Whether a block was written into a queue, as far as there was room.
pub open spec fn block_taken(
    before: AudioFifoProducer,
    after: AudioFifoProducer,
    block: Seq<u32>,
) -> bool {
    exists|frames: nat| #[trigger] block_written(before, after, block, frames)
}

/// Whether the blocks of the frames of `order` were written into the queue one behind the
/// other; `queues` are the queue before the first and after each of them.
pub open spec fn is_written(
    before: VbanStream,
    after: VbanStream,
    block_samples: nat,
    order: Seq<u32>,
    queues: Seq<AudioFifoProducer>,
) -> bool {
    &&& queues.len() == order.len() + 1
    &&& queues[0] == before.queue()
    &&& queues.last() == after.queue()
    &&& forall|i: int|
        0 <= i < order.len() ==> block_taken(
            #[trigger] queues[i],
            queues[i + 1],
            as_block(before.buffer().frames[order[i]], block_samples),
        )
}

/// What draining a stream does: the frames of `order` are given out in that order, and
/// the block of each is written into the queue.
pub open spec fn drained(
    before: VbanStream,
    after: VbanStream,
    block_samples: nat,
    order: Seq<u32>,
    queues: Seq<AudioFifoProducer>,
) -> bool {
    &&& is_order(before.buffer(), order)
    &&& after.buffer() == (JitterModel {
        frames: after_order(before.buffer(), order).live_frames(),
        ..after_order(before.buffer(), order)
    })
    &&& is_written(before, after, block_samples, order, queues)
}

/// Giving a frame out leaves fewer frames waiting and uses up the counts' room for one.
proof fn lemma_pop_shrinks(buffer: JitterModel<u32>, n: u32)
    requires
        buffer.is_next(n),
        buffer.frames.dom().finite(),
        stats_have_room(buffer.stats, buffer.frames.dom().len() + 1),
    ensures
        buffer.popped(n).frames.dom().finite(),
        buffer.popped(n).frames.dom().len() < buffer.frames.dom().len(),
        stats_have_room(
            buffer.popped(n).stats,
            buffer.popped(n).frames.dom().len() + 1,
        ),
{
    let after = buffer.popped(n).frames.dom();
    let before = buffer.frames.dom();
    assert(after.subset_of(before.remove(n)));
    vstd::set_lib::lemma_len_subset(after, before.remove(n));
}

} // verus!
