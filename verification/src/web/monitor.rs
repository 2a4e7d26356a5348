//! Listening to an output from a browser: who may, and who does.

use crate::text::{are_sorted, joined, sorted_texts, text_models};
use vstd::prelude::*;

verus! {

/// The RTP payload type of Opus.
pub const PAYLOAD_TYPE_OPUS: u8 = 111;

/// The bit rate of the encoder.
pub const DEFAULT_OPUS_BITRATE_BPS: u32 = 96_000;

/// How many listeners there may be at once.
pub const MAX_MONITOR_PEERS: usize = 2;

/// How long the candidates of a connection are waited for, in seconds.
pub const GATHER_TIMEOUT_SECS: u64 = 3;

/// The samples of a channel in a frame of 20 ms.
pub const SAMPLES_PER_CHANNEL_20MS: usize = 960;

/// Why a listener is turned away.
#[derive(Debug, PartialEq, Eq)]
pub enum MonitorError {
    /// There is no such output.
    UnknownBus,
    /// There are too many listeners.
    LimitReached,
    /// There is no such listener, or it is another one's.
    UnknownPeer,
    Internal(String),
}

/// What a `MonitorError` says.
#[verifier::ext_equal]
pub enum MonitorFault {
    UnknownBus,
    LimitReached,
    UnknownPeer,
    Internal(Seq<char>),
}

impl View for MonitorError {
    type V = MonitorFault;

    open spec fn view(&self) -> MonitorFault {
        match *self {
            MonitorError::UnknownBus => MonitorFault::UnknownBus,
            MonitorError::LimitReached => MonitorFault::LimitReached,
            MonitorError::UnknownPeer => MonitorFault::UnknownPeer,
            MonitorError::Internal(message) => MonitorFault::Internal(message@),
        }
    }
}

/// The code of a fault.
pub open spec fn fault_code(fault: MonitorFault) -> Seq<char> {
    match fault {
        MonitorFault::UnknownBus => "unknown_bus"@,
        MonitorFault::LimitReached => "monitor_limit_reached"@,
        MonitorFault::UnknownPeer => "unknown_peer"@,
        MonitorFault::Internal(_) => "monitor_internal"@,
    }
}

/// What is said of a fault.
pub open spec fn monitor_fault_text(fault: MonitorFault) -> Seq<char> {
    match fault {
        MonitorFault::UnknownBus => "请求的输出通道不存在"@,
        MonitorFault::LimitReached => "监听连接数已达上限"@,
        MonitorFault::UnknownPeer => "监听会话不存在"@,
        MonitorFault::Internal(message) => "监听内部错误: "@ + message,
    }
}

impl MonitorError {
    /// The code of the error.
    pub fn code(&self) -> (code: &'static str)
        ensures
            code@ == fault_code(self@),
    {
        match self {
            MonitorError::UnknownBus => "unknown_bus",
            MonitorError::LimitReached => "monitor_limit_reached",
            MonitorError::UnknownPeer => "unknown_peer",
            MonitorError::Internal(_) => "monitor_internal",
        }
    }

    /// What is said of the error.
    pub fn message(&self) -> (text: String)
        ensures
            text@ == monitor_fault_text(self@),
    {
        match self {
            MonitorError::UnknownBus => "请求的输出通道不存在".to_owned(),
            MonitorError::LimitReached => "监听连接数已达上限".to_owned(),
            MonitorError::UnknownPeer => "监听会话不存在".to_owned(),
            MonitorError::Internal(message) => joined("监听内部错误: ", message.as_str()),
        }
    }
}

/// How far a listener has come.
#[derive(Clone, Copy, Debug, PartialEq, Eq, Structural)]
pub enum PeerStage {
    /// It has been let in.
    Waiting,
    /// Its connection is being made.
    Negotiating,
    /// It listens.
    Connected,
}

/// A listener.
#[derive(Debug, PartialEq, Eq)]
pub struct PeerState {
    pub id: u64,
    /// The connection of the console that it belongs to.
    pub owner: u64,
    pub bus_id: String,
    pub stage: PeerStage,
}

/// What a `PeerState` says.
#[verifier::ext_equal]
pub struct PeerModel {
    pub id: u64,
    pub owner: u64,
    pub bus_id: Seq<char>,
    pub stage: PeerStage,
}

impl View for PeerState {
    type V = PeerModel;

    open spec fn view(&self) -> PeerModel {
        PeerModel { id: self.id, owner: self.owner, bus_id: self.bus_id@, stage: self.stage }
    }
}

/// The listeners of a list.
pub open spec fn peer_models(peers: Seq<PeerState>) -> Seq<PeerModel> {
    peers.map_values(|p: PeerState| p@)
}

/// Those who listen.
#[derive(Debug, PartialEq, Eq)]
pub struct MonitorService {
    peers: Vec<PeerState>,
    next_peer_id: u64,
    next_owner_id: u64,
    bitrate_bps: u32,
}

/// What a `MonitorService` says.
#[verifier::ext_equal]
pub struct MonitorModel {
    pub peers: Seq<PeerModel>,
    pub next_peer_id: u64,
    pub next_owner_id: u64,
    pub bitrate_bps: u32,
}

impl View for MonitorService {
    type V = MonitorModel;

    closed spec fn view(&self) -> MonitorModel {
        MonitorModel {
            peers: peer_models(self.peers@),
            next_peer_id: self.next_peer_id,
            next_owner_id: self.next_owner_id,
            bitrate_bps: self.bitrate_bps,
        }
    }
}

/// Whether there is a listener of an owner.
pub open spec fn has_peer(peers: Seq<PeerModel>, owner: u64, id: u64) -> bool {
    exists|i: int|
        0 <= i < peers.len() && (#[trigger] peers[i]).id == id && peers[i].owner == owner
}

/// The listener with a number.
pub open spec fn peer_at(peers: Seq<PeerModel>, id: u64) -> PeerModel {
    peers[choose|i: int| 0 <= i < peers.len() && (#[trigger] peers[i]).id == id]
}

/// The listeners with one in another stage.
pub open spec fn with_stage(peers: Seq<PeerModel>, id: u64, stage: PeerStage) -> Seq<PeerModel> {
    peers.map_values(
        |p: PeerModel|
            if p.id == id {
                PeerModel { stage, ..p }
            } else {
                p
            },
    )
}

/// The listeners without one.
pub open spec fn without_peer(peers: Seq<PeerModel>, id: u64) -> Seq<PeerModel> {
    peers.filter(|p: PeerModel| p.id != id)
}

/// The listeners without those of an owner.
pub open spec fn without_owner(peers: Seq<PeerModel>, owner: u64) -> Seq<PeerModel> {
    peers.filter(|p: PeerModel| p.owner != owner)
}

/// The numbers of some listeners.
pub open spec fn peer_ids(peers: Seq<PeerModel>) -> Seq<u64> {
    peers.map_values(|p: PeerModel| p.id)
}

/// The listeners of an owner.
pub open spec fn of_owner(peers: Seq<PeerModel>, owner: u64) -> Seq<PeerModel> {
    peers.filter(|p: PeerModel| p.owner == owner)
}

impl MonitorModel {
    /// Whether no listener occurs twice, none has a number that is still to be given, and
    /// there are not too many.
    pub open spec fn is_sound(self) -> bool {
        &&& self.peers.len() <= MAX_MONITOR_PEERS
        &&& forall|i: int|
            0 <= i < self.peers.len() ==> (#[trigger] self.peers[i]).id < self.next_peer_id
        &&& forall|i: int, j: int|
            0 <= i < j < self.peers.len() ==> (#[trigger] self.peers[i]).id != (
            #[trigger] self.peers[j]).id
    }

    /// Why a listener is not let in, if it is not: too many first, an unknown output next.
    pub open spec fn start_fault(self, bus_id: Seq<char>, taps: Seq<Seq<char>>) -> Option<
        MonitorFault,
    > {
        if self.peers.len() >= MAX_MONITOR_PEERS {
            Some(MonitorFault::LimitReached)
        } else if !taps.contains(bus_id) {
            Some(MonitorFault::UnknownBus)
        } else {
            None
        }
    }

    /// Why no connection is made, if none is.
    pub open spec fn offer_fault(self, owner: u64, id: u64) -> Option<MonitorFault> {
        if !has_peer(self.peers, owner, id) {
            Some(MonitorFault::UnknownPeer)
        } else if peer_at(self.peers, id).stage != PeerStage::Waiting {
            Some(MonitorFault::Internal("peer 已协商"@))
        } else {
            None
        }
    }
}

pub(crate) proof fn lemma_peer_at(peers: Seq<PeerModel>, at: int)
    requires
        0 <= at < peers.len(),
        forall|i: int, j: int|
            0 <= i < j < peers.len() ==> (#[trigger] peers[i]).id != (#[trigger] peers[j]).id,
    ensures
        peer_at(peers, peers[at].id) == peers[at],
{
    let id = peers[at].id;
    let i = choose|i: int| 0 <= i < peers.len() && (#[trigger] peers[i]).id == id;
    assert(peers[at].id == id);
    if i < at {
        assert(peers[i].id != peers[at].id);
    }
    if at < i {
        assert(peers[at].id != peers[i].id);
    }
}

proof fn lemma_filter_step<A>(list: Seq<A>, i: int, keep: spec_fn(A) -> bool)
    requires
        0 <= i < list.len(),
    ensures
        list.take(i + 1).filter(keep) == if keep(list[i]) {
            list.take(i).filter(keep).push(list[i])
        } else {
            list.take(i).filter(keep)
        },
{
    reveal(Seq::filter);
    assert(list.take(i + 1).drop_last() =~= list.take(i));
}

/// Whether each of some listeners stands among others, in the same order.
pub open spec fn is_part(part: Seq<PeerModel>, peers: Seq<PeerModel>) -> bool {
    &&& part.len() <= peers.len()
    &&& forall|i: int| 0 <= i < part.len() ==> peers.contains(#[trigger] part[i])
    &&& forall|i: int, j: int|
        0 <= i < j < part.len() ==> (#[trigger] part[i]).id != (#[trigger] part[j]).id
}

proof fn lemma_filtered_is_part(peers: Seq<PeerModel>, keep: spec_fn(PeerModel) -> bool)
    requires
        forall|i: int, j: int|
            0 <= i < j < peers.len() ==> (#[trigger] peers[i]).id != (#[trigger] peers[j]).id,
    ensures
        is_part(peers.filter(keep), peers),
        forall|i: int| 0 <= i < peers.filter(keep).len() ==> keep(#[trigger] peers.filter(keep)[i]),
        forall|i: int|
            0 <= i < peers.len() && keep(#[trigger] peers[i]) ==> peers.filter(keep).contains(
                peers[i],
            ),
    decreases peers.len(),
{
    reveal(Seq::filter);
    if peers.len() > 0 {
        let init = peers.drop_last();
        let last = peers.last();
        let part = init.filter(keep);
        let all = peers.filter(keep);
        lemma_filtered_is_part(init, keep);
        assert forall|i: int| 0 <= i < all.len() implies peers.contains(#[trigger] all[i])
            && keep(all[i]) by {
            if i < part.len() {
                assert(all[i] == part[i]);
                assert(init.contains(part[i]));
                let k = choose|k: int| 0 <= k < init.len() && init[k] == part[i];
                assert(peers[k] == part[i]);
            } else {
                assert(peers[peers.len() - 1] == last);
            }
        }
        assert forall|i: int, j: int| 0 <= i < j < all.len() implies (#[trigger] all[i]).id != (
        #[trigger] all[j]).id by {
            assert(all[i] == part[i]);
            if j < part.len() {
                assert(all[j] == part[j]);
            } else {
                assert(init.contains(part[i]));
                let k = choose|k: int| 0 <= k < init.len() && init[k] == part[i];
                assert(peers[k].id != peers[peers.len() - 1].id);
            }
        }
        assert forall|i: int|
            0 <= i < peers.len() && keep(#[trigger] peers[i]) implies all.contains(peers[i]) by {
            if i < init.len() {
                assert(init[i] == peers[i]);
                assert(part.contains(init[i]));
                let k = choose|k: int| 0 <= k < part.len() && part[k] == init[i];
                assert(all[k] == peers[i]);
            } else {
                assert(all[part.len() as int] == last);
            }
        }
    }
}

proof fn lemma_part_is_sound(before: MonitorModel, part: Seq<PeerModel>)
    requires
        before.is_sound(),
        is_part(part, before.peers),
    ensures
        (MonitorModel { peers: part, ..before }).is_sound(),
{
    assert forall|i: int| 0 <= i < part.len() implies (#[trigger] part[i]).id
        < before.next_peer_id by {
        assert(before.peers.contains(part[i]));
        let k = choose|k: int| 0 <= k < before.peers.len() && before.peers[k] == part[i];
        assert(before.peers[k].id < before.next_peer_id);
    }
}

impl MonitorService {
    /// Nobody listens.
    pub fn new() -> (service: Self)
        ensures
            service@ == (MonitorModel {
                peers: Seq::empty(),
                next_peer_id: 1,
                next_owner_id: 1,
                bitrate_bps: DEFAULT_OPUS_BITRATE_BPS,
            }),
            service@.is_sound(),
    {
        let service = MonitorService {
            peers: Vec::new(),
            next_peer_id: 1,
            next_owner_id: 1,
            bitrate_bps: DEFAULT_OPUS_BITRATE_BPS,
        };
        assert(service@.peers =~= Seq::empty());
        service
    }

    /// The number of a new connection of the console.
    pub fn new_owner(&mut self) -> (owner: u64)
        requires
            old(self)@.next_owner_id < u64::MAX,
        ensures
            owner == old(self)@.next_owner_id,
            final(self)@ == (MonitorModel {
                next_owner_id: (old(self)@.next_owner_id + 1) as u64,
                ..old(self)@
            }),
    {
        let owner = self.next_owner_id;
        self.next_owner_id = owner + 1;
        owner
    }

    /// The outputs that can be listened to, in order.
    pub fn available_buses(&self, taps: &Vec<String>) -> (buses: Vec<String>)
        ensures
            are_sorted(text_models(buses@)),
            text_models(buses@).to_multiset() == text_models(taps@).to_multiset(),
    {
        sorted_texts(taps)
    }

    /// Lets a listener in.
    pub fn start_peer(&mut self, owner: u64, bus_id: &str, taps: &Vec<String>) -> (result: Result<
        u64,
        MonitorError,
    >)
        requires
            old(self)@.is_sound(),
            old(self)@.next_peer_id < u64::MAX,
        ensures
            final(self)@.is_sound(),
            match result {
                Ok(id) => {
                    &&& old(self)@.start_fault(bus_id@, text_models(taps@)) is None
                    &&& id == old(self)@.next_peer_id
                    &&& final(self)@ == (MonitorModel {
                        peers: old(self)@.peers.push(
                            PeerModel { id, owner, bus_id: bus_id@, stage: PeerStage::Waiting },
                        ),
                        next_peer_id: (id + 1) as u64,
                        ..old(self)@
                    })
                },
                Err(error) => {
                    &&& old(self)@.start_fault(bus_id@, text_models(taps@)) == Some(error@)
                    &&& final(self)@ == old(self)@
                },
            },
    {
        let ghost before = self@;
        if self.peers.len() >= MAX_MONITOR_PEERS {
            return Err(MonitorError::LimitReached);
        }
        if !has_tap(taps, bus_id) {
            return Err(MonitorError::UnknownBus);
        }
        let id = self.next_peer_id;
        let peer = PeerState { id, owner, bus_id: bus_id.to_owned(), stage: PeerStage::Waiting };
        let ghost model = peer@;
        self.next_peer_id = id + 1;
        self.peers.push(peer);
        assert(self@.peers =~= before.peers.push(model));
        proof {
            assert forall|i: int| 0 <= i < self@.peers.len() implies (#[trigger] self@.peers[i]).id
                < self@.next_peer_id by {
                if i < before.peers.len() {
                    assert(self@.peers[i] == before.peers[i]);
                }
            }
            assert forall|i: int, j: int| 0 <= i < j < self@.peers.len() implies (
            #[trigger] self@.peers[i]).id != (#[trigger] self@.peers[j]).id by {
                assert(self@.peers[i] == before.peers[i]);
                if j < before.peers.len() {
                    assert(self@.peers[j] == before.peers[j]);
                }
            }
        }
        Ok(id)
    }

    fn find(&self, owner: u64, id: u64) -> (found: Option<usize>)
        requires
            self@.is_sound(),
        ensures
            match found {
                Some(at) => {
                    &&& at < self.peers@.len()
                    &&& self@.peers[at as int].id == id
                    &&& self@.peers[at as int].owner == owner
                    &&& has_peer(self@.peers, owner, id)
                    &&& peer_at(self@.peers, id) == self@.peers[at as int]
                },
                None => !has_peer(self@.peers, owner, id),
            },
    {
        for i in 0..self.peers.len()
            invariant
                self@.is_sound(),
                forall|j: int|
                    0 <= j < i ==> (#[trigger] self@.peers[j]).id != id || self@.peers[j].owner
                        != owner,
        {
            assert(self@.peers[i as int] == self.peers@[i as int]@);
            if self.peers[i].id == id && self.peers[i].owner == owner {
                proof {
                    lemma_peer_at(self@.peers, i as int);
                }
                return Some(i);
            }
        }
        None
    }

    fn set_stage(&mut self, at: usize, stage: PeerStage)
        requires
            old(self)@.is_sound(),
            at < old(self).peers@.len(),
        ensures
            final(self)@.is_sound(),
            final(self)@ == (MonitorModel {
                peers: with_stage(old(self)@.peers, old(self)@.peers[at as int].id, stage),
                ..old(self)@
            }),
    {
        let ghost before = self@;
        let peer = PeerState {
            id: self.peers[at].id,
            owner: self.peers[at].owner,
            bus_id: self.peers[at].bus_id.clone(),
            stage,
        };
        self.peers.set(at, peer);
        let ghost id = before.peers[at as int].id;
        assert(self@.peers =~= with_stage(before.peers, id, stage)) by {
            assert forall|i: int| 0 <= i < before.peers.len() && i != at implies (
            #[trigger] before.peers[i]).id != id by {
                if i < at {
                    assert(before.peers[i].id != before.peers[at as int].id);
                } else {
                    assert(before.peers[at as int].id != before.peers[i].id);
                }
            }
        }
        proof {
            assert forall|i: int, j: int| 0 <= i < j < self@.peers.len() implies (
            #[trigger] self@.peers[i]).id != (#[trigger] self@.peers[j]).id by {
                assert(before.peers[i].id != before.peers[j].id);
            }
            assert forall|i: int| 0 <= i < self@.peers.len() implies (#[trigger] self@.peers[i]).id
                < self@.next_peer_id by {
                assert(before.peers[i].id < before.next_peer_id);
            }
        }
    }

    /// Begins to connect a listener, and says at which bit rate. It is done once.
    pub fn offer_peer(&mut self, owner: u64, peer_id: u64) -> (result: Result<u32, MonitorError>)
        requires
            old(self)@.is_sound(),
        ensures
            final(self)@.is_sound(),
            match result {
                Ok(bitrate) => {
                    &&& old(self)@.offer_fault(owner, peer_id) is None
                    &&& bitrate == old(self)@.bitrate_bps
                    &&& final(self)@ == (MonitorModel {
                        peers: with_stage(old(self)@.peers, peer_id, PeerStage::Negotiating),
                        ..old(self)@
                    })
                },
                Err(error) => {
                    &&& old(self)@.offer_fault(owner, peer_id) == Some(error@)
                    &&& final(self)@ == old(self)@
                },
            },
    {
        let at = match self.find(owner, peer_id) {
            Some(at) => at,
            None => {
                return Err(MonitorError::UnknownPeer);
            },
        };
        assert(self@.peers[at as int] == self.peers@[at as int]@);
        if self.peers[at].stage != PeerStage::Waiting {
            return Err(MonitorError::Internal("peer 已协商".to_owned()));
        }
        self.set_stage(at, PeerStage::Negotiating);
        Ok(self.bitrate_bps)
    }

    /// Notes that a listener is connected. One that has gone meanwhile is not.
    pub fn peer_connected(&mut self, owner: u64, peer_id: u64) -> (result: Result<
        (),
        MonitorError,
    >)
        requires
            old(self)@.is_sound(),
        ensures
            final(self)@.is_sound(),
            match result {
                Ok(_) => {
                    &&& has_peer(old(self)@.peers, owner, peer_id)
                    &&& final(self)@ == (MonitorModel {
                        peers: with_stage(old(self)@.peers, peer_id, PeerStage::Connected),
                        ..old(self)@
                    })
                },
                Err(error) => {
                    &&& !has_peer(old(self)@.peers, owner, peer_id)
                    &&& error@ == MonitorFault::UnknownPeer
                    &&& final(self)@ == old(self)@
                },
            },
    {
        match self.find(owner, peer_id) {
            Some(at) => {
                self.set_stage(at, PeerStage::Connected);
                Ok(())
            },
            None => Err(MonitorError::UnknownPeer),
        }
    }

    /// Whether a candidate of a listener is handed on: one that comes before the
    /// connection is not.
    pub fn add_ice(&self, owner: u64, peer_id: u64) -> (result: Result<bool, MonitorError>)
        requires
            self@.is_sound(),
        ensures
            match result {
                Ok(hand_on) => has_peer(self@.peers, owner, peer_id) && hand_on == (peer_at(
                    self@.peers,
                    peer_id,
                ).stage == PeerStage::Connected),
                Err(error) => !has_peer(self@.peers, owner, peer_id) && error@
                    == MonitorFault::UnknownPeer,
            },
    {
        match self.find(owner, peer_id) {
            Some(at) => {
                assert(self@.peers[at as int] == self.peers@[at as int]@);
                Ok(self.peers[at].stage == PeerStage::Connected)
            },
            None => Err(MonitorError::UnknownPeer),
        }
    }

    /// Lets a listener go. Only its owner can.
    pub fn stop_peer(&mut self, owner: u64, peer_id: u64) -> (result: Result<(), MonitorError>)
        requires
            old(self)@.is_sound(),
        ensures
            final(self)@.is_sound(),
            match result {
                Ok(_) => {
                    &&& has_peer(old(self)@.peers, owner, peer_id)
                    &&& final(self)@ == (MonitorModel {
                        peers: without_peer(old(self)@.peers, peer_id),
                        ..old(self)@
                    })
                },
                Err(error) => {
                    &&& !has_peer(old(self)@.peers, owner, peer_id)
                    &&& error@ == MonitorFault::UnknownPeer
                    &&& final(self)@ == old(self)@
                },
            },
    {
        let ghost before = self@;
        match self.find(owner, peer_id) {
            Some(at) => {
                let _ = self.peers.remove(at);
                assert(self@.peers =~= before.peers.remove(at as int));
                proof {
                    lemma_removed_is_filtered(before.peers, at as int);
                    lemma_filtered_is_part(before.peers, |p: PeerModel| p.id != peer_id);
                    lemma_part_is_sound(before, without_peer(before.peers, peer_id));
                }
                Ok(())
            },
            None => Err(MonitorError::UnknownPeer),
        }
    }

    /// Lets the listeners of a connection go that has ended, and says which.
    pub fn close_owner(&mut self, owner: u64) -> (closed: Vec<u64>)
        requires
            old(self)@.is_sound(),
        ensures
            final(self)@.is_sound(),
            closed@ == peer_ids(of_owner(old(self)@.peers, owner)),
            final(self)@ == (MonitorModel {
                peers: without_owner(old(self)@.peers, owner),
                ..old(self)@
            }),
    {
        let ghost before = self@;
        let ghost theirs = |p: PeerModel| p.owner == owner;
        let ghost others = |p: PeerModel| p.owner != owner;
        let mut closed: Vec<u64> = Vec::new();
        let mut kept: Vec<PeerState> = Vec::new();
        assert(closed@ =~= peer_ids(before.peers.take(0).filter(theirs))) by {
            reveal(Seq::filter);
        }
        assert(peer_models(kept@) =~= before.peers.take(0).filter(others)) by {
            reveal(Seq::filter);
        }
        for i in 0..self.peers.len()
            invariant
                before == self@,
                theirs == (|p: PeerModel| p.owner == owner),
                others == (|p: PeerModel| p.owner != owner),
                closed@ == peer_ids(before.peers.take(i as int).filter(theirs)),
                peer_models(kept@) == before.peers.take(i as int).filter(others),
        {
            proof {
                lemma_filter_step(before.peers, i as int, theirs);
                lemma_filter_step(before.peers, i as int, others);
            }
            assert(before.peers[i as int] == self.peers@[i as int]@);
            if self.peers[i].owner == owner {
                let ghost so_far = before.peers.take(i as int).filter(theirs);
                closed.push(self.peers[i].id);
                assert(closed@ =~= peer_ids(so_far.push(before.peers[i as int])));
            } else {
                let ghost so_far = peer_models(kept@);
                kept.push(
                    PeerState {
                        id: self.peers[i].id,
                        owner: self.peers[i].owner,
                        bus_id: self.peers[i].bus_id.clone(),
                        stage: self.peers[i].stage,
                    },
                );
                assert(peer_models(kept@) =~= so_far.push(before.peers[i as int]));
            }
        }
        assert(before.peers.take(before.peers.len() as int) =~= before.peers);
        self.peers = kept;
        proof {
            lemma_filtered_is_part(before.peers, others);
            lemma_part_is_sound(before, without_owner(before.peers, owner));
        }
        closed
    }

    /// Lets everybody go, and says whom.
    pub fn shutdown(&mut self) -> (closed: Vec<u64>)
        requires
            old(self)@.is_sound(),
        ensures
            final(self)@.is_sound(),
            closed@ == peer_ids(old(self)@.peers),
            final(self)@ == (MonitorModel { peers: Seq::empty(), ..old(self)@ }),
    {
        let mut closed: Vec<u64> = Vec::new();
        for i in 0..self.peers.len()
            invariant
                closed@.len() == i,
                forall|j: int| 0 <= j < i ==> closed@[j] == self.peers@[j].id,
        {
            closed.push(self.peers[i].id);
        }
        assert(closed@ =~= peer_ids(self@.peers));
        self.peers = Vec::new();
        assert(self@.peers =~= Seq::empty());
        closed
    }
}

proof fn lemma_removed_is_filtered(peers: Seq<PeerModel>, at: int)
    requires
        0 <= at < peers.len(),
        forall|i: int, j: int|
            0 <= i < j < peers.len() ==> (#[trigger] peers[i]).id != (#[trigger] peers[j]).id,
    ensures
        peers.remove(at) == without_peer(peers, peers[at].id),
    decreases peers.len(),
{
    reveal(Seq::filter);
    let id = peers[at].id;
    let init = peers.drop_last();
    if at == init.len() {
        assert forall|i: int| 0 <= i < init.len() implies (#[trigger] init[i]).id != id by {
            assert(init[i] == peers[i]);
        }
        lemma_nothing_filtered(init, id);
        assert(peers.remove(at) =~= init);
    } else {
        assert(init[at] == peers[at]);
        lemma_removed_is_filtered(init, at);
        assert(peers[at].id != peers[peers.len() - 1].id);
        assert(peers.remove(at) =~= init.remove(at).push(peers.last()));
    }
}

proof fn lemma_nothing_filtered(peers: Seq<PeerModel>, id: u64)
    requires
        forall|i: int| 0 <= i < peers.len() ==> (#[trigger] peers[i]).id != id,
    ensures
        without_peer(peers, id) == peers,
    decreases peers.len(),
{
    reveal(Seq::filter);
    if peers.len() > 0 {
        let init = peers.drop_last();
        assert forall|i: int| 0 <= i < init.len() implies (#[trigger] init[i]).id != id by {
            assert(init[i] == peers[i]);
        }
        lemma_nothing_filtered(init, id);
        assert(peers[peers.len() - 1] == peers.last());
        assert(init.push(peers.last()) =~= peers);
    }
}

fn has_tap(taps: &Vec<String>, bus_id: &str) -> (found: bool)
    ensures
        found == text_models(taps@).contains(bus_id@),
{
    let wanted = bus_id.to_owned();
    for i in 0..taps.len()
        invariant
            wanted@ == bus_id@,
            forall|j: int| 0 <= j < i ==> (#[trigger] text_models(taps@)[j]) != bus_id@,
    {
        assert(text_models(taps@)[i as int] == taps@[i as int]@);
        if taps[i] == wanted {
            return true;
        }
    }
    false
}

/// Who ends a connection of the console ends its own listeners, all of them, and nobody
/// else's.
pub proof fn law_owners_are_apart(service: MonitorModel, owner: u64, other: u64, id: u64)
    requires
        service.is_sound(),
    ensures
        !has_peer(without_owner(service.peers, owner), owner, id),
        other != owner && has_peer(service.peers, other, id) ==> has_peer(
            without_owner(service.peers, owner),
            other,
            id,
        ),
{
    let keep = |p: PeerModel| p.owner != owner;
    lemma_filtered_is_part(service.peers, keep);
    let left = without_owner(service.peers, owner);
    if other != owner && has_peer(service.peers, other, id) {
        let i = choose|i: int|
            0 <= i < service.peers.len() && (#[trigger] service.peers[i]).id == id
                && service.peers[i].owner == other;
        assert(keep(service.peers[i]));
        assert(left.contains(service.peers[i]));
        let k = choose|k: int| 0 <= k < left.len() && left[k] == service.peers[i];
        assert(left[k].id == id);
    }
}

/// A listener that was let go leaves room for another one.
pub proof fn law_stopped_peer_leaves_room(
    service: MonitorModel,
    owner: u64,
    id: u64,
    bus_id: Seq<char>,
    taps: Seq<Seq<char>>,
)
    requires
        service.is_sound(),
        has_peer(service.peers, owner, id),
        taps.contains(bus_id),
    ensures
        (MonitorModel { peers: without_peer(service.peers, id), ..service }).start_fault(
            bus_id,
            taps,
        ) is None,
        !has_peer(without_peer(service.peers, id), owner, id),
{
    let at = choose|i: int|
        0 <= i < service.peers.len() && (#[trigger] service.peers[i]).id == id
            && service.peers[i].owner == owner;
    lemma_removed_is_filtered(service.peers, at);
    lemma_filtered_is_part(service.peers, |p: PeerModel| p.id != id);
}

} // verus!
