//! The machines that were found in the network.

use crate::network::addresses::Ipv4;
use crate::network::identity::{number_or, number_or_else, text_or_empty};
use crate::routing::optional_text;
use crate::text::{lemma_order_is_transitive, order_texts, text_before, TextOrder};
use crate::text_map::{
    lemma_mapped, lemma_mapped_with, mapped, value_of, with_value, without_key, TextMap,
};
use vstd::prelude::*;

verus! {

/// A machine that was found.
#[derive(Debug, PartialEq, Eq)]
pub struct NodeInfo {
    pub node_id: String,
    pub name: String,
    pub addresses: Vec<Ipv4>,
    pub port: u16,
    pub sample_rate: u32,
    pub channels: u8,
    pub caps: String,
}

/// What a `NodeInfo` says.
#[verifier::ext_equal]
pub struct NodeModel {
    pub node_id: Seq<char>,
    pub name: Seq<char>,
    pub addresses: Seq<Ipv4>,
    pub port: u16,
    pub sample_rate: u32,
    pub channels: u8,
    pub caps: Seq<char>,
}

impl View for NodeInfo {
    type V = NodeModel;

    open spec fn view(&self) -> NodeModel {
        NodeModel {
            node_id: self.node_id@,
            name: self.name@,
            addresses: self.addresses@,
            port: self.port,
            sample_rate: self.sample_rate,
            channels: self.channels,
            caps: self.caps@,
        }
    }
}

fn copy_addresses(addresses: &Vec<Ipv4>) -> (copy: Vec<Ipv4>)
    ensures
        copy@ == addresses@,
{
    let mut copy: Vec<Ipv4> = Vec::new();
    for i in 0..addresses.len()
        invariant
            copy@ == addresses@.take(i as int),
    {
        copy.push(addresses[i]);
        assert(copy@ =~= addresses@.take(i + 1));
    }
    assert(addresses@.take(addresses@.len() as int) =~= addresses@);
    copy
}

impl Clone for NodeInfo {
    fn clone(&self) -> (copy: Self)
        ensures
            copy@ == self@,
    {
        NodeInfo {
            node_id: self.node_id.clone(),
            name: self.name.clone(),
            addresses: copy_addresses(&self.addresses),
            port: self.port,
            sample_rate: self.sample_rate,
            channels: self.channels,
            caps: self.caps.clone(),
        }
    }
}

/// What happens in the network.
#[derive(Debug, PartialEq, Eq)]
pub enum NetworkEvent {
    /// A machine is there, or says something new.
    NodeResolved(NodeInfo),
    /// A machine is gone.
    NodeRemoved(String),
}

/// What a `NetworkEvent` says.
#[verifier::ext_equal]
pub enum NetworkEventModel {
    NodeResolved(NodeModel),
    NodeRemoved(Seq<char>),
}

impl View for NetworkEvent {
    type V = NetworkEventModel;

    open spec fn view(&self) -> NetworkEventModel {
        match *self {
            NetworkEvent::NodeResolved(node) => NetworkEventModel::NodeResolved(node@),
            NetworkEvent::NodeRemoved(id) => NetworkEventModel::NodeRemoved(id@),
        }
    }
}

/// A service that answered.
#[derive(Debug, PartialEq, Eq)]
pub struct ServiceRecord {
    /// The name of the service, which names it again when it goes.
    pub fullname: String,
    pub node_id: Option<String>,
    pub name: Option<String>,
    pub sample_rate: Option<String>,
    pub channels: Option<String>,
    pub caps: Option<String>,
    pub addresses: Vec<Ipv4>,
    pub port: u16,
}

/// What is heard of services.
#[derive(Debug, PartialEq, Eq)]
pub enum ServiceNotice {
    Resolved(ServiceRecord),
    Removed(String),
    /// Anything else.
    Other,
}

/// Whether an address is none.
pub open spec fn is_unspecified(address: Ipv4) -> bool {
    address.a == 0 && address.b == 0 && address.c == 0 && address.d == 0
}

/// The machine behind a service, where it says who it is. Numbers that are missing are
/// those of a plain machine.
pub open spec fn node_of(record: ServiceRecord) -> Option<NodeModel> {
    match optional_text(record.node_id) {
        None => None,
        Some(node_id) => Some(
            NodeModel {
                node_id,
                name: text_or_empty(optional_text(record.name)),
                addresses: record.addresses@.filter(|a: Ipv4| !is_unspecified(a)),
                port: record.port,
                sample_rate: number_or(
                    optional_text(record.sample_rate),
                    u32::MAX as nat,
                    48_000,
                ) as u32,
                channels: number_or(optional_text(record.channels), u8::MAX as nat, 2) as u8,
                caps: text_or_empty(optional_text(record.caps)),
            },
        ),
    }
}

fn specified_addresses(addresses: &Vec<Ipv4>) -> (kept: Vec<Ipv4>)
    ensures
        kept@ == addresses@.filter(|a: Ipv4| !is_unspecified(a)),
{
    let ghost keep = |a: Ipv4| !is_unspecified(a);
    let mut kept: Vec<Ipv4> = Vec::new();
    assert(kept@ =~= addresses@.take(0).filter(keep)) by {
        reveal(Seq::filter);
    }
    for i in 0..addresses.len()
        invariant
            keep == (|a: Ipv4| !is_unspecified(a)),
            kept@ == addresses@.take(i as int).filter(keep),
    {
        let address = addresses[i];
        proof {
            reveal(Seq::filter);
            assert(addresses@.take(i + 1).drop_last() =~= addresses@.take(i as int));
        }
        if !(address.a == 0 && address.b == 0 && address.c == 0 && address.d == 0) {
            kept.push(address);
        }
    }
    assert(addresses@.take(addresses@.len() as int) =~= addresses@);
    kept
}

fn borrowed(text: &Option<String>) -> (borrowed: Option<&str>)
    ensures
        match borrowed {
            Some(text_ref) => optional_text(*text) == Some(text_ref@),
            None => text is None,
        },
{
    match text {
        Some(text) => Some(text.as_str()),
        None => None,
    }
}

fn text_or_nothing(text: &Option<String>) -> (owned: String)
    ensures
        owned@ == text_or_empty(optional_text(*text)),
{
    match text {
        Some(text) => text.clone(),
        None => String::new(),
    }
}

/// The services that are known by name, and the machines behind them.
#[derive(Debug, PartialEq, Eq)]
pub struct NodeProjector {
    services: TextMap<String>,
}

/// The machine behind each name.
pub open spec fn service_names(entries: Seq<(Seq<char>, String)>) -> Seq<(Seq<char>, Seq<char>)> {
    mapped(entries, |text: String| text@)
}

impl View for NodeProjector {
    type V = Seq<(Seq<char>, Seq<char>)>;

    closed spec fn view(&self) -> Seq<(Seq<char>, Seq<char>)> {
        service_names(self.services@)
    }
}

/// What is known after a notice.
pub open spec fn services_after(
    services: Seq<(Seq<char>, Seq<char>)>,
    notice: ServiceNotice,
) -> Seq<(Seq<char>, Seq<char>)> {
    match notice {
        ServiceNotice::Resolved(record) => match optional_text(record.node_id) {
            Some(node_id) => with_value(services, record.fullname@, node_id),
            None => services,
        },
        ServiceNotice::Removed(fullname) => without_key(services, fullname@),
        ServiceNotice::Other => services,
    }
}

/// What a notice means for the network: a service of another kind means nothing, and so
/// does the end of one that was not known.
pub open spec fn event_of(
    services: Seq<(Seq<char>, Seq<char>)>,
    notice: ServiceNotice,
) -> Option<NetworkEventModel> {
    match notice {
        ServiceNotice::Resolved(record) => match node_of(record) {
            Some(node) => Some(NetworkEventModel::NodeResolved(node)),
            None => None,
        },
        ServiceNotice::Removed(fullname) => match value_of(services, fullname@) {
            Some(node_id) => Some(NetworkEventModel::NodeRemoved(node_id)),
            None => None,
        },
        ServiceNotice::Other => None,
    }
}

impl NodeProjector {
    /// Nothing is known.
    pub fn new() -> (projector: Self)
        ensures
            projector@ == Seq::<(Seq<char>, Seq<char>)>::empty(),
    {
        let projector = NodeProjector { services: TextMap::new() };
        assert(projector@ =~= Seq::<(Seq<char>, Seq<char>)>::empty());
        projector
    }

    /// Says what a notice means for the network.
    pub fn project(&mut self, notice: ServiceNotice) -> (event: Option<NetworkEvent>)
        ensures
            final(self)@ == services_after(old(self)@, notice),
            match event {
                Some(event) => event_of(old(self)@, notice) == Some(event@),
                None => event_of(old(self)@, notice) is None,
            },
    {
        let ghost before = self.services@;
        match notice {
            ServiceNotice::Resolved(record) => {
                let node_id = match &record.node_id {
                    Some(node_id) => node_id.clone(),
                    None => {
                        return None;
                    },
                };
                let node = NodeInfo {
                    node_id: node_id.clone(),
                    name: text_or_nothing(&record.name),
                    addresses: specified_addresses(&record.addresses),
                    port: record.port,
                    sample_rate: number_or_else(
                        borrowed(&record.sample_rate),
                        0xffff_ffff,
                        48_000,
                    ) as u32,
                    channels: number_or_else(borrowed(&record.channels), 0xff, 2) as u8,
                    caps: text_or_nothing(&record.caps),
                };
                let fullname = record.fullname.clone();
                proof {
                    lemma_mapped_with(before, |text: String| text@, record.fullname@, node_id);
                }
                self.services.insert(fullname, node_id);
                Some(NetworkEvent::NodeResolved(node))
            },
            ServiceNotice::Removed(fullname) => {
                proof {
                    lemma_mapped(before, |text: String| text@, fullname@);
                }
                match self.services.remove(&fullname) {
                    Some(node_id) => Some(NetworkEvent::NodeRemoved(node_id)),
                    None => None,
                }
            },
            ServiceNotice::Other => None,
        }
    }
}

/// The machines that are there, each once, in the order of their identifiers, and whether
/// this machine says that it is there.
#[derive(Debug, PartialEq, Eq)]
pub struct NetworkDiscovery {
    nodes: Vec<NodeInfo>,
    advertising: bool,
}

/// The machines of a list.
pub open spec fn node_models(nodes: Seq<NodeInfo>) -> Seq<NodeModel> {
    nodes.map_values(|n: NodeInfo| n@)
}

/// Whether a machine is there.
pub open spec fn has_node(nodes: Seq<NodeModel>, id: Seq<char>) -> bool {
    exists|i: int| 0 <= i < nodes.len() && (#[trigger] nodes[i]).node_id == id
}

/// Whether machines stand in order, each once.
pub open spec fn nodes_in_order(nodes: Seq<NodeModel>) -> bool {
    forall|i: int, j: int|
        0 <= i < j < nodes.len() ==> text_before(
            (#[trigger] nodes[i]).node_id,
            (#[trigger] nodes[j]).node_id,
        )
}

/// Whether `after` is `before` with the machine put in at a place, or in the place of the
/// one with the same identifier that stands there.
pub open spec fn node_added_at(
    before: Seq<NodeModel>,
    after: Seq<NodeModel>,
    node: NodeModel,
    at: int,
) -> bool {
    &&& 0 <= at <= before.len()
    &&& after == if at < before.len() && before[at].node_id == node.node_id {
        before.update(at, node)
    } else {
        before.insert(at, node)
    }
}

/// Whether `after` is `before` with the machine put in, in the place of one with the same
/// identifier.
pub open spec fn node_added(before: Seq<NodeModel>, after: Seq<NodeModel>, node: NodeModel) -> bool {
    exists|at: int| node_added_at(before, after, node, at)
}

/// Whether `after` is `before` without the machine.
pub open spec fn node_dropped(
    before: Seq<NodeModel>,
    after: Seq<NodeModel>,
    id: Seq<char>,
) -> bool {
    if has_node(before, id) {
        exists|at: int|
            0 <= at < before.len() && (#[trigger] before[at]).node_id == id && after
                == before.remove(at)
    } else {
        after == before
    }
}

impl View for NetworkDiscovery {
    type V = Seq<NodeModel>;

    closed spec fn view(&self) -> Seq<NodeModel> {
        node_models(self.nodes@)
    }
}

impl NetworkDiscovery {
    #[verifier::type_invariant]
    spec fn ordered(self) -> bool {
        nodes_in_order(node_models(self.nodes@))
    }

    /// Whether this machine says that it is there.
    pub closed spec fn advertises(self) -> bool {
        self.advertising
    }

    /// Nobody is there, and this machine is silent.
    pub fn new() -> (discovery: Self)
        ensures
            discovery@ == Seq::<NodeModel>::empty(),
            !discovery.advertises(),
    {
        let discovery = NetworkDiscovery { nodes: Vec::new(), advertising: false };
        assert(discovery@ =~= Seq::<NodeModel>::empty());
        discovery
    }

    fn place(&self, id: &String) -> (place: (usize, bool))
        ensures
            place.0 <= self@.len(),
            forall|i: int| 0 <= i < place.0 ==> text_before((#[trigger] self@[i]).node_id, id@),
            place.1 ==> place.0 < self@.len() && self@[place.0 as int].node_id == id@,
            !place.1 && place.0 < self@.len() ==> text_before(id@, self@[place.0 as int].node_id),
            place.1 == has_node(self@, id@),
    {
        proof {
            use_type_invariant(self);
        }
        let mut at: usize = 0;
        while at < self.nodes.len()
            invariant
                at <= self@.len(),
                nodes_in_order(self@),
                forall|i: int| 0 <= i < at ==> text_before((#[trigger] self@[i]).node_id, id@),
            decreases self@.len() - at,
        {
            assert(self@[at as int] == self.nodes@[at as int]@);
            match order_texts(&self.nodes[at].node_id, id) {
                TextOrder::Same => {
                    return (at, true);
                },
                TextOrder::Before => {
                    at = at + 1;
                },
                TextOrder::Behind => {
                    proof {
                        assert forall|i: int| 0 <= i < self@.len() implies (
                        #[trigger] self@[i]).node_id != id@ by {
                            if i < at {
                                lemma_before_differs(self@[i].node_id, id@);
                            } else {
                                lemma_before_differs(id@, self@[at as int].node_id);
                                if i > at {
                                    lemma_order_is_transitive(
                                        id@,
                                        self@[at as int].node_id,
                                        self@[i].node_id,
                                    );
                                    lemma_before_differs(id@, self@[i].node_id);
                                }
                            }
                        }
                    }
                    return (at, false);
                },
            }
        }
        proof {
            assert forall|i: int| 0 <= i < self@.len() implies (#[trigger] self@[i]).node_id
                != id@ by {
                lemma_before_differs(self@[i].node_id, id@);
            }
        }
        (at, false)
    }

    fn put(self, node: NodeInfo) -> (discovery: Self)
        ensures
            node_added(self@, discovery@, node@),
            nodes_in_order(discovery@),
            discovery.advertises() == self.advertises(),
    {
        let (at, known) = self.place(&node.node_id);
        proof {
            use_type_invariant(&self);
        }
        let ghost before = self@;
        let ghost model = node@;
        let advertising = self.advertising;
        let mut nodes = self.nodes;
        if known {
            nodes.set(at, node);
            assert(node_models(nodes@) =~= before.update(at as int, model));
            proof {
                lemma_updated_order(before, at as int, model);
            }
        } else {
            nodes.insert(at, node);
            assert(node_models(nodes@) =~= before.insert(at as int, model));
            proof {
                lemma_inserted_order(before, at as int, model);
            }
        }
        let discovery = NetworkDiscovery { nodes, advertising };
        proof {
            if !known && at < before.len() {
                lemma_before_differs(model.node_id, before[at as int].node_id);
            }
            assert(node_added_at(before, discovery@, model, at as int));
        }
        discovery
    }

    fn drop_node(self, id: &String) -> (discovery: Self)
        ensures
            node_dropped(self@, discovery@, id@),
            nodes_in_order(discovery@),
            discovery.advertises() == self.advertises(),
    {
        let (at, known) = self.place(id);
        proof {
            use_type_invariant(&self);
        }
        let ghost before = self@;
        if !known {
            return self;
        }
        let advertising = self.advertising;
        let mut nodes = self.nodes;
        let _ = nodes.remove(at);
        assert(node_models(nodes@) =~= before.remove(at as int));
        proof {
            lemma_removed_order(before, at as int);
        }
        let discovery = NetworkDiscovery { nodes, advertising };
        assert(before[at as int].node_id == id@);
        discovery
    }

    /// Takes an event in.
    pub fn apply(self, event: &NetworkEvent) -> (discovery: Self)
        ensures
            nodes_in_order(discovery@),
            discovery.advertises() == self.advertises(),
            match event@ {
                NetworkEventModel::NodeResolved(node) => node_added(self@, discovery@, node),
                NetworkEventModel::NodeRemoved(id) => node_dropped(self@, discovery@, id),
            },
    {
        match event {
            NetworkEvent::NodeResolved(node) => self.put(node.clone()),
            NetworkEvent::NodeRemoved(id) => self.drop_node(id),
        }
    }

    /// Says that the registration of this machine's service was tried: one that failed
    /// changes nothing, and neither does one for a service that stands already.
    pub fn start_advertiser(self, registered: bool) -> (discovery: Self)
        ensures
            discovery@ == self@,
            discovery.advertises() == (self.advertises() || registered),
    {
        proof {
            use_type_invariant(&self);
        }
        NetworkDiscovery { nodes: self.nodes, advertising: self.advertising || registered }
    }

    /// Takes this machine's service back. Doing so twice is doing so once.
    pub fn stop_advertiser(self) -> (discovery: Self)
        ensures
            discovery@ == self@,
            !discovery.advertises(),
    {
        proof {
            use_type_invariant(&self);
        }
        NetworkDiscovery { nodes: self.nodes, advertising: false }
    }

    /// Whether this machine says that it is there. A service that stands is not
    /// registered again.
    pub fn is_advertising(&self) -> (advertising: bool)
        ensures
            advertising == self.advertises(),
    {
        self.advertising
    }

    /// The machines that are there, in the order of their identifiers.
    pub fn snapshot(&self) -> (nodes: Vec<NodeInfo>)
        ensures
            node_models(nodes@) == self@,
            nodes_in_order(self@),
    {
        proof {
            use_type_invariant(self);
        }
        let mut nodes: Vec<NodeInfo> = Vec::new();
        for i in 0..self.nodes.len()
            invariant
                nodes@.len() == i,
                forall|j: int| 0 <= j < i ==> (#[trigger] nodes@[j])@ == self.nodes@[j]@,
        {
            nodes.push(self.nodes[i].clone());
        }
        assert(node_models(nodes@) =~= self@);
        nodes
    }
}

/// A text does not come before itself.
proof fn lemma_before_differs(a: Seq<char>, b: Seq<char>)
    requires
        text_before(a, b),
    ensures
        a != b,
    decreases a.len(),
{
    if a == b && a.len() > 0 {
        lemma_before_differs(a.skip(1), b.skip(1));
    }
}

proof fn lemma_updated_order(before: Seq<NodeModel>, at: int, node: NodeModel)
    requires
        nodes_in_order(before),
        0 <= at < before.len(),
        before[at].node_id == node.node_id,
    ensures
        nodes_in_order(before.update(at, node)),
{
    let after = before.update(at, node);
    assert forall|i: int, j: int| 0 <= i < j < after.len() implies text_before(
        (#[trigger] after[i]).node_id,
        (#[trigger] after[j]).node_id,
    ) by {
        assert(after[i].node_id == before[i].node_id);
        assert(after[j].node_id == before[j].node_id);
    }
}

proof fn lemma_inserted_order(before: Seq<NodeModel>, at: int, node: NodeModel)
    requires
        nodes_in_order(before),
        0 <= at <= before.len(),
        forall|i: int| 0 <= i < at ==> text_before((#[trigger] before[i]).node_id, node.node_id),
        at < before.len() ==> text_before(node.node_id, before[at].node_id),
    ensures
        nodes_in_order(before.insert(at, node)),
{
    let after = before.insert(at, node);
    assert forall|i: int, j: int| 0 <= i < j < after.len() implies text_before(
        (#[trigger] after[i]).node_id,
        (#[trigger] after[j]).node_id,
    ) by {
        if j == at {
            assert(after[i] == before[i]);
        } else if i == at {
            assert(after[j] == before[j - 1]);
            if j - 1 > at {
                assert(text_before(before[at].node_id, before[j - 1].node_id));
                lemma_order_is_transitive(
                    node.node_id,
                    before[at].node_id,
                    before[j - 1].node_id,
                );
            }
        } else {
            let a = if i < at {
                i
            } else {
                i - 1
            };
            let b = if j < at {
                j
            } else {
                j - 1
            };
            assert(after[i] == before[a]);
            assert(after[j] == before[b]);
        }
    }
}

proof fn lemma_removed_order(before: Seq<NodeModel>, at: int)
    requires
        nodes_in_order(before),
        0 <= at < before.len(),
    ensures
        nodes_in_order(before.remove(at)),
{
    let after = before.remove(at);
    assert forall|i: int, j: int| 0 <= i < j < after.len() implies text_before(
        (#[trigger] after[i]).node_id,
        (#[trigger] after[j]).node_id,
    ) by {
        let a = if i < at {
            i
        } else {
            i + 1
        };
        let b = if j < at {
            j
        } else {
            j + 1
        };
        assert(after[i] == before[a]);
        assert(after[j] == before[b]);
    }
}

/// A machine that has gone is not in the list any more; one that came is.
pub proof fn law_directory_follows_events(
    before: Seq<NodeModel>,
    after: Seq<NodeModel>,
    node: NodeModel,
)
    requires
        nodes_in_order(before),
    ensures
        node_added(before, after, node) ==> after.contains(node),
        node_dropped(before, after, node.node_id) ==> !has_node(after, node.node_id),
{
    if node_added(before, after, node) {
        let at = choose|at: int| node_added_at(before, after, node, at);
        assert(after[at] == node);
    }
    if node_dropped(before, after, node.node_id) && has_node(before, node.node_id) {
        let at = choose|at: int|
            0 <= at < before.len() && (#[trigger] before[at]).node_id == node.node_id && after
                == before.remove(at);
        assert forall|i: int| 0 <= i < after.len() implies (#[trigger] after[i]).node_id
            != node.node_id by {
            if i < at {
                assert(after[i] == before[i]);
                lemma_before_differs(before[i].node_id, before[at].node_id);
            } else {
                assert(after[i] == before[i + 1]);
                lemma_before_differs(before[at].node_id, before[i + 1].node_id);
            }
        }
    }
}

} // verus!
