//! Nodes and bundles.

use vstd::prelude::*;
use vstd::utf8::encode_utf8;

use crate::ident::{is_name_based_id, is_random_id, namespace_dns, new_v4, new_v5, sha1_id, Id, NAMESPACE_DNS};
use crate::routing::engine::RoutingEngine;
use crate::time::{elapsed_seconds, is_clock_reading, utc_now, Timestamp};

verus! {

/// A node of the network.
#[derive(Debug)]
pub struct Node {
    pub id: Id,
    pub name: String,
    /// The address that the node listens on.
    pub address: String,
    /// The port that the node listens on.
    pub port: u16,
    /// The identifiers of the peers that the node knows.
    pub peers: Vec<Id>,
    /// The engine of a node that runs here. It never travels with the node.
    pub routing_engine: Option<Box<RoutingEngine>>,
}

/// What a node is to the rest of the network: everything but its engine.
#[verifier::ext_equal]
pub struct NodeView {
    pub id: Id,
    pub name: Seq<char>,
    pub address: Seq<char>,
    pub port: u16,
    pub peers: Seq<Id>,
}

impl View for Node {
    type V = NodeView;

    open spec fn view(&self) -> NodeView {
        NodeView {
            id: self.id,
            name: self.name@,
            address: self.address@,
            port: self.port,
            peers: self.peers@,
        }
    }
}

/// The identifier of the node with a given name.
pub open spec fn node_id_of(name: Seq<char>) -> Id {
    sha1_id(NAMESPACE_DNS, encode_utf8(name))
}

/// The node that a name, an endpoint and a list of peers make.
pub open spec fn named_node(
    name: Seq<char>,
    address: Seq<char>,
    port: u16,
    peers: Seq<Id>,
) -> NodeView {
    NodeView { id: node_id_of(name), name, address, port, peers }
}

/// A copy of a list of identifiers.
pub(crate) fn copy_ids(ids: &Vec<Id>) -> (copy: Vec<Id>)
    ensures
        copy@ == ids@,
{
    let copy: Vec<Id> = ids.clone();
    assert(copy@ =~= ids@);
    copy
}

impl Node {
    /// A node with an engine of its own. Its identifier is derived from its name
    /// alone, so that separate processes agree on who a peer is.
    pub fn new(name: &str, address: &str, port: u16, peers: Vec<Id>) -> (node: Self)
        ensures
            node@ == named_node(name@, address@, port, peers@),
            is_name_based_id(node.id),
            node.routing_engine matches Some(engine)
                && engine.is_fresh(node.id, peers@, name@),
    {
        let id: Id = new_v5(namespace_dns(), name.as_bytes());
        Self::assemble(id, name, address, port, peers)
    }

    /// A node with the given identifier and an engine of its own.
    pub fn assemble(id: Id, name: &str, address: &str, port: u16, peers: Vec<Id>) -> (node: Self)
        ensures
            node@ == (NodeView { id, name: name@, address: address@, port, peers: peers@ }),
            node.routing_engine matches Some(engine) && engine.is_fresh(id, peers@, name@),
    {
        let engine = RoutingEngine::new(id, copy_ids(&peers), name.to_owned());
        Node {
            id,
            name: name.to_owned(),
            address: address.to_owned(),
            port,
            peers,
            routing_engine: Some(Box::new(engine)),
        }
    }

    /// The node without its engine.
    pub open spec fn is_detached(&self) -> bool {
        self.routing_engine is None
    }

    /// A copy of the node as it travels: without its engine.
    pub fn detached(&self) -> (copy: Node)
        ensures
            copy@ == self@,
            copy.is_detached(),
    {
        Node {
            id: self.id,
            name: self.name.clone(),
            address: self.address.clone(),
            port: self.port,
            peers: copy_ids(&self.peers),
            routing_engine: None,
        }
    }
}

/// Where a bundle stands in its life.
#[derive(Clone, Copy, Debug, PartialEq, Eq, Structural)]
pub enum MsgStatus {
    /// The bundle exists and was not sent yet.
    Pending,
    /// The bundle is on its way.
    InTransit,
    /// The bundle has reached its destination. A data bundle for which an
    /// acknowledgement comes in is delivered, and leaves the storage. An
    /// acknowledgement is delivered when it reaches the sender of the data.
    Delivered,
    /// The bundle outlived its time to live.
    Expired,
}

/// What a bundle carries, or what two peers say to each other.
#[derive(Debug)]
pub enum BundleKind {
    /// A message.
    Data { msg: String },
    /// The word that a bundle was delivered.
    Ack { ack_bundle_id: Id },
    /// A peer's request for the summary vector.
    RequestSV { from: Id },
    /// The answer: the identifiers of the bundles that a peer holds.
    SummaryVector { ids: Vec<Id> },
}

/// The contents of a `BundleKind`.
#[verifier::ext_equal]
pub enum BundleKindView {
    Data { msg: Seq<char> },
    Ack { ack_bundle_id: Id },
    RequestSV { from: Id },
    SummaryVector { ids: Seq<Id> },
}

impl View for BundleKind {
    type V = BundleKindView;

    open spec fn view(&self) -> BundleKindView {
        match self {
            BundleKind::Data { msg } => BundleKindView::Data { msg: msg@ },
            BundleKind::Ack { ack_bundle_id } => BundleKindView::Ack {
                ack_bundle_id: *ack_bundle_id,
            },
            BundleKind::RequestSV { from } => BundleKindView::RequestSV { from: *from },
            BundleKind::SummaryVector { ids } => BundleKindView::SummaryVector { ids: ids@ },
        }
    }
}

impl BundleKind {
    /// A copy.
    pub fn duplicate(&self) -> (copy: BundleKind)
        ensures
            copy@ == self@,
    {
        match self {
            BundleKind::Data { msg } => BundleKind::Data { msg: msg.clone() },
            BundleKind::Ack { ack_bundle_id } => BundleKind::Ack { ack_bundle_id: *ack_bundle_id },
            BundleKind::RequestSV { from } => BundleKind::RequestSV { from: *from },
            BundleKind::SummaryVector { ids } => BundleKind::SummaryVector { ids: copy_ids(ids) },
        }
    }
}

/// A bundle: what the network stores, carries and forwards.
#[derive(Debug)]
pub struct Bundle {
    pub id: Id,
    pub source: Node,
    pub destination: Node,
    /// When the bundle was made.
    pub timestamp: Timestamp,
    /// The seconds after which the bundle is expired.
    pub ttl: u64,
    pub kind: BundleKind,
    pub shipment_status: MsgStatus,
}

/// A bundle as it travels and as it is stored.
#[verifier::ext_equal]
pub struct BundleView {
    pub id: Id,
    pub source: NodeView,
    pub destination: NodeView,
    pub timestamp: Timestamp,
    pub ttl: u64,
    pub kind: BundleKindView,
    pub shipment_status: MsgStatus,
}

impl View for Bundle {
    type V = BundleView;

    open spec fn view(&self) -> BundleView {
        BundleView {
            id: self.id,
            source: self.source@,
            destination: self.destination@,
            timestamp: self.timestamp,
            ttl: self.ttl,
            kind: self.kind@,
            shipment_status: self.shipment_status,
        }
    }
}

/// The contents of a sequence of bundles.
pub open spec fn bundle_views(bundles: Seq<Bundle>) -> Seq<BundleView> {
    bundles.map_values(|bundle: Bundle| bundle@)
}

impl BundleView {
    /// Whether the bundle is expired at a moment: it is older, in whole seconds,
    /// than its time to live.
    pub open spec fn expired_at(self, now: Timestamp) -> bool {
        elapsed_seconds(now, self.timestamp) > self.ttl
    }

    /// The bundle with another status.
    pub open spec fn with_status(self, status: MsgStatus) -> BundleView {
        BundleView { shipment_status: status, ..self }
    }
}

/// The bundle that two nodes, a content and a time to live make at a moment,
/// under a given identifier.
pub open spec fn fresh_bundle(
    id: Id,
    timestamp: Timestamp,
    source: NodeView,
    destination: NodeView,
    kind: BundleKindView,
    ttl: u64,
) -> BundleView {
    BundleView {
        id,
        source,
        destination,
        timestamp,
        ttl,
        kind,
        shipment_status: MsgStatus::Pending,
    }
}

impl Bundle {
    /// A new bundle, pending, with a random identifier and the present time. The
    /// two nodes leave their engines behind.
    pub fn new(source: Node, destination: Node, kind: BundleKind, ttl: u64) -> (bundle: Self)
        ensures
            bundle@ == fresh_bundle(
                bundle.id,
                bundle.timestamp,
                source@,
                destination@,
                kind@,
                ttl,
            ),
            is_random_id(bundle.id),
            is_clock_reading(bundle.timestamp),
            bundle.is_detached(),
    {
        let id: Id = new_v4();
        Self::assemble(id, utc_now(), source, destination, kind, ttl)
    }

    /// A new bundle, pending, with the given identifier and time.
    pub fn assemble(
        id: Id,
        timestamp: Timestamp,
        source: Node,
        destination: Node,
        kind: BundleKind,
        ttl: u64,
    ) -> (bundle: Self)
        ensures
            bundle@ == fresh_bundle(id, timestamp, source@, destination@, kind@, ttl),
            bundle.is_detached(),
    {
        let mut source = source;
        source.routing_engine = None;
        let mut destination = destination;
        destination.routing_engine = None;
        Bundle {
            id,
            source,
            destination,
            timestamp,
            ttl,
            kind,
            shipment_status: MsgStatus::Pending,
        }
    }

    /// Neither node of the bundle carries an engine.
    pub open spec fn is_detached(&self) -> bool {
        self.source.is_detached() && self.destination.is_detached()
    }

    /// Nothing but the status sets the two bundles apart.
    pub open spec fn differs_in_status(&self, other: &Bundle) -> bool {
        *self == (Bundle { shipment_status: self.shipment_status, ..*other })
    }

    /// A copy of the bundle as it travels: its nodes without their engines.
    pub fn detached(&self) -> (copy: Bundle)
        ensures
            copy@ == self@,
            copy.is_detached(),
    {
        Bundle {
            id: self.id,
            source: self.source.detached(),
            destination: self.destination.detached(),
            timestamp: self.timestamp,
            ttl: self.ttl,
            kind: self.kind.duplicate(),
            shipment_status: self.shipment_status,
        }
    }

    /// Whether the bundle is expired now.
    pub fn is_expired(&self) -> (expired: bool)
        ensures
            exists|now: Timestamp|
                is_clock_reading(now) && expired == #[trigger] self@.expired_at(now),
    {
        let now = utc_now();
        self.is_expired_at(now)
    }

    /// Whether the bundle is expired at a given moment.
    pub fn is_expired_at(&self, now: Timestamp) -> (expired: bool)
        ensures
            expired == self@.expired_at(now),
    {
        let age: i64 = now.seconds_since(self.timestamp);
        age >= 0 && age as u64 > self.ttl
    }
}

} // verus!
