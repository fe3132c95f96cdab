//! The routing engine of a node: what becomes of a bundle that comes in, and
//! which bundles go out to which peers.

use vstd::prelude::*;

use crate::ident::{contains_id, Id};
use crate::network::client::{
    default_registry_addr, default_registry_text, ids_of, peers_request, SummaryError,
};
use crate::network::server::{record_views, PeerRecord, PeerRecordView, Server, ServerRequest, ServerResponse};
use crate::routing::bundle_manager::{after_ack, received_ack, BundleManager};
use crate::routing::model::{bundle_views, Bundle, BundleKind, BundleView, MsgStatus};
use crate::routing::storage::{deleted, holds_id, put, saved, saved_is_held, updated};
use crate::text::{endpoint, endpoint_text};
use crate::time::{is_clock_reading, utc_now, Timestamp};

verus! {

/// What a running node routes bundles with.
#[derive(Debug)]
pub struct RoutingEngine {
    pub node_id: Id,
    pub peers: Vec<Id>,
    pub server: Server,
    pub bundle_manager: BundleManager,
    /// Where the registry is asked for connected nodes.
    pub registry_addr: String,
}

/// How far a bundle that is routed has got in a forwarding pass.
#[derive(Clone, Copy, Debug, PartialEq, Eq, Structural)]
pub enum Reach {
    /// No node was offered the bundle.
    Unoffered,
    /// Nodes that lacked the bundle were offered it, but it was written to none.
    Missed,
    /// The bundle was written to a node.
    Reached,
}

/// How far the routing of a bundle has come at a node.
#[derive(Debug)]
pub enum RouteState {
    /// Nothing is left to be done.
    Finished,
    /// The registry is asked for the connected nodes; the acknowledgement goes to
    /// each of them.
    FloodAck,
    /// The registry is asked for the connected nodes; each of them is to get what
    /// it lacks of the pending bundles.
    Forward { pending: Vec<Bundle> },
    /// The connected nodes are asked one after the other what they hold.
    Pass(ForwardPass),
    /// Bundles with these identifiers go out to the node that was asked last; it is
    /// to be said which of them were written.
    Sending { pass: ForwardPass, offered: Vec<Id> },
}

/// The contents of a `RouteState`.
#[verifier::ext_equal]
pub enum RouteStateView {
    Finished,
    FloodAck,
    Forward { pending: Seq<BundleView> },
    Pass { pending: Seq<BundleView>, peers: Seq<PeerRecordView>, served: nat, reach: Reach },
    Sending {
        pending: Seq<BundleView>,
        peers: Seq<PeerRecordView>,
        served: nat,
        reach: Reach,
        offered: Seq<Id>,
    },
}

impl View for RouteState {
    type V = RouteStateView;

    open spec fn view(&self) -> RouteStateView {
        match self {
            RouteState::Finished => RouteStateView::Finished,
            RouteState::FloodAck => RouteStateView::FloodAck,
            RouteState::Forward { pending } => RouteStateView::Forward {
                pending: bundle_views(pending@),
            },
            RouteState::Pass(pass) => RouteStateView::Pass {
                pending: pass.pending(),
                peers: pass.peers(),
                served: pass.served(),
                reach: pass.reach(),
            },
            RouteState::Sending { pass, offered } => RouteStateView::Sending {
                pending: pass.pending(),
                peers: pass.peers(),
                served: pass.served(),
                reach: pass.reach(),
                offered: offered@,
            },
        }
    }
}

/// What is to be asked before the routing of a bundle can go on.
#[derive(Debug)]
pub enum RouteQuestion {
    /// Nothing: the routing has ended.
    Nothing,
    /// The registry, for the connected nodes.
    Registry,
    /// The node at an endpoint, for its summary vector.
    Summary { destination: String },
    /// Whoever sends, which of the transfers that were handed out last were written.
    Transfers,
}

/// What came of asking.
#[derive(Debug)]
pub enum RouteEvent {
    /// What the registry said; `None` if it could not be reached or understood.
    Registry(Option<ServerResponse>),
    /// What the node said.
    Summary(Result<Vec<Id>, SummaryError>),
    /// For each transfer that was handed out last, in their order, whether it was
    /// written to the node.
    Sent(Vec<bool>),
}

/// What a `RouteEvent` tells a node.
#[verifier::ext_equal]
pub enum RouteEventView {
    Registry(Seq<PeerRecordView>),
    Summary(Seq<Id>),
    Sent(Seq<bool>),
}

impl View for RouteEvent {
    type V = RouteEventView;

    open spec fn view(&self) -> RouteEventView {
        match self {
            RouteEvent::Registry(reply) => RouteEventView::Registry(known_peers(*reply)),
            RouteEvent::Summary(reply) => RouteEventView::Summary(known_summary(*reply)),
            RouteEvent::Sent(written) => RouteEventView::Sent(written@),
        }
    }
}

/// A bundle to be sent.
#[derive(Debug)]
pub struct Transfer {
    /// The node in whose name the bundle is sent.
    pub source_id: Id,
    pub bundle: Bundle,
    /// The endpoint that the bundle goes to.
    pub destination: String,
}

/// The contents of a `Transfer`.
#[verifier::ext_equal]
pub struct TransferView {
    pub source_id: Id,
    pub bundle: BundleView,
    pub destination: Seq<char>,
}

impl View for Transfer {
    type V = TransferView;

    open spec fn view(&self) -> TransferView {
        TransferView {
            source_id: self.source_id,
            bundle: self.bundle@,
            destination: self.destination@,
        }
    }
}

/// The contents of a list of transfers.
pub open spec fn transfer_views(transfers: Seq<Transfer>) -> Seq<TransferView> {
    transfers.map_values(|transfer: Transfer| transfer@)
}

/// The endpoint of a registered node.
pub open spec fn peer_endpoint(peer: PeerRecordView) -> Seq<char> {
    endpoint_text(peer.node.address, peer.node.port)
}

/// The bundles that a peer lacks, by its summary vector.
pub open spec fn missing_on_peer(local: Seq<BundleView>, peer_sv: Seq<Id>) -> Seq<BundleView> {
    local.filter(|bundle: BundleView| !peer_sv.contains(bundle.id))
}

/// The bundles that were not sent yet.
pub open spec fn pending_bundles(held: Seq<BundleView>) -> Seq<BundleView> {
    held.filter(|bundle: BundleView| bundle.shipment_status == MsgStatus::Pending)
}

/// The transfers that bring a peer the pending bundles it lacks.
pub open spec fn transfers_to_peer(
    node_id: Id,
    pending: Seq<BundleView>,
    peer: PeerRecordView,
    peer_sv: Seq<Id>,
) -> Seq<TransferView> {
    missing_on_peer(pending, peer_sv).map_values(
        |bundle: BundleView|
            TransferView { source_id: node_id, bundle, destination: peer_endpoint(peer) },
    )
}

/// The transfers that bring an acknowledgement to every connected node.
pub open spec fn ack_transfers(ack: BundleView, peers: Seq<PeerRecordView>) -> Seq<TransferView> {
    peers.map_values(
        |peer: PeerRecordView|
            TransferView { source_id: peer.node.id, bundle: ack, destination: peer_endpoint(peer) },
    )
}

/// The transfers of a forwarding pass in which the first of the peers have given
/// their summary vectors.
pub open spec fn pass_transfers(
    node_id: Id,
    pending: Seq<BundleView>,
    peers: Seq<PeerRecordView>,
    summaries: Seq<Seq<Id>>,
) -> Seq<TransferView>
    decreases summaries.len(),
{
    if summaries.len() == 0 {
        Seq::empty()
    } else {
        pass_transfers(node_id, pending, peers, summaries.drop_last()) + transfers_to_peer(
            node_id,
            pending,
            peers[summaries.len() - 1],
            summaries.last(),
        )
    }
}

/// What a peer is taken to hold: what it said, or nothing if it could not be asked.
pub open spec fn known_summary(reply: Result<Vec<Id>, SummaryError>) -> Seq<Id> {
    match reply {
        Ok(ids) => ids@,
        Err(_) => Seq::empty(),
    }
}

/// The connected nodes that the registry named, or none if it did not.
pub open spec fn known_peers(reply: Option<ServerResponse>) -> Seq<PeerRecordView> {
    match reply {
        Some(ServerResponse::Peers(records)) => record_views(records@),
        _ => Seq::empty(),
    }
}

/// What a node holds, how a bundle stands, and what is left to be done, once the
/// node has taken the bundle in.
#[verifier::ext_equal]
pub struct Routed {
    pub held: Seq<BundleView>,
    pub bundle: BundleView,
    pub next: RouteStateView,
}

/// The routing of a bundle at a node.
///
/// The bundle is stored first. An acknowledgement that comes back to the node
/// that made it is deleted; any other clears the bundle that it names and goes
/// on to everybody. A bundle for this node is delivered here. One that is
/// expired goes no further. All else is forwarded.
pub open spec fn routed(
    node_id: Id,
    held: Seq<BundleView>,
    bundle: BundleView,
    now: Timestamp,
) -> Routed {
    let stored = saved(held, bundle);
    if bundle.kind is Ack {
        if bundle.source.id == node_id {
            Routed { held: deleted(stored, bundle.id), bundle, next: RouteStateView::Finished }
        } else {
            Routed {
                held: after_ack(stored, bundle, node_id),
                bundle: received_ack(bundle, node_id),
                next: RouteStateView::FloodAck,
            }
        }
    } else if bundle.destination.id == node_id {
        let delivered = bundle.with_status(MsgStatus::Delivered);
        Routed {
            held: updated(stored, delivered),
            bundle: delivered,
            next: RouteStateView::Finished,
        }
    } else if bundle.expired_at(now) {
        let expired = bundle.with_status(MsgStatus::Expired);
        Routed { held: updated(stored, expired), bundle: expired, next: RouteStateView::Finished }
    } else {
        Routed {
            held: stored,
            bundle,
            next: RouteStateView::Forward { pending: pending_bundles(stored) },
        }
    }
}

/// Whether a bundle with a given identifier was offered and written. A bundle of
/// which nothing is said was not written.
pub open spec fn some_written(offered: Seq<Id>, written: Seq<bool>, id: Id) -> bool {
    exists|i: int|
        0 <= i < offered.len() && i < written.len() && #[trigger] offered[i] == id && written[i]
}

/// How far a bundle has got once a node was offered some bundles, and some of these
/// were written.
pub open spec fn reach_next(reach: Reach, offered: Seq<Id>, written: Seq<bool>, id: Id) -> Reach {
    if reach == Reach::Reached || some_written(offered, written, id) {
        Reach::Reached
    } else if offered.contains(id) {
        Reach::Missed
    } else {
        reach
    }
}

/// Whether a bundle is left pending by a forwarding pass, so that a later one takes
/// it up again: nodes lacked it and it was written to none of them, or it was
/// waiting and there was no node at all.
pub open spec fn left_pending(
    pending: Seq<BundleView>,
    peers: Seq<PeerRecordView>,
    reach: Reach,
    id: Id,
) -> bool {
    reach == Reach::Missed || (peers.len() == 0 && holds_id(pending, id))
}

/// A bundle at the end of a forwarding pass: in transit, unless it is left pending.
pub open spec fn after_pass(bundle: BundleView, left: bool) -> BundleView {
    bundle.with_status(
        if left {
            MsgStatus::Pending
        } else {
            MsgStatus::InTransit
        },
    )
}

/// The start of a forwarding pass, or its continuation after some nodes were
/// served. Once all were served, the bundle is held as it then stands, and the
/// routing has ended.
pub open spec fn pass_from(
    held: Seq<BundleView>,
    bundle: BundleView,
    pending: Seq<BundleView>,
    peers: Seq<PeerRecordView>,
    served: nat,
    reach: Reach,
) -> Routed {
    if served < peers.len() {
        Routed { held, bundle, next: RouteStateView::Pass { pending, peers, served, reach } }
    } else {
        let ended = after_pass(bundle, left_pending(pending, peers, reach, bundle.id));
        Routed { held: updated(held, ended), bundle: ended, next: RouteStateView::Finished }
    }
}

/// How the routing of a bundle goes on when an answer comes in. An answer to
/// what was not asked changes nothing.
pub open spec fn route_next(at: Routed, event: RouteEventView) -> Routed {
    match (at.next, event) {
        (RouteStateView::FloodAck, RouteEventView::Registry(_)) => Routed {
            next: RouteStateView::Finished,
            ..at
        },
        (RouteStateView::Forward { pending }, RouteEventView::Registry(peers)) => pass_from(
            at.held,
            at.bundle,
            pending,
            peers,
            0,
            Reach::Unoffered,
        ),
        (
            RouteStateView::Pass { pending, peers, served, reach },
            RouteEventView::Summary(peer_sv),
        ) => Routed {
            next: RouteStateView::Sending {
                pending,
                peers,
                served,
                reach,
                offered: ids_of(missing_on_peer(pending, peer_sv)),
            },
            ..at
        },
        (
            RouteStateView::Sending { pending, peers, served, reach, offered },
            RouteEventView::Sent(written),
        ) => pass_from(
            at.held,
            at.bundle,
            pending,
            peers,
            served + 1,
            reach_next(reach, offered, written, at.bundle.id),
        ),
        _ => at,
    }
}

/// What is to be sent when an answer comes in.
pub open spec fn route_transfers(node_id: Id, at: Routed, event: RouteEventView) -> Seq<
    TransferView,
> {
    match (at.next, event) {
        (RouteStateView::FloodAck, RouteEventView::Registry(peers)) => ack_transfers(
            at.bundle,
            peers,
        ),
        (
            RouteStateView::Pass { pending, peers, served, .. },
            RouteEventView::Summary(peer_sv),
        ) => transfers_to_peer(node_id, pending, peers[served as int], peer_sv),
        _ => Seq::empty(),
    }
}

/// A bundle as it stands after it was received at a node: expired, delivered, or
/// in transit at a relay.
pub open spec fn received(node_id: Id, bundle: BundleView, now: Timestamp) -> BundleView {
    if bundle.expired_at(now) {
        bundle.with_status(MsgStatus::Expired)
    } else if node_id == bundle.destination.id {
        bundle.with_status(MsgStatus::Delivered)
    } else {
        bundle.with_status(MsgStatus::InTransit)
    }
}

/// What a node holds after it received a bundle: an expired one is discarded, any
/// other is held as received.
pub open spec fn held_after_receipt(
    node_id: Id,
    held: Seq<BundleView>,
    bundle: BundleView,
    now: Timestamp,
) -> Seq<BundleView> {
    if bundle.expired_at(now) {
        held
    } else {
        put(held, received(node_id, bundle, now))
    }
}

/// Filtering bundles by what they contain is filtering their contents.
proof fn filter_of_views(
    bundles: Seq<Bundle>,
    keep: spec_fn(Bundle) -> bool,
    keep_view: spec_fn(BundleView) -> bool,
)
    requires
        forall|bundle: Bundle| #[trigger] keep(bundle) == keep_view(bundle@),
    ensures
        bundle_views(bundles.filter(keep)) == bundle_views(bundles).filter(keep_view),
    decreases bundles.len(),
{
    reveal(Seq::filter);
    if bundles.len() > 0 {
        filter_of_views(bundles.drop_last(), keep, keep_view);
        assert(bundle_views(bundles).drop_last() =~= bundle_views(bundles.drop_last()));
        assert(keep(bundles.last()) == keep_view(bundles.last()@));
        assert(bundle_views(bundles.filter(keep)) =~= bundle_views(bundles).filter(keep_view));
    } else {
        assert(bundle_views(bundles.filter(keep)) =~= bundle_views(bundles).filter(keep_view));
    }
}

impl RoutingEngine {
    /// An engine that has done nothing yet.
    pub open spec fn is_fresh(&self, node_id: Id, peers: Seq<Id>, name: Seq<char>) -> bool {
        &&& self.wf()
        &&& self.node_id == node_id
        &&& self.peers@ == peers
        &&& self.server@ == Seq::<PeerRecordView>::empty()
        &&& self.bundle_manager.name@ == name
        &&& self.bundle_manager@ == Seq::<BundleView>::empty()
        &&& self.registry_addr@ == default_registry_text()
    }

    /// The parts are as they should be, and the bundles are those of the node.
    pub open spec fn wf(&self) -> bool {
        &&& self.server.wf()
        &&& self.bundle_manager.wf()
        &&& self.bundle_manager.node_id == self.node_id
    }

    /// The two engines differ at most in the bundles they hold.
    pub open spec fn differs_in_bundles(&self, other: &RoutingEngine) -> bool {
        &&& self.node_id == other.node_id
        &&& self.peers == other.peers
        &&& self.server == other.server
        &&& self.registry_addr == other.registry_addr
        &&& self.bundle_manager.same_node(&other.bundle_manager)
    }

    /// The engine of a node that holds nothing yet.
    pub fn new(node_id: Id, peers: Vec<Id>, name: String) -> (engine: Self)
        ensures
            engine.is_fresh(node_id, peers@, name@),
    {
        RoutingEngine {
            node_id,
            peers,
            server: Server::new(),
            bundle_manager: BundleManager::new(node_id, name),
            registry_addr: default_registry_addr().to_owned(),
        }
    }

    /// The bundles that a manager holds.
    pub fn get_summary_vector(&self, bundle_manager: &BundleManager) -> (bundles: Vec<Bundle>)
        requires
            bundle_manager.wf(),
        ensures
            bundle_views(bundles@) == bundle_manager@,
            forall|i: int| 0 <= i < bundles@.len() ==> (#[trigger] bundles@[i]).is_detached(),
    {
        bundle_manager.get_bundles_from_node()
    }

    /// The local bundles that a peer lacks, by its summary vector, in their order.
    pub fn anti_entropy<'a>(&self, local_sv: &'a [Bundle], peer_sv: &[Id]) -> (missing: Vec<
        &'a Bundle,
    >)
        ensures
            missing@.unref() == local_sv@.filter(|bundle: Bundle| !peer_sv@.contains(bundle.id)),
            bundle_views(missing@.unref()) == missing_on_peer(bundle_views(local_sv@), peer_sv@),
    {
        let ghost keep = |bundle: Bundle| !peer_sv@.contains(bundle.id);
        let mut missing: Vec<&'a Bundle> = Vec::new();
        let mut i: usize = 0;
        proof {
            reveal(Seq::filter);
            assert(missing@.unref() =~= local_sv@.take(0).filter(keep));
        }
        while i < local_sv.len()
            invariant
                i <= local_sv@.len(),
                keep == (|bundle: Bundle| !peer_sv@.contains(bundle.id)),
                missing@.unref() == local_sv@.take(i as int).filter(keep),
            decreases local_sv@.len() - i,
        {
            let bundle = &local_sv[i];
            let ghost before = missing@;
            proof {
                reveal(Seq::filter);
                assert(local_sv@.take(i + 1).drop_last() =~= local_sv@.take(i as int));
                assert(local_sv@.take(i + 1).last() == *bundle);
            }
            if !contains_id(peer_sv, bundle.id) {
                missing.push(bundle);
                assert(missing@.unref() =~= before.unref().push(*bundle));
            }
            i += 1;
        }
        proof {
            assert(local_sv@.take(i as int) =~= local_sv@);
            filter_of_views(
                local_sv@,
                keep,
                |bundle: BundleView| !peer_sv@.contains(bundle.id),
            );
        }
        missing
    }

    /// What a peer is taken to hold, given what came of asking it.
    pub fn get_peer_summary_vector(&self, reply: Result<Vec<Id>, SummaryError>) -> (ids: Vec<Id>)
        ensures
            ids@ == known_summary(reply),
    {
        match reply {
            Ok(ids) => ids,
            Err(_) => Vec::new(),
        }
    }

    /// The question by which the registry is asked for every connected node.
    pub fn registry_question(&self) -> (request: ServerRequest)
        ensures
            request matches ServerRequest::GetConnectedPeers(ids) && ids@.len() == 0,
    {
        peers_request(Vec::new())
    }

    /// The connected nodes, given what came of asking the registry; `None` stands
    /// for a registry that could not be reached or understood.
    pub fn query_registry_peers(&self, reply: Option<ServerResponse>) -> (peers: Vec<PeerRecord>)
        ensures
            record_views(peers@) == known_peers(reply),
            reply matches Some(ServerResponse::Peers(records)) ==> peers == records,
    {
        match reply {
            Some(ServerResponse::Peers(peers)) => peers,
            _ => {
                let none: Vec<PeerRecord> = Vec::new();
                assert(record_views(none@) =~= Seq::<PeerRecordView>::empty());
                none
            },
        }
    }

    /// Takes in a bundle that reached a node, at the present time.
    pub fn process_received_bundle(
        node_id: Id,
        bundle: &mut Bundle,
        bundle_manager: &mut BundleManager,
    )
        requires
            old(bundle_manager).wf(),
        ensures
            final(bundle_manager).wf(),
            final(bundle_manager).same_node(old(bundle_manager)),
            final(bundle).differs_in_status(old(bundle)),
            exists|now: Timestamp|
                {
                    &&& is_clock_reading(now)
                    &&& final(bundle)@ == #[trigger] received(node_id, old(bundle)@, now)
                    &&& final(bundle_manager)@ == held_after_receipt(
                        node_id,
                        old(bundle_manager)@,
                        old(bundle)@,
                        now,
                    )
                },
    {
        let now = utc_now();
        Self::process_received_bundle_at(node_id, bundle, bundle_manager, now);
    }

    /// Takes in a bundle that reached a node, at a given moment.
    pub fn process_received_bundle_at(
        node_id: Id,
        bundle: &mut Bundle,
        bundle_manager: &mut BundleManager,
        now: Timestamp,
    )
        requires
            old(bundle_manager).wf(),
        ensures
            final(bundle_manager).wf(),
            final(bundle_manager).same_node(old(bundle_manager)),
            final(bundle).differs_in_status(old(bundle)),
            final(bundle)@ == received(node_id, old(bundle)@, now),
            final(bundle_manager)@ == held_after_receipt(
                node_id,
                old(bundle_manager)@,
                old(bundle)@,
                now,
            ),
    {
        if bundle.is_expired_at(now) {
            bundle.shipment_status = MsgStatus::Expired;
            return;
        }
        if node_id == bundle.destination.id {
            bundle.shipment_status = MsgStatus::Delivered;
            bundle_manager.put_bundle(bundle);
            return;
        }
        bundle.shipment_status = MsgStatus::InTransit;
        bundle_manager.put_bundle(bundle);
    }

    /// Routes a bundle, at the present time, as far as this node can on its own.
    pub fn route_bundle(&mut self, bundle: &mut Bundle) -> (next: RouteState)
        requires
            old(self).wf(),
        ensures
            final(self).wf(),
            final(self).differs_in_bundles(old(self)),
            final(bundle).differs_in_status(old(bundle)),
            next.wf(),
            exists|now: Timestamp|
                {
                    &&& is_clock_reading(now)
                    &&& (Routed {
                        held: final(self).bundle_manager@,
                        bundle: final(bundle)@,
                        next: next@,
                    }) == #[trigger] routed(
                        old(self).node_id,
                        old(self).bundle_manager@,
                        old(bundle)@,
                        now,
                    )
                },
            next.holds_no_engine(),
    {
        let now = utc_now();
        self.route_bundle_at(bundle, now)
    }

    /// Routes a bundle, at a given moment, as far as this node can on its own.
    pub fn route_bundle_at(&mut self, bundle: &mut Bundle, now: Timestamp) -> (next: RouteState)
        requires
            old(self).wf(),
        ensures
            final(self).wf(),
            final(self).differs_in_bundles(old(self)),
            final(bundle).differs_in_status(old(bundle)),
            next.wf(),
            (Routed {
                held: final(self).bundle_manager@,
                bundle: final(bundle)@,
                next: next@,
            }) == routed(old(self).node_id, old(self).bundle_manager@, old(bundle)@, now),
            next.holds_no_engine(),
    {
        let _ = self.bundle_manager.save_bundle(bundle);

        if matches!(bundle.kind, BundleKind::Ack { .. }) {
            if bundle.source.id == self.node_id {
                let _ = self.bundle_manager.delete_bundle(bundle.id);
                return RouteState::Finished;
            }
            self.bundle_manager.handle_incoming_ack(bundle);
            return RouteState::FloodAck;
        }
        if self.node_id == bundle.destination.id {
            bundle.shipment_status = MsgStatus::Delivered;
            self.bundle_manager.put_bundle(bundle);
            proof {
                saved_is_held(old(self).bundle_manager@, old(bundle)@);
            }
            return RouteState::Finished;
        }
        if bundle.is_expired_at(now) {
            bundle.shipment_status = MsgStatus::Expired;
            let _ = self.bundle_manager.update_bundle(bundle);
            return RouteState::Finished;
        }
        let local_sv = self.get_summary_vector(&self.bundle_manager);
        RouteState::Forward { pending: keep_pending(local_sv) }
    }

    /// Goes on with the routing of a bundle when an answer comes in, and says what
    /// is to be sent.
    pub fn continue_route(
        &mut self,
        bundle: &mut Bundle,
        state: RouteState,
        event: RouteEvent,
    ) -> (result: (RouteState, Vec<Transfer>))
        requires
            old(self).wf(),
            state.wf(),
        ensures
            final(self).wf(),
            final(self).differs_in_bundles(old(self)),
            final(bundle).differs_in_status(old(bundle)),
            result.0.wf(),
            (Routed {
                held: final(self).bundle_manager@,
                bundle: final(bundle)@,
                next: result.0@,
            }) == route_next(
                Routed { held: old(self).bundle_manager@, bundle: old(bundle)@, next: state@ },
                event@,
            ),
            transfer_views(result.1@) == route_transfers(
                old(self).node_id,
                Routed { held: old(self).bundle_manager@, bundle: old(bundle)@, next: state@ },
                event@,
            ),
            forall|i: int|
                0 <= i < result.1@.len() ==> (#[trigger] result.1@[i]).bundle.is_detached(),
    {
        match (state, event) {
            (RouteState::FloodAck, RouteEvent::Registry(reply)) => {
                let peers = self.query_registry_peers(reply);
                let transfers = self.flood_ack(bundle, peers.as_slice());
                (RouteState::Finished, transfers)
            },
            (RouteState::Forward { pending }, RouteEvent::Registry(reply)) => {
                let peers = self.query_registry_peers(reply);
                let pass = ForwardPass::new(pending, peers);
                (self.go_on(bundle, pass), no_transfers())
            },
            (RouteState::Pass(pass), RouteEvent::Summary(reply)) => {
                let ghost peer_sv = known_summary(reply);
                let transfers = pass.serve(self, reply);
                let offered = offered_ids(&transfers);
                assert(offered@ =~= ids_of(missing_on_peer(pass.pending(), peer_sv)));
                (RouteState::Sending { pass, offered }, transfers)
            },
            (RouteState::Sending { pass, offered }, RouteEvent::Sent(written)) => {
                let mut pass = pass;
                pass.advance(&offered, &written, bundle.id);
                (self.go_on(bundle, pass), no_transfers())
            },
            (state, _) => (state, no_transfers()),
        }
    }

    /// Stays in a forwarding pass while a node is left; else the bundle is in
    /// transit from here on, unless the pass leaves it pending.
    fn go_on(&mut self, bundle: &mut Bundle, pass: ForwardPass) -> (next: RouteState)
        requires
            old(self).wf(),
        ensures
            final(self).wf(),
            final(self).differs_in_bundles(old(self)),
            final(bundle).differs_in_status(old(bundle)),
            next.wf(),
            (Routed {
                held: final(self).bundle_manager@,
                bundle: final(bundle)@,
                next: next@,
            }) == pass_from(
                old(self).bundle_manager@,
                old(bundle)@,
                pass.pending(),
                pass.peers(),
                pass.served(),
                pass.reach(),
            ),
    {
        if pass.has_next() {
            RouteState::Pass(pass)
        } else {
            bundle.shipment_status =
            if pass.leaves_pending(bundle.id) {
                MsgStatus::Pending
            } else {
                MsgStatus::InTransit
            };
            let _ = self.bundle_manager.update_bundle(bundle);
            RouteState::Finished
        }
    }

    /// The transfers that bring an acknowledgement to every connected node.
    fn flood_ack(&self, ack: &Bundle, peers: &[PeerRecord]) -> (transfers: Vec<Transfer>)
        ensures
            transfer_views(transfers@) == ack_transfers(ack@, record_views(peers@)),
            forall|i: int|
                0 <= i < transfers@.len() ==> (#[trigger] transfers@[i]).bundle.is_detached(),
    {
        let mut transfers: Vec<Transfer> = Vec::new();
        let mut i: usize = 0;
        while i < peers.len()
            invariant
                i <= peers@.len(),
                transfers@.len() == i,
                forall|j: int|
                    0 <= j < i ==> (#[trigger] transfers@[j])@ == ack_transfers(
                        ack@,
                        record_views(peers@),
                    )[j],
                forall|j: int| 0 <= j < i ==> (#[trigger] transfers@[j]).bundle.is_detached(),
            decreases peers@.len() - i,
        {
            let node = &peers[i].node;
            transfers.push(
                Transfer {
                    source_id: node.id,
                    bundle: ack.detached(),
                    destination: endpoint(node.address.as_str(), node.port),
                },
            );
            i += 1;
        }
        assert(transfer_views(transfers@) =~= ack_transfers(ack@, record_views(peers@)));
        transfers
    }
}

/// The identifiers of the bundles that go out, in their order.
fn offered_ids(transfers: &Vec<Transfer>) -> (ids: Vec<Id>)
    ensures
        ids@ == transfer_views(transfers@).map_values(|transfer: TransferView| transfer.bundle.id),
{
    let mut ids: Vec<Id> = Vec::new();
    let mut i: usize = 0;
    while i < transfers.len()
        invariant
            i <= transfers@.len(),
            ids@.len() == i,
            forall|j: int| 0 <= j < i ==> #[trigger] ids@[j] == transfers@[j].bundle.id,
        decreases transfers@.len() - i,
    {
        ids.push(transfers[i].bundle.id);
        i += 1;
    }
    assert(ids@ =~= transfer_views(transfers@).map_values(
        |transfer: TransferView| transfer.bundle.id,
    ));
    ids
}

/// Whether a bundle with a given identifier was offered and written.
fn is_written(offered: &Vec<Id>, written: &Vec<bool>, id: Id) -> (found: bool)
    ensures
        found == some_written(offered@, written@, id),
{
    let mut i: usize = 0;
    while i < offered.len() && i < written.len()
        invariant
            i <= offered@.len(),
            i <= written@.len(),
            forall|j: int| 0 <= j < i && #[trigger] offered@[j] == id ==> !written@[j],
        decreases offered@.len() - i,
    {
        if offered[i] == id && written[i] {
            assert(offered@[i as int] == id);
            return true;
        }
        i += 1;
    }
    false
}

fn no_transfers() -> (transfers: Vec<Transfer>)
    ensures
        transfers@.len() == 0,
        transfer_views(transfers@) == Seq::<TransferView>::empty(),
{
    let transfers: Vec<Transfer> = Vec::new();
    assert(transfer_views(transfers@) =~= Seq::<TransferView>::empty());
    transfers
}

impl RouteState {
    /// A pass has a node that is asked or sent to.
    pub open spec fn wf(&self) -> bool {
        match self {
            RouteState::Pass(pass) => pass.served() < pass.peers().len(),
            RouteState::Sending { pass, .. } => pass.served() < pass.peers().len(),
            _ => true,
        }
    }

    /// No bundle that waits to be forwarded carries an engine.
    pub open spec fn holds_no_engine(&self) -> bool {
        self matches RouteState::Forward { pending } ==> forall|i: int|
            0 <= i < pending@.len() ==> (#[trigger] pending@[i]).is_detached()
    }

    /// What is to be asked before the routing can go on.
    pub fn question(&self) -> (question: RouteQuestion)
        requires
            self.wf(),
        ensures
            match self@ {
                RouteStateView::Finished => question is Nothing,
                RouteStateView::FloodAck => question is Registry,
                RouteStateView::Forward { .. } => question is Registry,
                RouteStateView::Pass { peers, served, .. } => question matches RouteQuestion::Summary {
                    destination,
                } && destination@ == peer_endpoint(peers[served as int]),
                RouteStateView::Sending { .. } => question is Transfers,
            },
    {
        match self {
            RouteState::Finished => RouteQuestion::Nothing,
            RouteState::FloodAck => RouteQuestion::Registry,
            RouteState::Forward { .. } => RouteQuestion::Registry,
            RouteState::Pass(pass) => RouteQuestion::Summary {
                destination: pass.next_destination(),
            },
            RouteState::Sending { .. } => RouteQuestion::Transfers,
        }
    }
}

/// Keeps the bundles that were not sent yet.
fn keep_pending(bundles: Vec<Bundle>) -> (pending: Vec<Bundle>)
    ensures
        bundle_views(pending@) == pending_bundles(bundle_views(bundles@)),
        forall|i: int| 0 <= i < pending@.len() ==> (#[trigger] pending@[i]).is_detached(),
{
    let ghost views = bundle_views(bundles@);
    let ghost keep = |bundle: BundleView| bundle.shipment_status == MsgStatus::Pending;
    let mut pending: Vec<Bundle> = Vec::new();
    let mut i: usize = 0;
    proof {
        reveal(Seq::filter);
        assert(bundle_views(pending@) =~= views.take(0).filter(keep));
    }
    while i < bundles.len()
        invariant
            i <= bundles@.len(),
            views == bundle_views(bundles@),
            keep == (|bundle: BundleView| bundle.shipment_status == MsgStatus::Pending),
            bundle_views(pending@) == views.take(i as int).filter(keep),
            forall|j: int| 0 <= j < pending@.len() ==> (#[trigger] pending@[j]).is_detached(),
        decreases bundles@.len() - i,
    {
        let ghost before = pending@;
        proof {
            reveal(Seq::filter);
            assert(views.take(i + 1).drop_last() =~= views.take(i as int));
            assert(views.take(i + 1).last() == bundles@[i as int]@);
        }
        if bundles[i].shipment_status == MsgStatus::Pending {
            pending.push(bundles[i].detached());
            assert(bundle_views(pending@) =~= bundle_views(before).push(bundles@[i as int]@));
        }
        i += 1;
    }
    assert(views.take(i as int) =~= views);
    pending
}

/// A forwarding pass: the connected nodes are asked one after the other what they
/// hold, and each gets the pending bundles that it lacks.
#[derive(Debug)]
pub struct ForwardPass {
    pending: Vec<Bundle>,
    peers: Vec<PeerRecord>,
    next: usize,
    reach: Reach,
}

impl ForwardPass {
    /// The bundles to be forwarded.
    pub closed spec fn pending(&self) -> Seq<BundleView> {
        bundle_views(self.pending@)
    }

    /// The connected nodes.
    pub closed spec fn peers(&self) -> Seq<PeerRecordView> {
        record_views(self.peers@)
    }

    /// How many nodes were served.
    pub closed spec fn served(&self) -> nat {
        self.next as nat
    }

    /// How far the bundle that is routed has got.
    pub closed spec fn reach(&self) -> Reach {
        self.reach
    }

    /// A pass that starts with the first node.
    pub fn new(pending: Vec<Bundle>, peers: Vec<PeerRecord>) -> (pass: ForwardPass)
        ensures
            pass.pending() == bundle_views(pending@),
            pass.peers() == record_views(peers@),
            pass.served() == 0,
            pass.reach() == Reach::Unoffered,
    {
        ForwardPass { pending, peers, next: 0, reach: Reach::Unoffered }
    }

    /// Whether a node is left to be asked.
    pub fn has_next(&self) -> (left: bool)
        ensures
            left == (self.served() < self.peers().len()),
    {
        self.next < self.peers.len()
    }

    /// Whether a pass that ends here leaves the bundle that is routed pending.
    pub fn leaves_pending(&self, id: Id) -> (left: bool)
        ensures
            left == left_pending(self.pending(), self.peers(), self.reach(), id),
    {
        self.reach == Reach::Missed || (self.peers.len() == 0 && self.has_pending(id))
    }

    /// Whether a bundle with a given identifier is to be forwarded.
    fn has_pending(&self, id: Id) -> (found: bool)
        ensures
            found == holds_id(self.pending(), id),
    {
        let mut i: usize = 0;
        while i < self.pending.len()
            invariant
                i <= self.pending@.len(),
                forall|j: int| 0 <= j < i ==> (#[trigger] self.pending()[j]).id != id,
            decreases self.pending@.len() - i,
        {
            if self.pending[i].id == id {
                assert(self.pending()[i as int].id == id);
                return true;
            }
            i += 1;
        }
        false
    }

    /// The endpoint of the node to be asked next.
    pub fn next_destination(&self) -> (destination: String)
        requires
            self.served() < self.peers().len(),
        ensures
            destination@ == peer_endpoint(self.peers()[self.served() as int]),
    {
        let node = &self.peers[self.next].node;
        endpoint(node.address.as_str(), node.port)
    }

    /// What goes out to the node that was asked, given what came of asking it.
    pub fn serve(&self, engine: &RoutingEngine, reply: Result<Vec<Id>, SummaryError>) -> (
    transfers: Vec<Transfer>)
        requires
            self.served() < self.peers().len(),
        ensures
            transfer_views(transfers@) == transfers_to_peer(
                engine.node_id,
                self.pending(),
                self.peers()[self.served() as int],
                known_summary(reply),
            ),
            forall|i: int|
                0 <= i < transfers@.len() ==> (#[trigger] transfers@[i]).bundle.is_detached(),
    {
        let node = &self.peers[self.next].node;
        let peer_sv = engine.get_peer_summary_vector(reply);
        let to_forward = engine.anti_entropy(self.pending.as_slice(), peer_sv.as_slice());
        let ghost expected = transfers_to_peer(
            engine.node_id,
            self.pending(),
            self.peers()[self.next as int],
            peer_sv@,
        );
        let mut transfers: Vec<Transfer> = Vec::new();
        let mut i: usize = 0;
        while i < to_forward.len()
            invariant
                i <= to_forward@.len(),
                self.next < self.peers@.len(),
                node@ == self.peers()[self.next as int].node,
                bundle_views(to_forward@.unref()) == missing_on_peer(self.pending(), peer_sv@),
                expected == transfers_to_peer(
                    engine.node_id,
                    self.pending(),
                    self.peers()[self.next as int],
                    peer_sv@,
                ),
                transfers@.len() == i,
                forall|j: int| 0 <= j < i ==> (#[trigger] transfers@[j])@ == expected[j],
                forall|j: int| 0 <= j < i ==> (#[trigger] transfers@[j]).bundle.is_detached(),
            decreases to_forward@.len() - i,
        {
            assert(bundle_views(to_forward@.unref())[i as int] == to_forward@[i as int]@);
            transfers.push(
                Transfer {
                    source_id: engine.node_id,
                    bundle: to_forward[i].detached(),
                    destination: endpoint(node.address.as_str(), node.port),
                },
            );
            i += 1;
        }
        assert(bundle_views(to_forward@.unref()).len() == to_forward@.len());
        assert(transfer_views(transfers@) =~= expected);
        transfers
    }

    /// Goes on to the next node, given what the node that was served was offered and
    /// what of that was written. The identifier is that of the bundle that is routed.
    pub fn advance(&mut self, offered: &Vec<Id>, written: &Vec<bool>, id: Id)
        requires
            old(self).served() < old(self).peers().len(),
        ensures
            final(self).pending() == old(self).pending(),
            final(self).peers() == old(self).peers(),
            final(self).served() == old(self).served() + 1,
            final(self).reach() == reach_next(old(self).reach(), offered@, written@, id),
    {
        assert(self.next < self.peers.len());
        self.next += 1;
        if is_written(offered, written, id) {
            self.reach = Reach::Reached;
        } else if self.reach != Reach::Reached && contains_id(offered.as_slice(), id) {
            self.reach = Reach::Missed;
        }
    }
}

} // verus!
